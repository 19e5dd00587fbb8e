use hjpsh::parser::{parse_cmdline, CommandLine, ParseError, RedirectFile};

#[test]
fn parse_is_deterministic() {
    let line = "cat notes.txt | grep word > hits.txt";
    let first = parse_cmdline(line);
    let second = parse_cmdline(line);
    assert_eq!(first, second);
    let bad = "a | | b";
    assert_eq!(parse_cmdline(bad), parse_cmdline(bad));
}

#[test]
fn parse_three_stage_pipeline_with_truncate_redirect() {
    let r = parse_cmdline("a | b | c > out.txt");
    match r {
        Ok(CommandLine::Extern(e)) => {
            assert_eq!(e.piped_cmds.len(), 3);
            assert_eq!(e.piped_cmds[0].command_name, "a");
            assert_eq!(e.piped_cmds[1].command_name, "b");
            assert_eq!(e.piped_cmds[2].command_name, "c");
            assert!(e.piped_cmds.iter().all(|c| c.args.is_empty()));
            assert_eq!(
                e.redirect,
                Some(RedirectFile {
                    file: "out.txt".to_string(),
                    append: false,
                })
            );
        }
        other => panic!("expected a 3-stage pipeline, got {:?}", other),
    }
}

#[test]
fn parse_rejects_redirect_mid_pipeline() {
    let r = parse_cmdline("a > out.txt | b");
    assert_eq!(r, Err(ParseError::RedirectMidPipeline));
}

#[test]
fn parse_unknown_command_is_a_pipeline_not_an_error() {
    let r = parse_cmdline("frobnicate arg1");
    match r {
        Ok(CommandLine::Extern(e)) => {
            assert_eq!(e.piped_cmds.len(), 1);
            assert_eq!(e.piped_cmds[0].command_name, "frobnicate");
            assert_eq!(e.piped_cmds[0].args, vec!["arg1".to_string()]);
            assert_eq!(e.redirect, None);
        }
        other => panic!("expected a 1-stage pipeline, got {:?}", other),
    }
}

#[test]
fn parse_empty_line_is_rejected() {
    assert_eq!(parse_cmdline(""), Err(ParseError::EmptyCommand));
    assert_eq!(parse_cmdline("   \t "), Err(ParseError::EmptyCommand));
    // Whitespace beyond ASCII is still whitespace: a line of vertical
    // tabs or ideographic spaces holds no command.
    assert_eq!(parse_cmdline("\u{000B}"), Err(ParseError::EmptyCommand));
    assert_eq!(parse_cmdline("\u{2028}\u{205F}\u{3000}"), Err(ParseError::EmptyCommand));
}

#[test]
fn parse_missing_command_around_pipes() {
    assert_eq!(parse_cmdline("a | | b"), Err(ParseError::MissingCommand));
    assert_eq!(parse_cmdline("a |"), Err(ParseError::MissingCommand));
    assert_eq!(parse_cmdline("| a"), Err(ParseError::MissingCommand));
    assert_eq!(parse_cmdline("> f"), Err(ParseError::MissingCommand));
}

#[test]
fn parse_missing_redirect_target() {
    assert_eq!(parse_cmdline("a >"), Err(ParseError::MissingRedirectTarget));
    assert_eq!(
        parse_cmdline("a | b >>"),
        Err(ParseError::MissingRedirectTarget)
    );
}

#[test]
fn parse_trailing_words_after_redirect_target() {
    assert_eq!(
        parse_cmdline("a > out.txt extra"),
        Err(ParseError::TrailingAfterRedirect)
    );
}

#[test]
fn parse_append_redirect() {
    let r = parse_cmdline("echo hi >> log.txt");
    match r {
        Ok(CommandLine::Extern(e)) => {
            assert_eq!(e.piped_cmds.len(), 1);
            assert_eq!(e.piped_cmds[0].command_name, "echo");
            assert_eq!(e.piped_cmds[0].args, vec!["hi".to_string()]);
            assert_eq!(
                e.redirect,
                Some(RedirectFile {
                    file: "log.txt".to_string(),
                    append: true,
                })
            );
        }
        other => panic!("expected a redirected pipeline, got {:?}", other),
    }
}

#[test]
fn parse_builtin_keeps_tail_words_as_raw_arguments() {
    let r = parse_cmdline("cp2 a.txt b.txt");
    match r {
        Ok(CommandLine::Builtin(c)) => {
            assert_eq!(c.command_name, "cp2");
            assert_eq!(c.args, vec!["a.txt".to_string(), "b.txt".to_string()]);
        }
        other => panic!("expected a builtin invocation, got {:?}", other),
    }
}

#[test]
fn sink_contents_append_keeps_prior_bytes() {
    let red = RedirectFile {
        file: "out.txt".to_string(),
        append: true,
    };
    let out = red.sink_contents(&b"Existing\n".to_vec(), &b"New\n".to_vec());
    assert_eq!(out, b"Existing\nNew\n".to_vec());
}

#[test]
fn sink_contents_truncate_discards_prior_bytes() {
    let red = RedirectFile {
        file: "out.txt".to_string(),
        append: false,
    };
    let out = red.sink_contents(&b"Existing\n".to_vec(), &b"New\n".to_vec());
    assert_eq!(out, b"New\n".to_vec());
}
