//! The command-line parser: one line of text becomes a `CommandLine`.
//!
//! The first word classifies the line: a name from the builtin table
//! starts a builtin invocation whose remaining words are raw arguments;
//! any other first word starts an external pipeline, whose words are
//! split on `|` into stages, the last of which may divert its output to
//! a file with `>` (truncate) or `>>` (append).

use crate::builtin_cmd::{is_builtin, is_builtin_name};
use crate::words::{
    all_nonempty, clone_range, is_append_word, is_pipe_word, is_redirect_word, lemma_words_nonempty,
    split_words, word_is_append, word_is_pipe, word_is_redirect, words_of,
};
use vstd::prelude::*;

verus! {

/// One stage of a pipeline: a command name and its arguments, in their
/// original order.
#[derive(Debug, PartialEq)]
pub struct SimpleCommand {
    pub command_name: String,
    pub args: Vec<String>,
}

/// Mathematical image of a `SimpleCommand`.
#[verifier::ext_equal]
pub struct SimpleCommandV {
    pub command_name: Seq<char>,
    pub args: Seq<Seq<char>>,
}

impl SimpleCommandV {
    /// A command always has a name.
    pub open spec fn wf(self) -> bool {
        self.command_name.len() > 0
    }
}

impl View for SimpleCommand {
    type V = SimpleCommandV;

    open spec fn view(&self) -> SimpleCommandV {
        SimpleCommandV { command_name: self.command_name@, args: self.args.deep_view() }
    }
}

impl DeepView for SimpleCommand {
    type V = SimpleCommandV;

    open spec fn deep_view(&self) -> SimpleCommandV {
        self.view()
    }
}

/// The file a pipeline's final output is diverted to, and whether the
/// file's prior contents are kept (`append`) or discarded.
#[derive(Debug, PartialEq)]
pub struct RedirectFile {
    pub file: String,
    pub append: bool,
}

/// Mathematical image of a `RedirectFile`.
#[verifier::ext_equal]
pub struct RedirectFileV {
    pub file: Seq<char>,
    pub append: bool,
}

impl View for RedirectFile {
    type V = RedirectFileV;

    open spec fn view(&self) -> RedirectFileV {
        RedirectFileV { file: self.file@, append: self.append }
    }
}

impl DeepView for RedirectFile {
    type V = RedirectFileV;

    open spec fn deep_view(&self) -> RedirectFileV {
        self.view()
    }
}

impl RedirectFile {
    /// The contents the target file holds once the pipeline has finished,
    /// given the file's prior contents and the bytes the final stage
    /// wrote: appending keeps the prior contents in place, truncating
    /// discards them. The host realizes exactly this by its choice of
    /// open mode.
    pub fn sink_contents(&self, prior: &Vec<u8>, produced: &Vec<u8>) -> (r: Vec<u8>)
        ensures
            self.append ==> r@ == prior@ + produced@,
            !self.append ==> r@ == produced@,
    {
        let mut out: Vec<u8> = Vec::new();
        if self.append {
            let mut i: usize = 0;
            while i < prior.len()
                invariant
                    i <= prior@.len(),
                    out@ == prior@.subrange(0, i as int),
                decreases prior@.len() - i,
            {
                out.push(prior[i]);
                proof {
                    assert(out@ =~= prior@.subrange(0, i + 1));
                }
                i += 1;
            }
            proof {
                assert(out@ =~= prior@);
            }
        }
        let ghost base = out@;
        let mut j: usize = 0;
        while j < produced.len()
            invariant
                j <= produced@.len(),
                out@ == base + produced@.subrange(0, j as int),
            decreases produced@.len() - j,
        {
            out.push(produced[j]);
            proof {
                assert(out@ =~= base + produced@.subrange(0, j + 1));
            }
            j += 1;
        }
        proof {
            assert(base + produced@.subrange(0, produced@.len() as int) =~= base + produced@);
            if self.append {
                assert(out@ =~= prior@ + produced@);
            } else {
                assert(out@ =~= produced@);
            }
        }
        out
    }
}

/// An external pipeline: one or more stages, the output of each feeding
/// the input of the next, and an optional redirect on the last.
#[derive(Debug, PartialEq)]
pub struct ExternCommandLine {
    pub piped_cmds: Vec<SimpleCommand>,
    pub redirect: Option<RedirectFile>,
}

/// Mathematical image of an `ExternCommandLine`.
#[verifier::ext_equal]
pub struct ExternCommandLineV {
    pub piped_cmds: Seq<SimpleCommandV>,
    pub redirect: Option<RedirectFileV>,
}

impl ExternCommandLineV {
    /// A pipeline has at least one stage, each with a command name.
    pub open spec fn wf(self) -> bool {
        &&& self.piped_cmds.len() >= 1
        &&& forall|i: int| 0 <= i < self.piped_cmds.len() ==> self.piped_cmds[i].wf()
    }
}

impl View for ExternCommandLine {
    type V = ExternCommandLineV;

    open spec fn view(&self) -> ExternCommandLineV {
        ExternCommandLineV {
            piped_cmds: self.piped_cmds.deep_view(),
            redirect: self.redirect.deep_view(),
        }
    }
}

impl DeepView for ExternCommandLine {
    type V = ExternCommandLineV;

    open spec fn deep_view(&self) -> ExternCommandLineV {
        self.view()
    }
}

/// A parsed command line: a builtin invocation or an external pipeline.
#[derive(Debug, PartialEq)]
pub enum CommandLine {
    Extern(ExternCommandLine),
    Builtin(SimpleCommand),
}

/// Mathematical image of a `CommandLine`.
#[verifier::ext_equal]
pub enum CommandLineV {
    Extern(ExternCommandLineV),
    Builtin(SimpleCommandV),
}

impl CommandLineV {
    /// Well-formedness of a parsed line.
    pub open spec fn wf(self) -> bool {
        match self {
            CommandLineV::Extern(e) => e.wf(),
            CommandLineV::Builtin(c) => c.wf(),
        }
    }
}

impl View for CommandLine {
    type V = CommandLineV;

    open spec fn view(&self) -> CommandLineV {
        match self {
            CommandLine::Extern(e) => CommandLineV::Extern(e@),
            CommandLine::Builtin(c) => CommandLineV::Builtin(c@),
        }
    }
}

impl DeepView for CommandLine {
    type V = CommandLineV;

    open spec fn deep_view(&self) -> CommandLineV {
        self.view()
    }
}

/// A malformed command line. Always recoverable: it is reported and the
/// read loop goes on.
#[derive(Debug, Clone, Copy, PartialEq, Eq, Structural)]
pub enum ParseError {
    /// The line holds no word at all.
    EmptyCommand,
    /// A stage has no command: two pipes in a row, a pipe at either end
    /// of the line, or a redirect operator with no command before it.
    MissingCommand,
    /// A redirect operator at the end of its stage, with no file name.
    MissingRedirectTarget,
    /// A redirect operator in a stage other than the last.
    RedirectMidPipeline,
    /// Words left over after the redirect target.
    TrailingAfterRedirect,
}

/// The stages of the word sequence `ws`, split on pipe words, continuing
/// a scan whose unfinished stage is `cur` and whose finished stages are
/// `acc`. Empty stages are kept: they are how misplaced pipes are told
/// apart.
pub open spec fn stages_acc(
    ws: Seq<Seq<char>>,
    cur: Seq<Seq<char>>,
    acc: Seq<Seq<Seq<char>>>,
) -> Seq<Seq<Seq<char>>>
    decreases ws.len(),
{
    if ws.len() == 0 {
        acc.push(cur)
    } else if is_pipe_word(ws[0]) {
        stages_acc(ws.drop_first(), Seq::empty(), acc.push(cur))
    } else {
        stages_acc(ws.drop_first(), cur.push(ws[0]), acc)
    }
}

/// The stages of `ws`, split on pipe words.
pub open spec fn split_stages_spec(ws: Seq<Seq<char>>) -> Seq<Seq<Seq<char>>> {
    stages_acc(ws, Seq::empty(), Seq::empty())
}

proof fn lemma_stages_acc_len(ws: Seq<Seq<char>>, cur: Seq<Seq<char>>, acc: Seq<Seq<Seq<char>>>)
    ensures
        stages_acc(ws, cur, acc).len() >= acc.len() + 1,
    decreases ws.len(),
{
    if ws.len() == 0 {
    } else if is_pipe_word(ws[0]) {
        lemma_stages_acc_len(ws.drop_first(), Seq::empty(), acc.push(cur));
    } else {
        lemma_stages_acc_len(ws.drop_first(), cur.push(ws[0]), acc);
    }
}

/// Splitting a non-empty word sequence yields at least one stage.
proof fn lemma_split_stages_len(ws: Seq<Seq<char>>)
    ensures
        split_stages_spec(ws).len() >= 1,
{
    lemma_stages_acc_len(ws, Seq::empty(), Seq::empty());
}

/// Every word of every stage of `st` has at least one character.
pub open spec fn all_stages_nonempty(st: Seq<Seq<Seq<char>>>) -> bool {
    forall|i: int| 0 <= i < st.len() ==> all_nonempty(#[trigger] st[i])
}

proof fn lemma_stages_acc_nonempty(
    ws: Seq<Seq<char>>,
    cur: Seq<Seq<char>>,
    acc: Seq<Seq<Seq<char>>>,
)
    requires
        all_nonempty(ws),
        all_nonempty(cur),
        all_stages_nonempty(acc),
    ensures
        all_stages_nonempty(stages_acc(ws, cur, acc)),
    decreases ws.len(),
{
    if ws.len() == 0 {
        assert forall|i: int| 0 <= i < acc.push(cur).len() implies all_nonempty(
            #[trigger] acc.push(cur)[i],
        ) by {
            if i == acc.len() {
                assert(acc.push(cur)[i] == cur);
            }
        }
        assert(stages_acc(ws, cur, acc) == acc.push(cur));
    } else {
        assert forall|j: int| 0 <= j < ws.drop_first().len() implies #[trigger] ws.drop_first()[j].len()
            > 0 by {
            assert(ws.drop_first()[j] == ws[j + 1]);
        }
        if is_pipe_word(ws[0]) {
            assert forall|i: int| 0 <= i < acc.push(cur).len() implies all_nonempty(
                #[trigger] acc.push(cur)[i],
            ) by {
                if i == acc.len() {
                    assert(acc.push(cur)[i] == cur);
                }
            }
            lemma_stages_acc_nonempty(ws.drop_first(), Seq::empty(), acc.push(cur));
            assert(stages_acc(ws, cur, acc) == stages_acc(
                ws.drop_first(),
                Seq::empty(),
                acc.push(cur),
            ));
        } else {
            assert(ws[0].len() > 0);
            assert forall|j: int| 0 <= j < cur.push(ws[0]).len() implies #[trigger] cur.push(
                ws[0],
            )[j].len() > 0 by {
                if j == cur.len() {
                    assert(cur.push(ws[0])[j] == ws[0]);
                }
            }
            lemma_stages_acc_nonempty(ws.drop_first(), cur.push(ws[0]), acc);
            assert(stages_acc(ws, cur, acc) == stages_acc(ws.drop_first(), cur.push(ws[0]), acc));
        }
    }
}

/// Words are never lost nor invented by stage splitting: in particular,
/// stages of a sequence of non-empty words hold non-empty words.
proof fn lemma_split_stages_nonempty(ws: Seq<Seq<char>>)
    requires
        all_nonempty(ws),
    ensures
        all_stages_nonempty(split_stages_spec(ws)),
{
    lemma_stages_acc_nonempty(ws, Seq::empty(), Seq::empty());
}

/// Splits the words of a line on pipe words; empty stages are kept.
fn split_stages(ws: &Vec<String>) -> (st: Vec<Vec<String>>)
    ensures
        st.deep_view() == split_stages_spec(ws.deep_view()),
{
    let ghost wsv = ws.deep_view();
    let mut st: Vec<Vec<String>> = Vec::new();
    let mut cur: Vec<String> = Vec::new();
    proof {
        assert(wsv.subrange(0, wsv.len() as int) =~= wsv);
        assert(st.deep_view() =~= Seq::<Seq<Seq<char>>>::empty());
        assert(cur.deep_view() =~= Seq::<Seq<char>>::empty());
    }
    let mut j: usize = 0;
    while j < ws.len()
        invariant
            j <= ws.len(),
            wsv == ws.deep_view(),
            wsv.len() == ws@.len(),
            stages_acc(wsv.subrange(j as int, wsv.len() as int), cur.deep_view(), st.deep_view())
                == split_stages_spec(wsv),
        decreases ws.len() - j,
    {
        let ghost rest = wsv.subrange(j as int, wsv.len() as int);
        let ghost curv = cur.deep_view();
        let ghost stv = st.deep_view();
        proof {
            assert(rest[0] == wsv[j as int]);
            assert(wsv[j as int] == ws@[j as int]@);
            assert(rest.drop_first() =~= wsv.subrange(j + 1, wsv.len() as int));
        }
        if word_is_pipe(ws[j].as_str()) {
            proof {
                assert(stages_acc(rest, curv, stv) == stages_acc(
                    rest.drop_first(),
                    Seq::empty(),
                    stv.push(curv),
                ));
            }
            st.push(cur);
            cur = Vec::new();
            proof {
                assert(st.deep_view() =~= stv.push(curv));
                assert(cur.deep_view() =~= Seq::<Seq<char>>::empty());
            }
        } else {
            proof {
                assert(stages_acc(rest, curv, stv) == stages_acc(
                    rest.drop_first(),
                    curv.push(rest[0]),
                    stv,
                ));
            }
            cur.push(ws[j].clone());
            proof {
                assert(cur.deep_view() =~= curv.push(rest[0]));
            }
        }
        j += 1;
    }
    let ghost curv = cur.deep_view();
    let ghost stv = st.deep_view();
    proof {
        assert(wsv.subrange(j as int, wsv.len() as int) =~= Seq::<Seq<char>>::empty());
        assert(stages_acc(Seq::empty(), curv, stv) == stv.push(curv));
    }
    st.push(cur);
    proof {
        assert(st.deep_view() =~= stv.push(curv));
    }
    st
}

/// The position of the first redirect operator in a stage, or the
/// stage's length if there is none.
pub open spec fn first_op_idx(stage: Seq<Seq<char>>) -> int
    decreases stage.len(),
{
    if stage.len() == 0 {
        0
    } else if is_redirect_word(stage[0]) {
        0
    } else {
        1 + first_op_idx(stage.drop_first())
    }
}

proof fn lemma_first_op_idx(stage: Seq<Seq<char>>)
    ensures
        0 <= first_op_idx(stage) <= stage.len(),
        forall|j: int| 0 <= j < first_op_idx(stage) ==> !is_redirect_word(#[trigger] stage[j]),
        first_op_idx(stage) < stage.len() ==> is_redirect_word(stage[first_op_idx(stage)]),
    decreases stage.len(),
{
    if stage.len() == 0 {
    } else if is_redirect_word(stage[0]) {
    } else {
        lemma_first_op_idx(stage.drop_first());
        let k = first_op_idx(stage);
        assert(k == 1 + first_op_idx(stage.drop_first()));
        assert forall|j: int| 0 <= j < k implies !is_redirect_word(#[trigger] stage[j]) by {
            if j >= 1 {
                assert(stage.drop_first()[j - 1] == stage[j]);
            }
        }
        if k < stage.len() {
            assert(stage.drop_first()[k - 1] == stage[k]);
        }
    }
}

/// Finds the first redirect operator of a stage.
fn find_redirect(stage: &Vec<String>) -> (k: usize)
    ensures
        k as int == first_op_idx(stage.deep_view()),
{
    let ghost sv = stage.deep_view();
    proof {
        lemma_first_op_idx(sv);
    }
    let mut k: usize = 0;
    while k < stage.len()
        invariant
            k <= stage.len(),
            sv == stage.deep_view(),
            sv.len() == stage@.len(),
            forall|j: int| 0 <= j < k ==> !is_redirect_word(#[trigger] sv[j]),
        decreases stage.len() - k,
    {
        proof {
            assert(sv[k as int] == stage@[k as int]@);
        }
        if word_is_redirect(stage[k].as_str()) {
            proof {
                lemma_first_op_idx(sv);
                if first_op_idx(sv) < k {
                    assert(is_redirect_word(sv[first_op_idx(sv)]));
                }
                if first_op_idx(sv) > k {
                    assert(!is_redirect_word(sv[k as int]));
                }
            }
            return k;
        }
        k += 1;
    }
    proof {
        lemma_first_op_idx(sv);
        if first_op_idx(sv) < sv.len() {
            assert(is_redirect_word(sv[first_op_idx(sv)]));
        }
    }
    k
}

/// What one stage means: its command, and — in the final stage only —
/// an optional redirect. The checks happen in this order: an empty
/// stage, a misplaced redirect, a redirect with no command, a redirect
/// with no target, words after the target.
pub open spec fn spec_parse_stage(stage: Seq<Seq<char>>, is_final: bool) -> Result<
    (SimpleCommandV, Option<RedirectFileV>),
    ParseError,
> {
    let k = first_op_idx(stage);
    if stage.len() == 0 {
        Err(ParseError::MissingCommand)
    } else if k == stage.len() {
        Ok(
            (
                SimpleCommandV { command_name: stage[0], args: stage.subrange(1, stage.len() as int) },
                None,
            ),
        )
    } else if !is_final {
        Err(ParseError::RedirectMidPipeline)
    } else if k == 0 {
        Err(ParseError::MissingCommand)
    } else if k == stage.len() - 1 {
        Err(ParseError::MissingRedirectTarget)
    } else if k + 2 < stage.len() {
        Err(ParseError::TrailingAfterRedirect)
    } else {
        Ok(
            (
                SimpleCommandV { command_name: stage[0], args: stage.subrange(1, k) },
                Some(RedirectFileV { file: stage[k + 1], append: is_append_word(stage[k]) }),
            ),
        )
    }
}

/// Parses one stage of a pipeline.
fn parse_stage(stage: &Vec<String>, is_final: bool) -> (r: Result<
    (SimpleCommand, Option<RedirectFile>),
    ParseError,
>)
    ensures
        ({
            let s = spec_parse_stage(stage.deep_view(), is_final);
            match r {
                Ok(p) => s == Ok::<(SimpleCommandV, Option<RedirectFileV>), ParseError>(
                    (p.0@, p.1.deep_view()),
                ),
                Err(e) => s == Err::<(SimpleCommandV, Option<RedirectFileV>), ParseError>(e),
            }
        }),
{
    let ghost sv = stage.deep_view();
    proof {
        assert(sv.len() == stage@.len());
        lemma_first_op_idx(sv);
    }
    let n = stage.len();
    let k = find_redirect(stage);
    if n == 0 {
        return Err(ParseError::MissingCommand);
    }
    proof {
        assert(sv[0] == stage@[0]@);
    }
    if k == n {
        let cmd = SimpleCommand { command_name: stage[0].clone(), args: clone_range(stage, 1, n) };
        proof {
            assert(cmd@ =~= SimpleCommandV {
                command_name: sv[0],
                args: sv.subrange(1, sv.len() as int),
            });
        }
        return Ok((cmd, None));
    }
    if !is_final {
        return Err(ParseError::RedirectMidPipeline);
    }
    if k == 0 {
        return Err(ParseError::MissingCommand);
    }
    if k == n - 1 {
        return Err(ParseError::MissingRedirectTarget);
    }
    if n - k > 2 {
        return Err(ParseError::TrailingAfterRedirect);
    }
    proof {
        assert(sv[k as int] == stage@[k as int]@);
        assert(sv[k + 1] == stage@[k + 1]@);
    }
    let append = word_is_append(stage[k].as_str());
    let cmd = SimpleCommand { command_name: stage[0].clone(), args: clone_range(stage, 1, k) };
    let red = RedirectFile { file: stage[k + 1].clone(), append };
    proof {
        assert(cmd@ =~= SimpleCommandV { command_name: sv[0], args: sv.subrange(1, k as int) });
        assert(red@ =~= RedirectFileV { file: sv[k + 1], append: is_append_word(sv[k as int]) });
    }
    Ok((cmd, Some(red)))
}

/// What the leading (non-final) stages of a pipeline mean: their
/// commands in order, or the leftmost error.
pub open spec fn spec_parse_heads(st: Seq<Seq<Seq<char>>>) -> Result<Seq<SimpleCommandV>, ParseError>
    decreases st.len(),
{
    if st.len() == 0 {
        Ok(Seq::empty())
    } else {
        match spec_parse_stage(st[0], false) {
            Ok(p) => match spec_parse_heads(st.drop_first()) {
                Ok(rest) => Ok(seq![p.0] + rest),
                Err(e) => Err(e),
            },
            Err(e) => Err(e),
        }
    }
}

proof fn lemma_parse_heads_push(st: Seq<Seq<Seq<char>>>, x: Seq<Seq<char>>)
    ensures
        spec_parse_heads(st.push(x)) == (match spec_parse_heads(st) {
            Ok(cs) => match spec_parse_stage(x, false) {
                Ok(p) => Ok::<Seq<SimpleCommandV>, ParseError>(cs.push(p.0)),
                Err(e) => Err::<Seq<SimpleCommandV>, ParseError>(e),
            },
            Err(e) => Err::<Seq<SimpleCommandV>, ParseError>(e),
        }),
    decreases st.len(),
{
    if st.len() == 0 {
        assert(st.push(x)[0] == x);
        assert(st.push(x).drop_first() =~= Seq::<Seq<Seq<char>>>::empty());
        if spec_parse_stage(x, false) is Ok {
            let p = spec_parse_stage(x, false)->Ok_0;
            assert(seq![p.0] + Seq::<SimpleCommandV>::empty() =~= Seq::<
                SimpleCommandV,
            >::empty().push(p.0));
        }
    } else {
        assert(st.push(x)[0] == st[0]);
        assert(st.push(x).drop_first() =~= st.drop_first().push(x));
        lemma_parse_heads_push(st.drop_first(), x);
        if spec_parse_stage(st[0], false) is Ok && spec_parse_heads(st.drop_first()) is Ok
            && spec_parse_stage(x, false) is Ok {
            let p = spec_parse_stage(st[0], false)->Ok_0;
            let rest = spec_parse_heads(st.drop_first())->Ok_0;
            let q = spec_parse_stage(x, false)->Ok_0;
            assert(seq![p.0] + rest.push(q.0) =~= (seq![p.0] + rest).push(q.0));
        }
    }
}

proof fn lemma_parse_heads_prefix_err(st: Seq<Seq<Seq<char>>>, i: int, e: ParseError)
    requires
        0 <= i < st.len(),
        spec_parse_heads(st.subrange(0, i)) is Ok,
        spec_parse_stage(st[i], false) == Err::<(SimpleCommandV, Option<RedirectFileV>), ParseError>(
            e,
        ),
    ensures
        spec_parse_heads(st) == Err::<Seq<SimpleCommandV>, ParseError>(e),
    decreases i,
{
    if i == 0 {
    } else {
        let pre = st.subrange(0, i);
        assert(pre[0] == st[0]);
        assert(spec_parse_stage(st[0], false) is Ok);
        assert(pre.drop_first() =~= st.drop_first().subrange(0, i - 1));
        assert(spec_parse_heads(pre.drop_first()) is Ok);
        assert(st.drop_first()[i - 1] == st[i]);
        lemma_parse_heads_prefix_err(st.drop_first(), i - 1, e);
    }
}

proof fn lemma_parse_heads_wf(st: Seq<Seq<Seq<char>>>)
    requires
        all_stages_nonempty(st),
        spec_parse_heads(st) is Ok,
    ensures
        spec_parse_heads(st)->Ok_0.len() == st.len(),
        forall|i: int| 0 <= i < st.len() ==> (#[trigger] spec_parse_heads(st)->Ok_0[i]).wf(),
    decreases st.len(),
{
    if st.len() == 0 {
    } else {
        assert(all_nonempty(st[0]));
        assert forall|j: int| 0 <= j < st.drop_first().len() implies all_nonempty(
            #[trigger] st.drop_first()[j],
        ) by {
            assert(st.drop_first()[j] == st[j + 1]);
        }
        lemma_parse_heads_wf(st.drop_first());
        let p = spec_parse_stage(st[0], false)->Ok_0;
        let rest = spec_parse_heads(st.drop_first())->Ok_0;
        assert(st[0].len() > 0 ==> st[0][0].len() > 0);
        assert(p.0.command_name == st[0][0]);
        assert forall|i: int| 0 <= i < st.len() implies (#[trigger] spec_parse_heads(
            st,
        )->Ok_0[i]).wf() by {
            if i == 0 {
                assert(spec_parse_heads(st)->Ok_0[0] == p.0);
            } else {
                assert(spec_parse_heads(st)->Ok_0[i] == rest[i - 1]);
            }
        }
    }
}

/// What a whole pipeline means: the commands of all stages in order,
/// with the final stage's optional redirect, or the leftmost error.
pub open spec fn spec_parse_pipeline(st: Seq<Seq<Seq<char>>>) -> Result<
    ExternCommandLineV,
    ParseError,
> {
    match spec_parse_heads(st.drop_last()) {
        Ok(cs) => match spec_parse_stage(st.last(), true) {
            Ok(p) => Ok(ExternCommandLineV { piped_cmds: cs.push(p.0), redirect: p.1 }),
            Err(e) => Err(e),
        },
        Err(e) => Err(e),
    }
}

/// Parses a pipeline from its stages.
fn parse_pipeline(st: &Vec<Vec<String>>) -> (r: Result<ExternCommandLine, ParseError>)
    requires
        st@.len() >= 1,
    ensures
        ({
            let s = spec_parse_pipeline(st.deep_view());
            match r {
                Ok(p) => s == Ok::<ExternCommandLineV, ParseError>(p@) && p.piped_cmds@.len()
                    == st@.len(),
                Err(e) => s == Err::<ExternCommandLineV, ParseError>(e),
            }
        }),
{
    let ghost stv = st.deep_view();
    proof {
        assert(stv.len() == st@.len());
        assert(stv.drop_last() =~= stv.subrange(0, stv.len() - 1));
    }
    let n = st.len();
    let mut cmds: Vec<SimpleCommand> = Vec::new();
    proof {
        assert(stv.subrange(0, 0) =~= Seq::<Seq<Seq<char>>>::empty());
        assert(cmds.deep_view() =~= Seq::<SimpleCommandV>::empty());
    }
    let mut i: usize = 0;
    while i < n - 1
        invariant
            i <= n - 1,
            n == st@.len(),
            stv == st.deep_view(),
            stv.len() == n,
            cmds@.len() == i,
            spec_parse_heads(stv.subrange(0, i as int)) == Ok::<Seq<SimpleCommandV>, ParseError>(
                cmds.deep_view(),
            ),
        decreases n - 1 - i,
    {
        let ghost pre = cmds.deep_view();
        proof {
            assert(stv[i as int] == st@[i as int].deep_view());
            assert(stv.subrange(0, i as int).push(stv[i as int]) =~= stv.subrange(0, i + 1));
            lemma_parse_heads_push(stv.subrange(0, i as int), stv[i as int]);
        }
        match parse_stage(&st[i], false) {
            Ok(p) => {
                let (c, _) = p;
                cmds.push(c);
                proof {
                    assert(cmds.deep_view() =~= pre.push(c@));
                }
            },
            Err(e) => {
                proof {
                    assert(stv.drop_last().subrange(0, i as int) =~= stv.subrange(0, i as int));
                    assert(stv.drop_last()[i as int] == stv[i as int]);
                    lemma_parse_heads_prefix_err(stv.drop_last(), i as int, e);
                }
                return Err(e);
            },
        }
        i += 1;
    }
    proof {
        assert(stv[n - 1] == st@[n - 1].deep_view());
        assert(stv.last() == stv[n - 1]);
        assert(stv.subrange(0, n - 1) =~= stv.drop_last());
    }
    match parse_stage(&st[n - 1], true) {
        Ok(p) => {
            let (c, red) = p;
            let ghost pre = cmds.deep_view();
            cmds.push(c);
            proof {
                assert(cmds.deep_view() =~= pre.push(c@));
            }
            let out = ExternCommandLine { piped_cmds: cmds, redirect: red };
            proof {
                assert(out@ =~= spec_parse_pipeline(stv)->Ok_0);
            }
            Ok(out)
        },
        Err(e) => Err(e),
    }
}

/// What a whole line means, given its words.
pub open spec fn spec_parse(ws: Seq<Seq<char>>) -> Result<CommandLineV, ParseError> {
    if ws.len() == 0 {
        Err(ParseError::EmptyCommand)
    } else if is_builtin_name(ws[0]) {
        Ok(CommandLineV::Builtin(SimpleCommandV { command_name: ws[0], args: ws.drop_first() }))
    } else {
        match spec_parse_pipeline(split_stages_spec(ws)) {
            Ok(e) => Ok(CommandLineV::Extern(e)),
            Err(e) => Err(e),
        }
    }
}

/// Parses one line of input into a `CommandLine`. Pure text-to-structure
/// transformation: no filesystem or process access, and for one input
/// always one result — the ensures clause pins the outcome, success or
/// error, as a function of the line's words alone.
pub fn parse_cmdline(cmd: &str) -> (r: Result<CommandLine, ParseError>)
    ensures
        ({
            let s = spec_parse(words_of(cmd@));
            match r {
                Ok(c) => s == Ok::<CommandLineV, ParseError>(c@) && c@.wf(),
                Err(e) => s == Err::<CommandLineV, ParseError>(e),
            }
        }),
{
    let ghost wsv = words_of(cmd@);
    proof {
        lemma_words_nonempty(cmd@);
    }
    let ws = split_words(cmd);
    if ws.len() == 0 {
        return Err(ParseError::EmptyCommand);
    }
    proof {
        assert(wsv[0] == ws@[0]@);
        assert(wsv[0].len() > 0);
    }
    if is_builtin(ws[0].as_str()) {
        let name = ws[0].clone();
        let args = clone_range(&ws, 1, ws.len());
        let c = CommandLine::Builtin(SimpleCommand { command_name: name, args });
        proof {
            assert(args.deep_view() =~= wsv.drop_first());
            assert(c@ =~= spec_parse(wsv)->Ok_0);
        }
        return Ok(c);
    }
    let st = split_stages(&ws);
    proof {
        lemma_split_stages_len(wsv);
        assert(st.deep_view().len() == st@.len());
        lemma_split_stages_nonempty(wsv);
    }
    match parse_pipeline(&st) {
        Ok(e) => {
            proof {
                let stv = st.deep_view();
                assert forall|j: int| 0 <= j < stv.drop_last().len() implies all_nonempty(
                    #[trigger] stv.drop_last()[j],
                ) by {
                    assert(stv.drop_last()[j] == stv[j]);
                }
                lemma_parse_heads_wf(stv.drop_last());
                let cs = spec_parse_heads(stv.drop_last())->Ok_0;
                let p = spec_parse_stage(stv.last(), true)->Ok_0;
                assert(all_nonempty(stv.last()));
                assert(stv.last().len() > 0 ==> stv.last()[0].len() > 0);
                assert(p.0.command_name == stv.last()[0]);
                assert(e@.piped_cmds == cs.push(p.0));
                assert forall|i: int| 0 <= i < e@.piped_cmds.len() implies (
                #[trigger] e@.piped_cmds[i]).wf() by {
                    if i < cs.len() {
                        assert(e@.piped_cmds[i] == cs[i]);
                    } else {
                        assert(e@.piped_cmds[i] == p.0);
                    }
                }
            }
            Ok(CommandLine::Extern(e))
        },
        Err(e) => Err(e),
    }
}

} // verus!
