//! Whitespace tokenization shared by the lexer and the parser.
//!
//! A command line is delimited into words by runs of blank characters;
//! the words carry all further meaning (operators, command names,
//! arguments, file names).

use vstd::prelude::*;

verus! {

/// A field delimiter: lines are split into words on the Unicode
/// whitespace characters — the set `char::is_whitespace` accepts.
pub open spec fn is_space(c: char) -> bool {
    ||| c == ' '
    ||| c == '\t'
    ||| c == '\n'
    ||| c == '\u{000B}'
    ||| c == '\u{000C}'
    ||| c == '\r'
    ||| c == '\u{0085}'
    ||| c == '\u{00A0}'
    ||| c == '\u{1680}'
    ||| c == '\u{2000}'
    ||| c == '\u{2001}'
    ||| c == '\u{2002}'
    ||| c == '\u{2003}'
    ||| c == '\u{2004}'
    ||| c == '\u{2005}'
    ||| c == '\u{2006}'
    ||| c == '\u{2007}'
    ||| c == '\u{2008}'
    ||| c == '\u{2009}'
    ||| c == '\u{200A}'
    ||| c == '\u{2028}'
    ||| c == '\u{2029}'
    ||| c == '\u{202F}'
    ||| c == '\u{205F}'
    ||| c == '\u{3000}'
}

/// Executable test for `is_space`.
pub fn is_space_char(c: char) -> (b: bool)
    ensures
        b == is_space(c),
{
    c == ' ' || c == '\t' || c == '\n' || c == '\u{000B}' || c == '\u{000C}' || c == '\r'
        || c == '\u{0085}' || c == '\u{00A0}' || c == '\u{1680}' || c == '\u{2000}'
        || c == '\u{2001}' || c == '\u{2002}' || c == '\u{2003}' || c == '\u{2004}'
        || c == '\u{2005}' || c == '\u{2006}' || c == '\u{2007}' || c == '\u{2008}'
        || c == '\u{2009}' || c == '\u{200A}' || c == '\u{2028}' || c == '\u{2029}'
        || c == '\u{202F}' || c == '\u{205F}' || c == '\u{3000}'
}

/// The words of `s` read left to right, continuing a scan in which `cur`
/// is the (possibly empty) word begun so far and `acc` holds the words
/// already finished.
pub open spec fn words_acc(s: Seq<char>, cur: Seq<char>, acc: Seq<Seq<char>>) -> Seq<Seq<char>>
    decreases s.len(),
{
    if s.len() == 0 {
        if cur.len() == 0 {
            acc
        } else {
            acc.push(cur)
        }
    } else if is_space(s[0]) {
        if cur.len() == 0 {
            words_acc(s.drop_first(), cur, acc)
        } else {
            words_acc(s.drop_first(), Seq::empty(), acc.push(cur))
        }
    } else {
        words_acc(s.drop_first(), cur.push(s[0]), acc)
    }
}

/// The whitespace-delimited words of `s`, in their original order.
pub open spec fn words_of(s: Seq<char>) -> Seq<Seq<char>> {
    words_acc(s, Seq::empty(), Seq::empty())
}

/// Every word of `ws` has at least one character.
pub open spec fn all_nonempty(ws: Seq<Seq<char>>) -> bool {
    forall|i: int| 0 <= i < ws.len() ==> ws[i].len() > 0
}

proof fn lemma_words_acc_nonempty(s: Seq<char>, cur: Seq<char>, acc: Seq<Seq<char>>)
    requires
        all_nonempty(acc),
    ensures
        all_nonempty(words_acc(s, cur, acc)),
    decreases s.len(),
{
    if s.len() == 0 {
        if cur.len() > 0 {
            assert forall|i: int| 0 <= i < acc.push(cur).len() implies acc.push(cur)[i].len() > 0 by {
                if i == acc.len() {
                    assert(acc.push(cur)[i] == cur);
                }
            }
            assert(words_acc(s, cur, acc) == acc.push(cur));
        } else {
            assert(words_acc(s, cur, acc) == acc);
        }
    } else if is_space(s[0]) {
        if cur.len() == 0 {
            lemma_words_acc_nonempty(s.drop_first(), cur, acc);
        } else {
            assert forall|i: int| 0 <= i < acc.push(cur).len() implies acc.push(cur)[i].len() > 0 by {
                if i == acc.len() {
                    assert(acc.push(cur)[i] == cur);
                }
            }
            lemma_words_acc_nonempty(s.drop_first(), Seq::empty(), acc.push(cur));
            assert(words_acc(s, cur, acc) == words_acc(s.drop_first(), Seq::empty(), acc.push(cur)));
        }
    } else {
        lemma_words_acc_nonempty(s.drop_first(), cur.push(s[0]), acc);
        assert(words_acc(s, cur, acc) == words_acc(s.drop_first(), cur.push(s[0]), acc));
    }
}

/// Splitting never yields an empty word.
pub proof fn lemma_words_nonempty(s: Seq<char>)
    ensures
        all_nonempty(words_of(s)),
{
    lemma_words_acc_nonempty(s, Seq::empty(), Seq::empty());
}

/// Splits a line into its whitespace-delimited words.
pub fn split_words(line: &str) -> (ws: Vec<String>)
    ensures
        ws.deep_view() == words_of(line@),
{
    let n = line.unicode_len();
    let mut ws: Vec<String> = Vec::new();
    let mut i: usize = 0;
    let mut start: usize = 0;
    proof {
        assert(line@.subrange(0, n as int) =~= line@);
        assert(line@.subrange(0, 0) =~= Seq::<char>::empty());
        assert(ws.deep_view() =~= Seq::<Seq<char>>::empty());
    }
    while i < n
        invariant
            start <= i <= n,
            n == line@.len(),
            words_acc(
                line@.subrange(i as int, n as int),
                line@.subrange(start as int, i as int),
                ws.deep_view(),
            ) == words_of(line@),
        decreases n - i,
    {
        let ghost suffix = line@.subrange(i as int, n as int);
        let ghost cur = line@.subrange(start as int, i as int);
        proof {
            assert(suffix.len() > 0);
            assert(suffix[0] == line@[i as int]);
            assert(suffix.drop_first() =~= line@.subrange(i + 1, n as int));
        }
        let ghost pre = ws.deep_view();
        let c = line.get_char(i);
        if is_space_char(c) {
            if start < i {
                proof {
                    assert(cur.len() > 0);
                    assert(words_acc(suffix, cur, pre) == words_acc(
                        suffix.drop_first(),
                        Seq::<char>::empty(),
                        pre.push(cur),
                    ));
                }
                let w = line.substring_char(start, i).to_owned();
                ws.push(w);
                proof {
                    assert(ws.deep_view() =~= pre.push(cur));
                }
            } else {
                proof {
                    assert(cur =~= Seq::<char>::empty());
                    assert(words_acc(suffix, cur, pre) == words_acc(suffix.drop_first(), cur, pre));
                }
            }
            i += 1;
            start = i;
            proof {
                assert(line@.subrange(start as int, i as int) =~= Seq::<char>::empty());
            }
        } else {
            proof {
                assert(words_acc(suffix, cur, pre) == words_acc(
                    suffix.drop_first(),
                    cur.push(suffix[0]),
                    pre,
                ));
            }
            i += 1;
            proof {
                assert(line@.subrange(start as int, i as int) =~= cur.push(line@[i - 1]));
            }
        }
    }
    let ghost cur = line@.subrange(start as int, i as int);
    proof {
        assert(line@.subrange(i as int, n as int) =~= Seq::<char>::empty());
    }
    if start < i {
        let w = line.substring_char(start, i).to_owned();
        let ghost pre = ws.deep_view();
        ws.push(w);
        proof {
            assert(ws.deep_view() =~= pre.push(cur));
        }
    }
    ws
}

/// Copies the words of `v` with indices in `from .. to` into a fresh
/// vector, in order.
pub fn clone_range(v: &Vec<String>, from: usize, to: usize) -> (r: Vec<String>)
    requires
        from <= to <= v@.len(),
    ensures
        r.deep_view() == v.deep_view().subrange(from as int, to as int),
{
    let mut r: Vec<String> = Vec::new();
    proof {
        assert(r.deep_view() =~= v.deep_view().subrange(from as int, from as int));
    }
    let mut i: usize = from;
    while i < to
        invariant
            from <= i <= to <= v@.len(),
            v.deep_view().len() == v@.len(),
            r.deep_view() == v.deep_view().subrange(from as int, i as int),
        decreases to - i,
    {
        let ghost pre = r.deep_view();
        r.push(v[i].clone());
        proof {
            assert(v.deep_view()[i as int] == v@[i as int]@);
            assert(r.deep_view() =~= pre.push(v.deep_view()[i as int]));
            assert(r.deep_view() =~= v.deep_view().subrange(from as int, i + 1));
        }
        i += 1;
    }
    r
}

/// Character-for-character comparison of two string slices.
pub fn str_eq(a: &str, b: &str) -> (r: bool)
    ensures
        r == (a@ == b@),
{
    let na = a.unicode_len();
    let nb = b.unicode_len();
    if na != nb {
        return false;
    }
    let mut i: usize = 0;
    while i < na
        invariant
            i <= na,
            na == a@.len(),
            na == b@.len(),
            forall|k: int| 0 <= k < i ==> a@[k] == b@[k],
        decreases na - i,
    {
        if a.get_char(i) != b.get_char(i) {
            return false;
        }
        i += 1;
    }
    proof {
        assert(a@ =~= b@);
    }
    true
}

/// The pipe operator `|`.
pub open spec fn is_pipe_word(w: Seq<char>) -> bool {
    w.len() == 1 && w[0] == '|'
}

/// The truncating redirect operator `>`.
pub open spec fn is_truncate_word(w: Seq<char>) -> bool {
    w.len() == 1 && w[0] == '>'
}

/// The appending redirect operator `>>`.
pub open spec fn is_append_word(w: Seq<char>) -> bool {
    w.len() == 2 && w[0] == '>' && w[1] == '>'
}

/// Either redirect operator.
pub open spec fn is_redirect_word(w: Seq<char>) -> bool {
    is_truncate_word(w) || is_append_word(w)
}

/// Executable test for `is_pipe_word`.
pub fn word_is_pipe(w: &str) -> (b: bool)
    ensures
        b == is_pipe_word(w@),
{
    w.unicode_len() == 1 && w.get_char(0) == '|'
}

/// Executable test for `is_truncate_word`.
pub fn word_is_truncate(w: &str) -> (b: bool)
    ensures
        b == is_truncate_word(w@),
{
    w.unicode_len() == 1 && w.get_char(0) == '>'
}

/// Executable test for `is_append_word`.
pub fn word_is_append(w: &str) -> (b: bool)
    ensures
        b == is_append_word(w@),
{
    w.unicode_len() == 2 && w.get_char(0) == '>' && w.get_char(1) == '>'
}

/// Executable test for `is_redirect_word`.
pub fn word_is_redirect(w: &str) -> (b: bool)
    ensures
        b == is_redirect_word(w@),
{
    word_is_truncate(w) || word_is_append(w)
}

} // verus!
