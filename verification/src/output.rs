//! Classification of the combined stdout/stderr capture of one exec attempt
//! into the response body handed back to the client.
//!
//! If the sandboxed program produced any stderr, the result is its stderr
//! lines — blank lines dropped — joined under an `Error:` heading; an empty
//! capture becomes a fixed sentinel; otherwise the raw stdout is returned.

use vstd::prelude::*;
use crate::strutil::{char_is_whitespace, push_char, spec_is_unicode_space};

verus! {

/// The line holds at least one non-whitespace character — whitespace in the
/// Unicode sense the trimming of a line uses — so it survives the blank-line
/// filter.
pub open spec fn spec_has_visible(l: Seq<char>) -> bool {
    exists|i: int| 0 <= i < l.len() && !spec_is_unicode_space(#[trigger] l[i])
}

/// One trailing carriage return removed, as a `\r\n` line ending leaves one.
pub open spec fn spec_strip_cr(l: Seq<char>) -> Seq<char> {
    if l.len() > 0 && l.last() == '\r' {
        l.drop_last()
    } else {
        l
    }
}

/// The character sequences of a list of strings.
pub open spec fn views_of(v: Seq<String>) -> Seq<Seq<char>> {
    v.map_values(|l: String| l@)
}

/// Every line with its trailing carriage return stripped.
pub open spec fn strip_all(ls: Seq<Seq<char>>) -> Seq<Seq<char>> {
    ls.map_values(|l: Seq<char>| spec_strip_cr(l))
}

/// The pieces of `s` split at every newline; one piece more than there are
/// newlines, so never empty.
pub open spec fn spec_split_nl(s: Seq<char>) -> Seq<Seq<char>>
    decreases s.len(),
{
    if s.len() == 0 {
        seq![Seq::empty()]
    } else {
        let rest = spec_split_nl(s.drop_last());
        if s.last() == '\n' {
            rest.push(Seq::empty())
        } else {
            rest.update(rest.len() - 1, rest.last().push(s.last()))
        }
    }
}

/// The lines of `s`: split at newlines, a trailing carriage return stripped
/// from each line, and no final empty line when `s` ends with a newline.
pub open spec fn spec_lines(s: Seq<char>) -> Seq<Seq<char>> {
    if s.len() == 0 {
        Seq::empty()
    } else {
        let pieces = spec_split_nl(s);
        if pieces.last().len() == 0 {
            strip_all(pieces.drop_last())
        } else {
            strip_all(pieces)
        }
    }
}

/// Only the lines holding a visible character, in order.
pub open spec fn spec_visible_lines(lines: Seq<Seq<char>>) -> Seq<Seq<char>>
    decreases lines.len(),
{
    if lines.len() == 0 {
        Seq::empty()
    } else {
        let rest = spec_visible_lines(lines.drop_last());
        if spec_has_visible(lines.last()) {
            rest.push(lines.last())
        } else {
            rest
        }
    }
}

/// The lines joined with single newlines.
pub open spec fn spec_join_nl(lines: Seq<Seq<char>>) -> Seq<char>
    decreases lines.len(),
{
    if lines.len() == 0 {
        Seq::empty()
    } else if lines.len() == 1 {
        lines[0]
    } else {
        spec_join_nl(lines.drop_last()) + seq!['\n'] + lines.last()
    }
}

/// The formatted error body: the visible stderr lines joined with newlines.
pub open spec fn spec_error_body(stderr: Seq<char>) -> Seq<char> {
    spec_join_nl(spec_visible_lines(spec_lines(stderr)))
}

/// What `classify_output` returns for a given capture.
pub open spec fn spec_classified(stdout: Seq<char>, stderr: Seq<char>) -> Seq<char> {
    if stderr.len() > 0 {
        "Error:\n"@ + spec_error_body(stderr)
    } else if stdout.len() == 0 {
        "Code executed successfully with no output."@
    } else {
        stdout
    }
}

/// Unfolds `spec_split_nl` by one character: extending the input by `s[i]`
/// either opens a fresh piece (on a newline) or extends the last piece.
proof fn lemma_split_nl_step(s: Seq<char>, i: int)
    requires
        0 <= i < s.len(),
    ensures
        s[i] == '\n' ==> spec_split_nl(s.take(i + 1)) == spec_split_nl(s.take(i)).push(
            Seq::empty(),
        ),
        s[i] != '\n' ==> spec_split_nl(s.take(i + 1)) == spec_split_nl(s.take(i)).update(
            spec_split_nl(s.take(i)).len() - 1,
            spec_split_nl(s.take(i)).last().push(s[i]),
        ),
{
    assert(s.take(i + 1).drop_last() =~= s.take(i));
    assert(s.take(i + 1).last() == s[i]);
}

/// `spec_split_nl` never yields an empty piece list.
proof fn lemma_split_nl_nonempty(s: Seq<char>)
    ensures
        spec_split_nl(s).len() > 0,
    decreases s.len(),
{
    if s.len() > 0 {
        lemma_split_nl_nonempty(s.drop_last());
    }
}

/// Appending a string whose view is the stripped form of `l` extends the
/// stripped-lines correspondence by one line.
proof fn lemma_strip_correspondence_push(
    oldv: Seq<String>,
    newv: Seq<String>,
    fin: String,
    lines: Seq<Seq<char>>,
    l: Seq<char>,
)
    requires
        newv == oldv.push(fin),
        views_of(oldv) == strip_all(lines),
        fin@ == spec_strip_cr(l),
    ensures
        views_of(newv) == strip_all(lines.push(l)),
{
    assert(views_of(oldv).len() == oldv.len());
    assert(strip_all(lines).len() == lines.len());
    assert(views_of(newv) =~= strip_all(lines.push(l))) by {
        assert forall|k: int| 0 <= k < newv.len() implies views_of(newv)[k] == strip_all(
            lines.push(l),
        )[k] by {
            if k < oldv.len() {
                assert(newv[k] == oldv[k]);
                assert(views_of(newv)[k] == newv[k]@);
                assert(views_of(oldv)[k] == oldv[k]@);
                assert(strip_all(lines)[k] == spec_strip_cr(lines[k]));
                assert(lines.push(l)[k] == lines[k]);
                assert(strip_all(lines.push(l))[k] == spec_strip_cr(lines.push(l)[k]));
            } else {
                assert(newv[k] == fin);
                assert(lines.push(l)[k] == l);
                assert(views_of(newv)[k] == fin@);
                assert(strip_all(lines.push(l))[k] == spec_strip_cr(l));
            }
        }
    }
}

/// Unfolds `spec_visible_lines` by one line.
proof fn lemma_visible_step(ls: Seq<Seq<char>>, j: int)
    requires
        0 <= j < ls.len(),
    ensures
        spec_has_visible(ls[j]) ==> spec_visible_lines(ls.take(j + 1)) == spec_visible_lines(
            ls.take(j),
        ).push(ls[j]),
        !spec_has_visible(ls[j]) ==> spec_visible_lines(ls.take(j + 1)) == spec_visible_lines(
            ls.take(j),
        ),
{
    assert(ls.take(j + 1).drop_last() =~= ls.take(j));
    assert(ls.take(j + 1).last() == ls[j]);
}

/// Joining one more line appends a newline separator unless nothing was
/// joined yet.
proof fn lemma_join_push(x: Seq<Seq<char>>, l: Seq<char>)
    ensures
        x.len() == 0 ==> spec_join_nl(x.push(l)) == l,
        x.len() > 0 ==> spec_join_nl(x.push(l)) == spec_join_nl(x) + seq!['\n'] + l,
{
    assert(x.push(l).drop_last() =~= x);
    assert(x.push(l).last() == l);
    if x.len() == 0 {
        assert(x.push(l)[0] == l);
    }
}

/// The line holds a non-whitespace character.
fn has_visible(l: &str) -> (r: bool)
    ensures
        r == spec_has_visible(l@),
{
    let len = l.unicode_len();
    let mut i: usize = 0;
    while i < len
        invariant
            len == l@.len(),
            i <= len,
            forall|k: int| 0 <= k < i ==> spec_is_unicode_space(#[trigger] l@[k]),
        decreases len - i,
    {
        let c = l.get_char(i);
        if !char_is_whitespace(c) {
            return true;
        }
        i = i + 1;
    }
    false
}

/// Removes one trailing carriage return, if present.
fn strip_trailing_cr(l: String) -> (r: String)
    ensures
        r@ == spec_strip_cr(l@),
{
    let len = l.as_str().unicode_len();
    if len > 0 && l.as_str().get_char(len - 1) == '\r' {
        let r = String::from_str(l.as_str().substring_char(0, len - 1));
        proof {
            assert(l@.subrange(0, l@.len() - 1) =~= l@.drop_last());
        }
        r
    } else {
        l
    }
}

/// Splits `s` into its lines, stripping one trailing carriage return from
/// each and dropping the final empty line of a newline-terminated string.
fn split_lines(s: &str) -> (v: Vec<String>)
    ensures
        views_of(v@) == spec_lines(s@),
{
    let len = s.unicode_len();
    let mut v: Vec<String> = Vec::new();
    let mut cur = String::new();
    let mut i: usize = 0;
    proof {
        assert(views_of(v@) =~= strip_all(spec_split_nl(s@.take(0)).drop_last()));
    }
    while i < len
        invariant
            len == s@.len(),
            i <= len,
            views_of(v@) == strip_all(spec_split_nl(s@.take(i as int)).drop_last()),
            cur@ == spec_split_nl(s@.take(i as int)).last(),
        decreases len - i,
    {
        let c = s.get_char(i);
        proof {
            lemma_split_nl_step(s@, i as int);
            lemma_split_nl_nonempty(s@.take(i as int));
        }
        if c == '\n' {
            let finished = strip_trailing_cr(cur);
            let ghost oldv = v@;
            v.push(finished);
            cur = String::new();
            proof {
                let prev = spec_split_nl(s@.take(i as int));
                let pieces = spec_split_nl(s@.take(i as int + 1));
                assert(pieces == prev.push(Seq::empty()));
                assert(pieces.drop_last() =~= prev);
                assert(prev.drop_last().push(prev.last()) =~= prev);
                lemma_strip_correspondence_push(oldv, v@, finished, prev.drop_last(), prev.last());
                assert(views_of(v@) == strip_all(prev));
            }
        } else {
            push_char(&mut cur, c);
            proof {
                let prev = spec_split_nl(s@.take(i as int));
                let pieces = spec_split_nl(s@.take(i as int + 1));
                assert(pieces == prev.update(prev.len() - 1, prev.last().push(s@[i as int])));
                assert(pieces.drop_last() =~= prev.drop_last());
                assert(pieces.last() == prev.last().push(s@[i as int]));
                assert(strip_all(pieces.drop_last()) == strip_all(prev.drop_last()));
            }
        }
        i = i + 1;
    }
    proof {
        assert(s@.take(len as int) =~= s@);
    }
    if len > 0 && s.get_char(len - 1) != '\n' {
        let finished = strip_trailing_cr(cur);
        let ghost oldv = v@;
        v.push(finished);
        proof {
            let pieces = spec_split_nl(s@);
            lemma_split_nl_step(s@, len - 1);
            lemma_split_nl_nonempty(s@.take(len - 1));
            assert(pieces.last().len() > 0);
            assert(pieces.drop_last().push(pieces.last()) =~= pieces);
            lemma_strip_correspondence_push(oldv, v@, finished, pieces.drop_last(), pieces.last());
        }
    } else {
        proof {
            if len > 0 {
                let pieces = spec_split_nl(s@);
                lemma_split_nl_step(s@, len - 1);
                assert(pieces.last().len() == 0);
            }
        }
    }
    v
}

/// Joins the visible lines with newlines, dropping blank ones.
fn join_visible(v: &Vec<String>) -> (r: String)
    ensures
        r@ == spec_join_nl(spec_visible_lines(views_of(v@))),
{
    let mut out = String::new();
    let mut any: bool = false;
    let mut j: usize = 0;
    proof {
        assert(views_of(v@).take(0) =~= Seq::<Seq<char>>::empty());
    }
    while j < v.len()
        invariant
            j <= v@.len(),
            any == (spec_visible_lines(views_of(v@).take(j as int)).len() > 0),
            out@ == spec_join_nl(spec_visible_lines(views_of(v@).take(j as int))),
        decreases v@.len() - j,
    {
        let line = &v[j];
        proof {
            let ls = views_of(v@);
            lemma_visible_step(ls, j as int);
            lemma_join_push(spec_visible_lines(ls.take(j as int)), ls[j as int]);
            assert(line@ == ls[j as int]);
        }
        if has_visible(line.as_str()) {
            if any {
                push_char(&mut out, '\n');
            }
            out.append(line.as_str());
            any = true;
        }
        j = j + 1;
    }
    proof {
        assert(views_of(v@).take(v@.len() as int) =~= views_of(v@));
    }
    out
}

/// Classifies the capture of one exec attempt, as the response body.
///
/// Any stderr makes the result an `Error:` report of the visible stderr
/// lines; an empty stdout with no stderr becomes a fixed success sentinel;
/// otherwise the raw stdout is handed back.
pub fn classify_output(stdout: &str, stderr: &str) -> (r: String)
    ensures
        r@ == spec_classified(stdout@, stderr@),
{
    if !stderr.is_empty() {
        let lines = split_lines(stderr);
        let body = join_visible(&lines);
        let mut out = String::from_str("Error:\n");
        out.append(body.as_str());
        out
    } else if stdout.is_empty() {
        String::from_str("Code executed successfully with no output.")
    } else {
        String::from_str(stdout)
    }
}

} // verus!
