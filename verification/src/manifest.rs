//! The manifest: a newline-delimited list of relative file paths.  Parsing
//! splits the response body on line breaks, trims each line, drops blank
//! lines, and keeps the remaining order — download order is file-list order.
//! Also builds the URL of one remote file from the repository base URL.
use vstd::prelude::*;
use vstd::string::StrSliceExecFns;
use vstd::string::StringExecFns;

use crate::text::trim_spec;
use crate::text::trim_str;

verus! {

/// `s` split at every newline character; always at least one (possibly
/// empty) line.
pub open spec fn split_lines_spec(s: Seq<char>) -> Seq<Seq<char>>
    decreases s.len(),
{
    if s.len() == 0 {
        seq![Seq::empty()]
    } else if s[0] == '\n' {
        seq![Seq::<char>::empty()] + split_lines_spec(s.skip(1))
    } else {
        let rest = split_lines_spec(s.skip(1));
        seq![seq![s[0]] + rest[0]] + rest.skip(1)
    }
}

/// Trim each line and drop the blank ones, keeping the order.
pub open spec fn keep_lines_spec(lines: Seq<Seq<char>>) -> Seq<Seq<char>>
    decreases lines.len(),
{
    if lines.len() == 0 {
        Seq::empty()
    } else {
        let t = trim_spec(lines[0]);
        (if t.len() > 0 {
            seq![t]
        } else {
            Seq::empty()
        }) + keep_lines_spec(lines.skip(1))
    }
}

/// The manifest entries carried by a response body: its lines, trimmed, with
/// blank lines dropped, in order.
pub open spec fn manifest_spec(s: Seq<char>) -> Seq<Seq<char>> {
    keep_lines_spec(split_lines_spec(s))
}

/// Where the first `i` characters of `s` hold no newline and `s[i]` is one
/// (or `i` is the end), the first line of `s` is `s.take(i)`.
proof fn lemma_split_lines_head(s: Seq<char>, i: int)
    requires
        0 <= i <= s.len(),
        forall|k: int| 0 <= k < i ==> s[k] != '\n',
        i == s.len() || s[i] == '\n',
    ensures
        i < s.len() ==> split_lines_spec(s) =~= seq![s.take(i)] + split_lines_spec(
            s.skip(i + 1),
        ),
        i == s.len() ==> split_lines_spec(s) =~= seq![s],
    decreases i,
{
    if i == 0 {
        if s.len() > 0 {
            assert(s.take(0) =~= Seq::<char>::empty());
        } else {
            assert(s =~= Seq::<char>::empty());
            assert(split_lines_spec(s) == seq![Seq::<char>::empty()]);
        }
    } else {
        assert(s[0] != '\n');
        lemma_split_lines_head(s.skip(1), i - 1);
        let rest = split_lines_spec(s.skip(1));
        if i < s.len() {
            assert(s.skip(1).skip(i) =~= s.skip(i + 1));
            assert(rest =~= seq![s.skip(1).take(i - 1)] + split_lines_spec(s.skip(1).skip(i)));
            assert(seq![s[0]] + s.skip(1).take(i - 1) =~= s.take(i));
            assert((seq![seq![s[0]] + rest[0]] + rest.skip(1))[0] == s.take(i));
            assert(rest.skip(1) =~= split_lines_spec(s.skip(i + 1)));
        } else {
            assert(rest =~= seq![s.skip(1)]);
            assert(seq![s[0]] + s.skip(1) =~= s);
            assert(rest.skip(1) =~= Seq::<Seq<char>>::empty());
        }
    }
}

/// `keep_lines_spec` distributes over prepending one line.
proof fn lemma_keep_lines_cons(line: Seq<char>, rest: Seq<Seq<char>>)
    ensures
        keep_lines_spec(seq![line] + rest) =~= (if trim_spec(line).len() > 0 {
            seq![trim_spec(line)]
        } else {
            Seq::<Seq<char>>::empty()
        }) + keep_lines_spec(rest),
{
    let whole = seq![line] + rest;
    assert(whole.len() > 0);
    assert(whole[0] == line);
    assert(whole.skip(1) =~= rest);
}

/// Parse a manifest body into its entries: one per non-blank line, trimmed,
/// in the order the body lists them.
pub fn parse_file_list(body: &str) -> (r: Vec<String>)
    ensures
        r@.len() == manifest_spec(body@).len(),
        forall|i: int| 0 <= i < r@.len() ==> r@[i]@ == manifest_spec(body@)[i],
{
    let n = body.unicode_len();
    let mut r: Vec<String> = Vec::new();
    let mut pos: usize = 0;
    let mut line_start: usize = 0;
    proof {
        assert(r@.map_values(|s: String| s@) =~= Seq::<Seq<char>>::empty());
        assert(body@.skip(0) =~= body@);
    }
    while pos < n
        invariant
            0 <= line_start <= pos <= n,
            n == body@.len(),
            forall|k: int| line_start <= k < pos ==> body@[k] != '\n',
            manifest_spec(body@) =~= {
                let done = r@.map_values(|s: String| s@);
                done + manifest_spec(body@.skip(line_start as int))
            },
        decreases n - pos,
    {
        let c = body.get_char(pos);
        if c == '\n' {
            let line = body.substring_char(line_start, pos);
            proof {
                assert(line@ =~= body@.subrange(line_start as int, pos as int));
                let tail = body@.skip(line_start as int);
                assert(tail.take(pos - line_start) =~= line@);
                assert(tail.skip(pos - line_start + 1) =~= body@.skip(pos + 1));
                lemma_split_lines_head(tail, pos - line_start);
                lemma_keep_lines_cons(line@, split_lines_spec(body@.skip(pos + 1)));
            }
            let t = trim_str(line);
            if t.as_str().unicode_len() > 0 {
                let ghost old_r = r@;
                r.push(t);
                proof {
                    assert(r@.map_values(|s: String| s@) =~= old_r.map_values(|s: String| s@)
                        + seq![trim_spec(line@)]);
                }
            }
            line_start = pos + 1;
        }
        pos = pos + 1;
    }
    // The final (unterminated) line.
    let line = body.substring_char(line_start, n);
    proof {
        let tail = body@.skip(line_start as int);
        assert(line@ =~= body@.subrange(line_start as int, n as int));
        assert(tail =~= line@);
        lemma_split_lines_head(tail, tail.len() as int);
        assert(seq![tail].skip(1) =~= Seq::<Seq<char>>::empty());
        assert(keep_lines_spec(Seq::<Seq<char>>::empty()) =~= Seq::<Seq<char>>::empty());
        assert(seq![tail][0] == tail);
        assert(keep_lines_spec(seq![tail]) =~= (if trim_spec(tail).len() > 0 {
            seq![trim_spec(tail)]
        } else {
            Seq::<Seq<char>>::empty()
        }));
        assert(manifest_spec(tail) == keep_lines_spec(seq![tail]));
    }
    let t = trim_str(line);
    if t.as_str().unicode_len() > 0 {
        let ghost old_r = r@;
        r.push(t);
        proof {
            assert(r@.map_values(|s: String| s@) =~= old_r.map_values(|s: String| s@) + seq![
                trim_spec(line@),
            ]);
            assert(manifest_spec(body@) =~= r@.map_values(|s: String| s@));
        }
    } else {
        proof {
            assert(r@.map_values(|s: String| s@) + Seq::<Seq<char>>::empty() =~= r@.map_values(
                |s: String| s@,
            ));
            assert(manifest_spec(body@) =~= r@.map_values(|s: String| s@));
        }
    }
    r
}

/// The repository base URL normalized to end in a separator: a base that
/// already ends in `/` is kept, any other gets a trailing `\`.
pub open spec fn normalized_repo_spec(base: Seq<char>) -> Seq<char> {
    if base.len() > 0 && base[base.len() - 1] == '/' {
        base
    } else {
        base + seq!['\\']
    }
}

/// The URL of one remote file: the normalized repository base followed by
/// the manifest entry.
pub fn build_file_url(repo_url: &str, entry: &str) -> (r: String)
    ensures
        r@ == normalized_repo_spec(repo_url@) + entry@,
{
    let n = repo_url.unicode_len();
    let mut r = repo_url.to_owned();
    if n == 0 || repo_url.get_char(n - 1) != '/' {
        proof {
            reveal_strlit("\\");
        }
        r.append("\\");
        proof {
            assert(r@ =~= normalized_repo_spec(repo_url@));
        }
    }
    r.append(entry);
    r
}

} // verus!
