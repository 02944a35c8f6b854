//! Filename handling for multi-volume archives: rewriting a manifest entry
//! name (`"<base>--n<digits>.globby"`) into the canonical local segment name
//! (`"<base>.archive.<NNN>"` with a zero-padded three-digit index), grouping
//! segments by base name, and recognizing a group's first segment.
use vstd::prelude::*;
use vstd::string::StrSliceExecFns;
use vstd::string::StringExecFns;

use crate::text::dec_spec;
use crate::text::digits_val;
use crate::text::find_substring;
use crate::text::is_digit;
use crate::text::is_digit_char;
use crate::text::lemma_split_first_at;
use crate::text::lemma_split_first_none;
use crate::text::parse_u64_digits;
use crate::text::split_first_spec;

verus! {

/// The suffix that marks a downloadable volume in a manifest entry.
pub open spec fn globby_suffix() -> Seq<char> {
    seq!['.', 'g', 'l', 'o', 'b', 'b', 'y']
}

/// The marker that separates an archive's base name from its segment index
/// in a canonical local segment name.
pub open spec fn archive_marker() -> Seq<char> {
    seq!['.', 'a', 'r', 'c', 'h', 'i', 'v', 'e', '.']
}

/// The length of the longest all-digit suffix of `s`.
pub open spec fn digit_run_len(s: Seq<char>) -> int
    decreases s.len(),
{
    if s.len() > 0 && is_digit(s[s.len() - 1]) {
        1 + digit_run_len(s.take(s.len() - 1))
    } else {
        0
    }
}

proof fn lemma_digit_run_at(s: Seq<char>, r: int)
    requires
        0 <= r <= s.len(),
        forall|k: int| s.len() - r <= k < s.len() ==> is_digit(s[k]),
        r == s.len() || !is_digit(s[s.len() - r - 1]),
    ensures
        digit_run_len(s) == r,
    decreases r,
{
    if r == 0 {
    } else {
        assert(is_digit(s[s.len() - 1]));
        lemma_digit_run_at(s.take(s.len() - 1), r - 1);
    }
}

/// The zero-padded three-digit rendering of a segment index; indexes of four
/// or more digits keep all their digits.
pub open spec fn pad3_spec(n: u64) -> Seq<char> {
    if n < 10 {
        seq!['0', '0'] + dec_spec(n as nat)
    } else if n < 100 {
        seq!['0'] + dec_spec(n as nat)
    } else {
        dec_spec(n as nat)
    }
}

/// What transforming a manifest entry name yields.  A name matches when it
/// ends in `".globby"` preceded by one or more digits preceded by `"--n"`;
/// the matching tail is then replaced by `".archive."` and the zero-padded digit
/// value.  `None` when the name does not match (or the index is too large to
/// represent).
pub open spec fn transform_spec(name: Seq<char>) -> Option<Seq<char>> {
    if name.len() < 7 || name.skip(name.len() - 7) != globby_suffix() {
        None
    } else {
        let body = name.take(name.len() - 7);
        let run = digit_run_len(body);
        if run == 0 {
            None
        } else if body.len() - run < 3 {
            None
        } else if body.subrange(body.len() - run - 3, body.len() - run) != seq!['-', '-', 'n'] {
            None
        } else if digits_val(body.skip(body.len() - run)) > u64::MAX {
            None
        } else {
            Some(
                body.take(body.len() - run - 3) + archive_marker() + pad3_spec(
                    digits_val(body.skip(body.len() - run)) as u64,
                ),
            )
        }
    }
}

fn pad3(n: u64) -> (r: String)
    ensures
        r@ == pad3_spec(n),
{
    proof {
        reveal_strlit("00");
        reveal_strlit("0");
        reveal_strlit("");
    }
    let mut r: String = if n < 10 {
        "00".to_owned()
    } else if n < 100 {
        "0".to_owned()
    } else {
        "".to_owned()
    };
    let num = crate::text::u64_to_string(n);
    r.append(num.as_str());
    proof {
        assert(r@ =~= pad3_spec(n));
    }
    r
}

/// Rewrite a manifest entry name into the canonical local segment name:
/// `"<base>--n<digits>.globby"` becomes `"<base>.archive.<index>"` with the
/// zero-padded to at least three digits.
pub fn transform_filename(filename: &str) -> (r: Option<String>)
    ensures
        match r {
            Some(out) => transform_spec(filename@) == Some(out@),
            None => transform_spec(filename@) is None,
        },
{
    let n = filename.unicode_len();
    if n < 7 {
        return None;
    }
    // Check the ".globby" suffix character by character.
    let suffix: [char; 7] = ['.', 'g', 'l', 'o', 'b', 'b', 'y'];
    let mut k: usize = 0;
    while k < 7
        invariant
            0 <= k <= 7,
            7 <= n == filename@.len(),
            suffix@ =~= globby_suffix(),
            forall|t: int| 0 <= t < k ==> filename@[n - 7 + t] == globby_suffix()[t],
        decreases 7 - k,
    {
        if filename.get_char(n - 7 + k) != suffix[k] {
            proof {
                assert(filename@.skip(n - 7)[k as int] != globby_suffix()[k as int]);
            }
            return None;
        }
        k = k + 1;
    }
    proof {
        assert(filename@.skip(n - 7) =~= globby_suffix());
    }
    let body_len = n - 7;
    let ghost body = filename@.take(body_len as int);
    // Count the digit run at the end of the body.
    let mut run: usize = 0;
    while run < body_len && is_digit_char(filename.get_char(body_len - 1 - run))
        invariant
            0 <= run <= body_len,
            body_len == n - 7,
            n == filename@.len(),
            body == filename@.take(body_len as int),
            filename@.skip(n - 7) == globby_suffix(),
            forall|t: int| body_len - run <= t < body_len ==> is_digit(filename@[t]),
        decreases body_len - run,
    {
        run = run + 1;
    }
    proof {
        assert(forall|t: int| 0 <= t < body_len ==> body[t] == filename@[t]);
        lemma_digit_run_at(body, run as int);
    }
    if run == 0 {
        return None;
    }
    if body_len - run < 3 {
        return None;
    }
    // Check the "--n" marker just before the digits.
    let marker: [char; 3] = ['-', '-', 'n'];
    let mut k2: usize = 0;
    while k2 < 3
        invariant
            0 <= k2 <= 3,
            3 <= body_len - run,
            0 < run <= body_len == n - 7,
            n == filename@.len(),
            body == filename@.take(body_len as int),
            filename@.skip(n - 7) == globby_suffix(),
            digit_run_len(body) == run,
            forall|t: int| body_len - run <= t < body_len ==> is_digit(filename@[t]),
            marker@ =~= seq!['-', '-', 'n'],
            forall|t: int| 0 <= t < k2 ==> filename@[body_len - run - 3 + t] == seq![
                '-',
                '-',
                'n',
            ][t],
        decreases 3 - k2,
    {
        if filename.get_char(body_len - run - 3 + k2) != marker[k2] {
            proof {
                assert(body.subrange(
                    body.len() - run - 3,
                    body.len() - run,
                )[k2 as int] != seq!['-', '-', 'n'][k2 as int]);
            }
            return None;
        }
        k2 = k2 + 1;
    }
    proof {
        assert(body.subrange(body.len() - run, body.len() as int) =~= filename@.subrange(
            body_len - run,
            body_len as int,
        ));
        assert(body.subrange(body.len() - run - 3, body.len() - run) =~= seq!['-', '-', 'n']);
        assert(body.skip(body.len() - run) == body.subrange(body.len() - run, body.len() as int));
    }
    let digits = filename.substring_char(body_len - run, body_len);
    match parse_u64_digits(digits) {
        None => {
            proof {
                assert(digits@ == body.skip(body.len() - run));
                assert(forall|t: int|
                    0 <= t < digits@.len() ==> is_digit(#[trigger] digits@[t]));
            }
            None
        },
        Some(v) => {
            let mut out = filename.substring_char(0, body_len - run - 3).to_owned();
            proof {
                reveal_strlit(".archive.");
                assert(".archive."@ =~= archive_marker());
            }
            out.append(".archive.");
            let padded = pad3(v);
            out.append(padded.as_str());
            proof {
                assert(out@ =~= body.take(body.len() - run - 3) + archive_marker() + pad3_spec(
                    v,
                ));
            }
            Some(out)
        },
    }
}

/// The base name of a canonical segment name: the prefix before the first
/// `".archive."` marker, or the whole name when no marker occurs.
pub open spec fn base_name_spec(f: Seq<char>) -> Seq<char> {
    match split_first_spec(f, archive_marker()) {
        None => f,
        Some(parts) => parts.0,
    }
}

/// The prefix of a segment file name before the `".archive."` marker, used to
/// group the segments of one logical archive.  Always yields a name.
pub fn get_base_name(filename: &str) -> (r: Option<String>)
    ensures
        match r {
            Some(base) => base@ == base_name_spec(filename@),
            None => false,
        },
{
    proof {
        reveal_strlit(".archive.");
        assert(".archive."@ =~= archive_marker());
    }
    match find_substring(filename, ".archive.") {
        Some(i) => {
            proof {
                lemma_split_first_at(filename@, archive_marker(), i as int);
            }
            let base = filename.substring_char(0, i);
            proof {
                assert(base@ =~= filename@.take(i as int));
            }
            Some(base.to_owned())
        },
        None => {
            proof {
                lemma_split_first_none(filename@, archive_marker());
            }
            Some(filename.to_owned())
        },
    }
}

/// A file name that names the first segment of a multi-volume archive: its
/// extension is exactly `"001"`, that is, the name ends in `".001"` with a
/// non-empty stem before the dot.
pub open spec fn is_first_volume_spec(f: Seq<char>) -> bool {
    f.len() >= 5 && f.skip(f.len() - 4) == seq!['.', '0', '0', '1']
}

/// Whether `filename` names the first segment of a multi-volume archive.
pub fn is_first_volume(filename: &str) -> (b: bool)
    ensures
        b == is_first_volume_spec(filename@),
{
    let n = filename.unicode_len();
    if n < 5 {
        return false;
    }
    let tail: [char; 4] = ['.', '0', '0', '1'];
    let mut k: usize = 0;
    while k < 4
        invariant
            0 <= k <= 4,
            5 <= n == filename@.len(),
            tail@ =~= seq!['.', '0', '0', '1'],
            forall|t: int| 0 <= t < k ==> filename@[n - 4 + t] == seq!['.', '0', '0', '1'][t],
        decreases 4 - k,
    {
        if filename.get_char(n - 4 + k) != tail[k] {
            proof {
                assert(filename@.skip(n - 4)[k as int] != seq!['.', '0', '0', '1'][k as int]);
            }
            return false;
        }
        k = k + 1;
    }
    proof {
        assert(filename@.skip(n - 4) =~= seq!['.', '0', '0', '1']);
    }
    true
}

} // verus!
