//! The version value type: a date token plus an iteration counter, written
//! `"<date>--<iteration>"`.  Versions order by date first (an opaque
//! lexicographically ordered token) and then by iteration.
use vstd::prelude::*;
use vstd::string::StrSliceExecFns;
use vstd::string::StringExecFns;

use crate::text::contains_seq;
use crate::text::dec_spec;
use crate::text::digits_val;
use crate::text::find_substring;
use crate::text::is_blank;
use crate::text::is_digit;
use crate::text::is_digit_seq;
use crate::text::lemma_dec_spec_value;
use crate::text::lemma_split_first_at;
use crate::text::lemma_split_first_none;
use crate::text::lemma_trim_noop;
use crate::text::lex_lt;
use crate::text::parse_u64_digits;
use crate::text::split_first_spec;
use crate::text::sub_at;
use crate::text::trim_spec;
use crate::text::trim_str;
use crate::text::compare_str;
use crate::text::Order;

verus! {

/// A version token could not be parsed.
#[derive(PartialEq, Eq, Structural, Clone, Copy, Debug)]
pub struct FormatError;

/// A package version: a date token and a non-negative iteration counter.
#[derive(Debug, Clone)]
pub struct Version {
    pub date: String,
    pub iteration: u64,
}

/// The separator between the date and the iteration in a serialized version.
pub open spec fn version_sep() -> Seq<char> {
    seq!['-', '-']
}

/// What parsing a raw version string yields: trim surrounding blanks, cut at
/// the first `"--"`, and read the remainder as a decimal iteration count.
/// `None` when the separator is missing, the remainder is not all digits, or
/// the count does not fit.
pub open spec fn version_parse_spec(raw: Seq<char>) -> Option<(Seq<char>, u64)> {
    let s = trim_spec(raw);
    match split_first_spec(s, version_sep()) {
        None => None,
        Some(parts) => {
            if parts.1.len() > 0 && is_digit_seq(parts.1) && digits_val(parts.1) <= u64::MAX {
                Some((parts.0, digits_val(parts.1) as u64))
            } else {
                None
            }
        },
    }
}

/// The serialized form `"<date>--<iteration>"`.
pub open spec fn version_token_spec(date: Seq<char>, iteration: u64) -> Seq<char> {
    date + version_sep() + dec_spec(iteration as nat)
}

/// `a` is strictly older than `b`: its date token orders first, or the dates
/// are the same and its iteration is smaller.
pub open spec fn version_lt_spec(a_date: Seq<char>, a_iter: u64, b_date: Seq<char>, b_iter: u64) -> bool {
    lex_lt(a_date, b_date) || (a_date == b_date && a_iter < b_iter)
}

impl Version {
    /// Parse `"<date>--<iteration>"`, trimming surrounding blanks first.
    pub fn parse(version_str: &str) -> (r: Result<Version, FormatError>)
        ensures
            match r {
                Ok(v) => version_parse_spec(version_str@) == Some((v.date@, v.iteration)),
                Err(_) => version_parse_spec(version_str@) is None,
            },
    {
        let t = trim_str(version_str);
        proof {
            reveal_strlit("--");
            assert("--"@ =~= version_sep());
        }
        match find_substring(t.as_str(), "--") {
            None => {
                proof {
                    lemma_split_first_none(t@, version_sep());
                }
                Err(FormatError)
            },
            Some(i) => {
                proof {
                    lemma_split_first_at(t@, version_sep(), i as int);
                }
                let n = t.as_str().unicode_len();
                let rest = t.as_str().substring_char(i + 2, n);
                proof {
                    assert(rest@ =~= t@.skip(i + 2));
                }
                match parse_u64_digits(rest) {
                    Some(v) => {
                        let date = t.as_str().substring_char(0, i);
                        proof {
                            assert(date@ =~= t@.take(i as int));
                        }
                        Ok(Version { date: date.to_owned(), iteration: v })
                    },
                    None => Err(FormatError),
                }
            },
        }
    }

    /// Serialize as `"<date>--<iteration>"`.
    pub fn verdate_to_string(&self) -> (r: String)
        ensures
            r@ == version_token_spec(self.date@, self.iteration),
    {
        let mut r = self.date.clone();
        proof {
            reveal_strlit("--");
            assert("--"@ =~= version_sep());
        }
        r.append("--");
        let num = crate::text::u64_to_string(self.iteration);
        r.append(num.as_str());
        r
    }

    /// Order two versions: by date token, then by iteration.
    pub fn compare(&self, other: &Version) -> (r: Order)
        ensures
            (r == Order::Less) == version_lt_spec(
                self.date@,
                self.iteration,
                other.date@,
                other.iteration,
            ),
            (r == Order::Equal) == (self.date@ == other.date@ && self.iteration
                == other.iteration),
            (r == Order::Greater) == version_lt_spec(
                other.date@,
                other.iteration,
                self.date@,
                self.iteration,
            ),
    {
        match compare_str(self.date.as_str(), other.date.as_str()) {
            Order::Less => Order::Less,
            Order::Greater => Order::Greater,
            Order::Equal => {
                if self.iteration < other.iteration {
                    Order::Less
                } else if self.iteration == other.iteration {
                    Order::Equal
                } else {
                    Order::Greater
                }
            },
        }
    }
}

impl PartialEq for Version {
    /// Versions are equal when their dates and iterations are equal.
    fn eq(&self, other: &Version) -> (r: bool) {
        self.date.eq(&other.date) && self.iteration == other.iteration
    }
}

impl Eq for Version {

}

impl vstd::std_specs::cmp::PartialEqSpecImpl for Version {
    open spec fn obeys_eq_spec() -> bool {
        true
    }

    open spec fn eq_spec(&self, other: &Version) -> bool {
        self.date@ == other.date@ && self.iteration == other.iteration
    }
}

/// A date token that survives a serialize-then-parse round trip: it holds no
/// embedded `"--"`, does not end with a dash, and does not start with a blank.
pub open spec fn round_trip_date(date: Seq<char>) -> bool {
    &&& !contains_seq(date, version_sep())
    &&& date.len() == 0 || date[date.len() - 1] != '-'
    &&& date.len() == 0 || !is_blank(date[0])
}

/// Writing a version out and reading it back yields the same version, for
/// every date token without an embedded separator, trailing dash, or leading
/// blank, and every iteration count.
pub proof fn lemma_version_round_trip(date: Seq<char>, iteration: u64)
    requires
        round_trip_date(date),
    ensures
        version_parse_spec(version_token_spec(date, iteration)) == Some((date, iteration)),
{
    let tok = version_token_spec(date, iteration);
    let num = dec_spec(iteration as nat);
    lemma_dec_spec_value(iteration as nat);
    let dlen = date.len() as int;
    assert(tok.len() == dlen + 2 + num.len());
    assert(tok[0] == if dlen > 0 {
        date[0]
    } else {
        '-'
    });
    assert(is_digit(num[num.len() - 1]));
    assert(tok[tok.len() - 1] == num[num.len() - 1]);
    lemma_trim_noop(tok);
    assert(tok.subrange(dlen, dlen + 2) =~= version_sep());
    assert(sub_at(tok, version_sep(), dlen));
    assert forall|j: int| 0 <= j < dlen implies !sub_at(tok, version_sep(), j) by {
        if j + 2 <= dlen {
            if sub_at(tok, version_sep(), j) {
                assert(date.subrange(j, j + 2) =~= tok.subrange(j, j + 2));
                assert(sub_at(date, version_sep(), j));
            }
        } else {
            assert(j == dlen - 1);
            if sub_at(tok, version_sep(), j) {
                assert(tok.subrange(j, j + 2)[0] == tok[j]);
                assert(tok[j] == date[dlen - 1]);
                assert(version_sep()[0] == '-');
            }
        }
    }
    lemma_split_first_at(tok, version_sep(), dlen);
    assert(tok.take(dlen) =~= date);
    assert(tok.skip(dlen + 2) =~= num);
}

} // verus!
