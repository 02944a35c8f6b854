//! Character-level utilities shared by the rest of the library: trimming,
//! substring search, decimal digit parsing and formatting, case-insensitive
//! comparison, and lexicographic ordering of character sequences.
use vstd::prelude::*;
use vstd::string::StrSliceExecFns;
use vstd::string::StringExecFns;

verus! {

/// A whitespace character as recognized when trimming surrounding blanks
/// from text read at the edges (version files, console lines, HTTP bodies).
pub open spec fn is_blank(c: char) -> bool {
    c == ' ' || c == '\t' || c == '\n' || c == '\r'
}

/// A decimal digit.
pub open spec fn is_digit(c: char) -> bool {
    '0' <= c && c <= '9'
}

/// A path separator that `normalize_path` strips from the end of a path.
pub open spec fn is_path_sep(c: char) -> bool {
    c == '/' || c == '\\'
}

pub fn is_blank_char(c: char) -> (b: bool)
    ensures
        b == is_blank(c),
{
    c == ' ' || c == '\t' || c == '\n' || c == '\r'
}

pub fn is_digit_char(c: char) -> (b: bool)
    ensures
        b == is_digit(c),
{
    '0' <= c && c <= '9'
}

/// The longest suffix of `s` that does not start with a blank character.
pub open spec fn trim_start_spec(s: Seq<char>) -> Seq<char>
    decreases s.len(),
{
    if s.len() > 0 && is_blank(s[0]) {
        trim_start_spec(s.skip(1))
    } else {
        s
    }
}

/// The longest prefix of `s` that does not end with a blank character.
pub open spec fn trim_end_spec(s: Seq<char>) -> Seq<char>
    decreases s.len(),
{
    if s.len() > 0 && is_blank(s[s.len() - 1]) {
        trim_end_spec(s.take(s.len() - 1))
    } else {
        s
    }
}

/// `s` with blank characters removed from both ends.
pub open spec fn trim_spec(s: Seq<char>) -> Seq<char> {
    trim_end_spec(trim_start_spec(s))
}

proof fn lemma_trim_start_at(s: Seq<char>, i: int)
    requires
        0 <= i <= s.len(),
        forall|k: int| 0 <= k < i ==> is_blank(s[k]),
        i == s.len() || !is_blank(s[i]),
    ensures
        trim_start_spec(s) == s.skip(i),
    decreases i,
{
    if i == 0 {
        assert(s.skip(0) =~= s);
    } else {
        assert(is_blank(s[0]));
        lemma_trim_start_at(s.skip(1), i - 1);
        assert(s.skip(1).skip(i - 1) =~= s.skip(i));
    }
}

proof fn lemma_trim_end_at(s: Seq<char>, m: int)
    requires
        0 <= m <= s.len(),
        forall|k: int| m <= k < s.len() ==> is_blank(s[k]),
        m == 0 || !is_blank(s[m - 1]),
    ensures
        trim_end_spec(s) == s.take(m),
    decreases s.len() - m,
{
    if m == s.len() {
        assert(s.take(m) =~= s);
    } else {
        assert(is_blank(s[s.len() - 1]));
        lemma_trim_end_at(s.take(s.len() - 1), m);
        assert(s.take(s.len() - 1).take(m) =~= s.take(m));
    }
}

/// Trimming a sequence whose first and last characters are not blank leaves
/// it unchanged.
pub proof fn lemma_trim_noop(s: Seq<char>)
    requires
        s.len() == 0 || (!is_blank(s[0]) && !is_blank(s[s.len() - 1])),
    ensures
        trim_spec(s) == s,
{
    lemma_trim_start_at(s, 0);
    lemma_trim_end_at(s, s.len() as int);
}

/// Remove blank characters from both ends of `s`.
pub fn trim_str(s: &str) -> (r: String)
    ensures
        r@ == trim_spec(s@),
{
    let n = s.unicode_len();
    let mut i: usize = 0;
    while i < n && is_blank_char(s.get_char(i))
        invariant
            0 <= i <= n,
            n == s@.len(),
            forall|k: int| 0 <= k < i ==> is_blank(s@[k]),
        decreases n - i,
    {
        i = i + 1;
    }
    let mut j: usize = n;
    while j > i && is_blank_char(s.get_char(j - 1))
        invariant
            i <= j <= n,
            n == s@.len(),
            forall|k: int| j <= k < n ==> is_blank(s@[k]),
        decreases j,
    {
        j = j - 1;
    }
    proof {
        lemma_trim_start_at(s@, i as int);
        lemma_trim_end_at(s@.skip(i as int), j - i);
        assert(s@.skip(i as int).take(j - i) =~= s@.subrange(i as int, j as int));
    }
    let r = s.substring_char(i, j);
    r.to_owned()
}

/// `pat` occurs in `s` starting at index `i`.
pub open spec fn sub_at(s: Seq<char>, pat: Seq<char>, i: int) -> bool {
    0 <= i && i + pat.len() <= s.len() && s.subrange(i, i + pat.len()) == pat
}

/// `pat` occurs somewhere in `s`.
pub open spec fn contains_seq(s: Seq<char>, pat: Seq<char>) -> bool {
    exists|i: int| sub_at(s, pat, i)
}

/// Find the first occurrence of `pat` in `s`, by character position.
pub fn find_substring(s: &str, pat: &str) -> (r: Option<usize>)
    ensures
        match r {
            Some(i) => sub_at(s@, pat@, i as int) && forall|j: int|
                0 <= j < i ==> !sub_at(s@, pat@, j),
            None => !contains_seq(s@, pat@),
        },
{
    let n = s.unicode_len();
    let m = pat.unicode_len();
    if m == 0 {
        proof {
            assert(s@.subrange(0, 0) =~= pat@);
        }
        return Some(0);
    }
    if m > n {
        return None;
    }
    let mut i: usize = 0;
    while i <= n - m
        invariant
            0 <= i <= n - m + 1,
            0 < m <= n,
            n == s@.len(),
            m == pat@.len(),
            forall|j: int| 0 <= j < i ==> !sub_at(s@, pat@, j),
        decreases n + 1 - m - i,
    {
        let mut k: usize = 0;
        let mut matched = true;
        while matched && k < m
            invariant
                0 <= k <= m,
                0 <= i <= n - m,
                n == s@.len(),
                0 < m == pat@.len(),
                matched ==> forall|t: int| 0 <= t < k ==> s@[i + t] == pat@[t],
                !matched ==> !sub_at(s@, pat@, i as int),
            decreases m - k, (if matched { 1int } else { 0int }),
        {
            if s.get_char(i + k) != pat.get_char(k) {
                matched = false;
                proof {
                    assert(s@.subrange(i as int, i + m)[k as int] != pat@[k as int]);
                }
            } else {
                k = k + 1;
            }
        }
        if matched {
            proof {
                assert(s@.subrange(i as int, i + m) =~= pat@);
            }
            return Some(i);
        }
        i = i + 1;
    }
    proof {
        assert forall|j: int| 0 <= j implies !sub_at(s@, pat@, j) by {
            if j + pat@.len() <= s@.len() {
                assert(j < i);
            }
        }
    }
    None
}

/// Whether `pat` occurs anywhere in `s`.
pub fn contains_substring(s: &str, pat: &str) -> (b: bool)
    ensures
        b == contains_seq(s@, pat@),
{
    match find_substring(s, pat) {
        Some(_) => true,
        None => false,
    }
}

/// Every character of `s` is a decimal digit.
pub open spec fn is_digit_seq(s: Seq<char>) -> bool {
    forall|i: int| 0 <= i < s.len() ==> is_digit(s[i])
}

/// The numeric value of a digit character.
pub open spec fn digit_val(c: char) -> nat {
    (c as int - '0' as int) as nat
}

/// The value of a sequence of decimal digits, most significant first.
pub open spec fn digits_val(s: Seq<char>) -> nat
    decreases s.len(),
{
    if s.len() == 0 {
        0
    } else {
        digits_val(s.take(s.len() - 1)) * 10 + digit_val(s[s.len() - 1])
    }
}

/// The value of a digit string never shrinks as more digits are appended.
proof fn lemma_digits_val_prefix_le(s: Seq<char>, i: int)
    requires
        0 <= i <= s.len(),
    ensures
        digits_val(s.take(i)) <= digits_val(s),
    decreases s.len() - i,
{
    if i == s.len() {
        assert(s.take(i) =~= s);
    } else {
        assert(s.take(i + 1).take(i) =~= s.take(i));
        assert(digits_val(s.take(i + 1)) == digits_val(s.take(i)) * 10 + digit_val(s.take(
            i + 1,
        )[i]));
        lemma_digits_val_prefix_le(s, i + 1);
    }
}

/// Parse a non-empty, all-digit string into a `u64`.
pub fn parse_u64_digits(s: &str) -> (r: Option<u64>)
    ensures
        match r {
            Some(v) => is_digit_seq(s@) && s@.len() > 0 && v == digits_val(s@),
            None => !(is_digit_seq(s@) && s@.len() > 0 && digits_val(s@) <= u64::MAX),
        },
{
    let n = s.unicode_len();
    if n == 0 {
        return None;
    }
    let mut acc: u64 = 0;
    let mut i: usize = 0;
    while i < n
        invariant
            0 <= i <= n,
            n == s@.len(),
            forall|k: int| 0 <= k < i ==> is_digit(s@[k]),
            acc == digits_val(s@.take(i as int)),
        decreases n - i,
    {
        let c = s.get_char(i);
        if !is_digit_char(c) {
            return None;
        }
        let d: u64 = (c as u32 - 48) as u64;
        proof {
            assert(d == digit_val(s@[i as int]));
            assert(s@.take(i + 1).take(i as int) =~= s@.take(i as int));
            assert(digits_val(s@.take(i + 1)) == digits_val(s@.take(i as int)) * 10 + digit_val(
                s@[i as int],
            ));
        }
        if acc > (u64::MAX - d) / 10 {
            proof {
                assert(acc * 10 + d > u64::MAX) by (nonlinear_arith)
                    requires
                        acc > (u64::MAX - d) / 10,
                        d <= 9,
                ;
                lemma_digits_val_prefix_le(s@, i + 1);
            }
            return None;
        }
        proof {
            assert(acc * 10 + d <= u64::MAX) by (nonlinear_arith)
                requires
                    acc <= (u64::MAX - d) / 10,
                    d <= 9,
            ;
        }
        acc = acc * 10 + d;
        i = i + 1;
    }
    proof {
        assert(s@.take(n as int) =~= s@);
    }
    Some(acc)
}

/// The character for a digit value.
pub open spec fn digit_char(d: nat) -> char {
    if d == 0 {
        '0'
    } else if d == 1 {
        '1'
    } else if d == 2 {
        '2'
    } else if d == 3 {
        '3'
    } else if d == 4 {
        '4'
    } else if d == 5 {
        '5'
    } else if d == 6 {
        '6'
    } else if d == 7 {
        '7'
    } else if d == 8 {
        '8'
    } else {
        '9'
    }
}

/// The decimal rendering of `n`, without leading zeros.
pub open spec fn dec_spec(n: nat) -> Seq<char>
    decreases n,
{
    if n < 10 {
        seq![digit_char(n)]
    } else {
        dec_spec(n / 10) + seq![digit_char(n % 10)]
    }
}

fn digit_str(d: u64) -> (r: &'static str)
    requires
        d < 10,
    ensures
        r@ == seq![digit_char(d as nat)],
{
    proof {
        reveal_strlit("0");
        reveal_strlit("1");
        reveal_strlit("2");
        reveal_strlit("3");
        reveal_strlit("4");
        reveal_strlit("5");
        reveal_strlit("6");
        reveal_strlit("7");
        reveal_strlit("8");
        reveal_strlit("9");
    }
    if d == 0 {
        "0"
    } else if d == 1 {
        "1"
    } else if d == 2 {
        "2"
    } else if d == 3 {
        "3"
    } else if d == 4 {
        "4"
    } else if d == 5 {
        "5"
    } else if d == 6 {
        "6"
    } else if d == 7 {
        "7"
    } else if d == 8 {
        "8"
    } else {
        "9"
    }
}

/// Render `n` in decimal, without leading zeros.
pub fn u64_to_string(n: u64) -> (r: String)
    ensures
        r@ == dec_spec(n as nat),
    decreases n,
{
    if n < 10 {
        digit_str(n).to_owned()
    } else {
        let mut r = u64_to_string(n / 10);
        r.append(digit_str(n % 10));
        r
    }
}

/// Every character of a decimal rendering is a digit, there is at least one,
/// and reading the digits back yields the number itself.
pub proof fn lemma_dec_spec_value(n: nat)
    ensures
        dec_spec(n).len() > 0,
        is_digit_seq(dec_spec(n)),
        digits_val(dec_spec(n)) == n,
    decreases n,
{
    if n < 10 {
        let x = seq![digit_char(n)];
        assert(dec_spec(n) == x);
        assert(x.take(x.len() - 1) =~= Seq::<char>::empty());
        assert(digits_val(Seq::<char>::empty()) == 0);
        assert(digits_val(x) == 0 * 10 + digit_val(x[0]));
        assert(digit_val(digit_char(n)) == n);
    } else {
        lemma_dec_spec_value(n / 10);
        let pre = dec_spec(n / 10);
        let whole = dec_spec(n);
        assert(whole == pre + seq![digit_char(n % 10)]);
        assert(whole.take(whole.len() - 1) =~= pre);
        assert(whole[whole.len() - 1] == digit_char(n % 10));
        assert(digits_val(whole) == (n / 10) * 10 + digit_val(digit_char(n % 10)));
        assert(digit_val(digit_char(n % 10)) == n % 10);
        assert((n / 10) * 10 + n % 10 == n) by (nonlinear_arith);
        assert forall|i: int| 0 <= i < whole.len() implies is_digit(whole[i]) by {
            if i < pre.len() {
                assert(whole[i] == pre[i]);
            }
        }
    }
}

/// Two characters are equal up to ASCII case.
pub open spec fn chars_eq_icase(a: char, b: char) -> bool {
    a == b || (is_ascii_upper(a) && a as int + 32 == b as int) || (is_ascii_upper(b) && b as int
        + 32 == a as int)
}

/// An ASCII capital letter.
pub open spec fn is_ascii_upper(c: char) -> bool {
    'A' <= c && c <= 'Z'
}

/// Two character sequences are equal up to ASCII case.
pub open spec fn seq_eq_icase(a: Seq<char>, b: Seq<char>) -> bool {
    a.len() == b.len() && forall|i: int| 0 <= i < a.len() ==> chars_eq_icase(a[i], b[i])
}

fn char_eq_icase(a: char, b: char) -> (r: bool)
    ensures
        r == chars_eq_icase(a, b),
{
    if a == b {
        true
    } else {
        let au = a as u32;
        let bu = b as u32;
        let a_upper = 65 <= au && au <= 90;
        let b_upper = 65 <= bu && bu <= 90;
        (a_upper && au + 32 == bu) || (b_upper && bu + 32 == au)
    }
}

/// Compare two strings for equality, ignoring ASCII case.
pub fn eq_ignore_case(a: &str, b: &str) -> (r: bool)
    ensures
        r == seq_eq_icase(a@, b@),
{
    let n = a.unicode_len();
    if n != b.unicode_len() {
        return false;
    }
    let mut i: usize = 0;
    while i < n
        invariant
            0 <= i <= n,
            n == a@.len() == b@.len(),
            forall|k: int| 0 <= k < i ==> chars_eq_icase(a@[k], b@[k]),
        decreases n - i,
    {
        if !char_eq_icase(a.get_char(i), b.get_char(i)) {
            return false;
        }
        i = i + 1;
    }
    true
}

fn is_sep_char(c: char) -> (b: bool)
    ensures
        b == is_path_sep(c),
{
    c == '/' || c == '\\'
}

/// The longest prefix of `s` that does not end in a path separator.
pub open spec fn normalize_path_spec(s: Seq<char>) -> Seq<char>
    decreases s.len(),
{
    if s.len() > 0 && is_path_sep(s[s.len() - 1]) {
        normalize_path_spec(s.take(s.len() - 1))
    } else {
        s
    }
}

proof fn lemma_normalize_path_at(s: Seq<char>, m: int)
    requires
        0 <= m <= s.len(),
        forall|k: int| m <= k < s.len() ==> is_path_sep(s[k]),
        m == 0 || !is_path_sep(s[m - 1]),
    ensures
        normalize_path_spec(s) == s.take(m),
    decreases s.len() - m,
{
    if m == s.len() {
        assert(s.take(m) =~= s);
    } else {
        assert(is_path_sep(s[s.len() - 1]));
        lemma_normalize_path_at(s.take(s.len() - 1), m);
        assert(s.take(s.len() - 1).take(m) =~= s.take(m));
    }
}

/// Strip trailing path separators (`/` or `\`) from a path string.
pub fn normalize_path(path_str: &str) -> (r: String)
    ensures
        r@ == normalize_path_spec(path_str@),
{
    let n = path_str.unicode_len();
    let mut j: usize = n;
    while j > 0 && is_sep_char(path_str.get_char(j - 1))
        invariant
            0 <= j <= n,
            n == path_str@.len(),
            forall|k: int| j <= k < n ==> is_path_sep(path_str@[k]),
        decreases j,
    {
        j = j - 1;
    }
    proof {
        lemma_normalize_path_at(path_str@, j as int);
        assert(path_str@.take(j as int) =~= path_str@.subrange(0, j as int));
    }
    let r = path_str.substring_char(0, j);
    r.to_owned()
}

/// Strict lexicographic order on character sequences, by code point.
pub open spec fn lex_lt(a: Seq<char>, b: Seq<char>) -> bool
    decreases a.len(),
{
    if b.len() == 0 {
        false
    } else if a.len() == 0 {
        true
    } else if a[0] != b[0] {
        (a[0] as int) < (b[0] as int)
    } else {
        lex_lt(a.skip(1), b.skip(1))
    }
}

/// Non-strict lexicographic order.
pub open spec fn lex_le(a: Seq<char>, b: Seq<char>) -> bool {
    lex_lt(a, b) || a == b
}

/// Where two sequences agree on a prefix and then differ, the order is the
/// order of the first differing characters.
proof fn lemma_lex_lt_diff(a: Seq<char>, b: Seq<char>, i: int)
    requires
        0 <= i < a.len(),
        i < b.len(),
        forall|k: int| 0 <= k < i ==> a[k] == b[k],
        a[i] != b[i],
    ensures
        lex_lt(a, b) == ((a[i] as int) < (b[i] as int)),
        a != b,
    decreases i,
{
    if i == 0 {
    } else {
        assert(a[0] == b[0]);
        lemma_lex_lt_diff(a.skip(1), b.skip(1), i - 1);
        assert(a.skip(1)[i - 1] == a[i]);
        assert(b.skip(1)[i - 1] == b[i]);
        assert(a.skip(1) != b.skip(1) ==> a != b) by {
            if a == b {
                assert(a.skip(1) =~= b.skip(1));
            }
        }
    }
}

/// Where one sequence is a strict prefix of another, the shorter comes first.
proof fn lemma_lex_lt_prefix(a: Seq<char>, b: Seq<char>, i: int)
    requires
        0 <= i,
        i == a.len() || i == b.len(),
        i <= a.len(),
        i <= b.len(),
        forall|k: int| 0 <= k < i ==> a[k] == b[k],
    ensures
        lex_lt(a, b) == (a.len() < b.len()),
        (a == b) == (a.len() == b.len()),
    decreases i,
{
    if i == 0 {
        if a.len() == 0 && b.len() == 0 {
            assert(a =~= b);
        } else {
            assert(a.len() != b.len() ==> a != b);
        }
    } else {
        assert(a[0] == b[0]);
        lemma_lex_lt_prefix(a.skip(1), b.skip(1), i - 1);
        if a.skip(1) == b.skip(1) && a[0] == b[0] {
            assert(a =~= b);
        }
        if a == b {
            assert(a.skip(1) =~= b.skip(1));
        }
    }
}

/// Lexicographic order is total: of two sequences, one is `lex_le` the other.
pub proof fn lemma_lex_total(a: Seq<char>, b: Seq<char>)
    ensures
        lex_le(a, b) || lex_le(b, a),
        !(lex_lt(a, b) && lex_lt(b, a)),
        lex_lt(a, b) ==> a != b,
    decreases a.len(),
{
    if b.len() == 0 || a.len() == 0 {
        if a.len() == 0 && b.len() == 0 {
            assert(a =~= b);
        }
    } else if a[0] != b[0] {
        lemma_lex_lt_diff(a, b, 0);
        lemma_lex_lt_diff(b, a, 0);
    } else {
        lemma_lex_total(a.skip(1), b.skip(1));
        if a.skip(1) == b.skip(1) {
            assert forall|k: int| 0 <= k < a.len() implies a[k] == b[k] by {
                if k > 0 {
                    assert(a[k] == a.skip(1)[k - 1]);
                    assert(b[k] == b.skip(1)[k - 1]);
                }
            }
            assert(a =~= b);
        }
        if a == b {
            assert(a.skip(1) =~= b.skip(1));
        }
    }
}

/// The result of comparing two ordered values.
#[derive(PartialEq, Eq, Structural, Clone, Copy, Debug)]
pub enum Order {
    Less,
    Equal,
    Greater,
}

/// Compare two strings lexicographically by code point.
pub fn compare_str(a: &str, b: &str) -> (r: Order)
    ensures
        (r == Order::Less) == lex_lt(a@, b@),
        (r == Order::Equal) == (a@ == b@),
        (r == Order::Greater) == lex_lt(b@, a@),
{
    let n = a.unicode_len();
    let m = b.unicode_len();
    let mut i: usize = 0;
    while i < n && i < m
        invariant
            0 <= i <= n,
            0 <= i <= m,
            n == a@.len(),
            m == b@.len(),
            forall|k: int| 0 <= k < i ==> a@[k] == b@[k],
        decreases n - i,
    {
        let ca = a.get_char(i);
        let cb = b.get_char(i);
        if ca != cb {
            proof {
                lemma_lex_lt_diff(a@, b@, i as int);
                lemma_lex_lt_diff(b@, a@, i as int);
            }
            if (ca as u32) < (cb as u32) {
                return Order::Less;
            } else {
                return Order::Greater;
            }
        }
        i = i + 1;
    }
    proof {
        lemma_lex_lt_prefix(a@, b@, i as int);
        lemma_lex_lt_prefix(b@, a@, i as int);
    }
    if n < m {
        Order::Less
    } else if n == m {
        Order::Equal
    } else {
        Order::Greater
    }
}

/// Split `s` at the first occurrence of `p`: the characters before the
/// occurrence and the characters after it, or `None` when `p` never occurs.
pub open spec fn split_first_spec(s: Seq<char>, p: Seq<char>) -> Option<(Seq<char>, Seq<char>)>
    decreases s.len(),
{
    if p.len() == 0 {
        Some((Seq::empty(), s))
    } else if s.len() < p.len() {
        None
    } else if s.take(p.len() as int) == p {
        Some((Seq::empty(), s.skip(p.len() as int)))
    } else {
        match split_first_spec(s.skip(1), p) {
            None => None,
            Some(pr) => Some((seq![s[0]] + pr.0, pr.1)),
        }
    }
}

/// Where `p` never occurs in `s`, splitting finds nothing.
pub proof fn lemma_split_first_none(s: Seq<char>, p: Seq<char>)
    requires
        p.len() > 0,
        !contains_seq(s, p),
    ensures
        split_first_spec(s, p) == None::<(Seq<char>, Seq<char>)>,
    decreases s.len(),
{
    if s.len() < p.len() {
    } else {
        assert(s.take(p.len() as int) == s.subrange(0, p.len() as int));
        assert(!sub_at(s, p, 0));
        assert forall|j: int| !sub_at(s.skip(1), p, j) by {
            if 0 <= j && j + p.len() <= s.skip(1).len() {
                assert(s.skip(1).subrange(j, j + p.len()) =~= s.subrange(j + 1, j + 1 + p.len()));
                assert(!sub_at(s, p, j + 1));
            }
        }
        lemma_split_first_none(s.skip(1), p);
    }
}

/// Where the first occurrence of `p` in `s` is at `i`, splitting cuts there.
pub proof fn lemma_split_first_at(s: Seq<char>, p: Seq<char>, i: int)
    requires
        p.len() > 0,
        sub_at(s, p, i),
        forall|j: int| 0 <= j < i ==> !sub_at(s, p, j),
    ensures
        split_first_spec(s, p) == Some((s.take(i), s.skip(i + p.len()))),
    decreases i,
{
    if i == 0 {
        assert(s.take(p.len() as int) == s.subrange(0, p.len() as int));
        assert(s.take(0) =~= Seq::<char>::empty());
    } else {
        assert(!sub_at(s, p, 0));
        assert(s.take(p.len() as int) == s.subrange(0, p.len() as int));
        assert(s.skip(1).subrange(i - 1, i - 1 + p.len()) =~= s.subrange(i, i + p.len()));
        assert(sub_at(s.skip(1), p, i - 1));
        assert forall|j: int| 0 <= j < i - 1 implies !sub_at(s.skip(1), p, j) by {
            assert(s.skip(1).subrange(j, j + p.len()) =~= s.subrange(j + 1, j + 1 + p.len()));
            assert(!sub_at(s, p, j + 1));
        }
        lemma_split_first_at(s.skip(1), p, i - 1);
        assert(seq![s[0]] + s.skip(1).take(i - 1) =~= s.take(i));
        assert(s.skip(1).skip(i - 1 + p.len()) =~= s.skip(i + p.len()));
    }
}

/// Lexicographic order is transitive.
pub proof fn lemma_lex_trans(a: Seq<char>, b: Seq<char>, c: Seq<char>)
    requires
        lex_lt(a, b),
        lex_lt(b, c),
    ensures
        lex_lt(a, c),
    decreases a.len(),
{
    if c.len() == 0 {
        assert(false);
    } else if a.len() == 0 {
    } else {
        assert(b.len() > 0);
        if a[0] == b[0] && b[0] == c[0] {
            lemma_lex_trans(a.skip(1), b.skip(1), c.skip(1));
        }
    }
}

} // verus!

