//! Character-level string helpers shared by the parsers and formatters.
//!
//! Strings are handled as sequences of Unicode scalar values (`Seq<char>`), which is how
//! `str` and `String` are viewed by Verus.
use vstd::prelude::*;

verus! {

/// Unicode `White_Space` property, which is what `char::is_whitespace` and `str::trim` use.
pub open spec fn is_ws(c: char) -> bool {
    ||| c == '\t'
    ||| c == '\n'
    ||| c == '\u{0B}'
    ||| c == '\u{0C}'
    ||| c == '\r'
    ||| c == ' '
    ||| c == '\u{85}'
    ||| c == '\u{A0}'
    ||| c == '\u{1680}'
    ||| ('\u{2000}' <= c && c <= '\u{200A}')
    ||| c == '\u{2028}'
    ||| c == '\u{2029}'
    ||| c == '\u{202F}'
    ||| c == '\u{205F}'
    ||| c == '\u{3000}'
}

pub fn is_whitespace(c: char) -> (r: bool)
    ensures
        r == is_ws(c),
{
    c == '\t' || c == '\n' || c == '\u{0B}' || c == '\u{0C}' || c == '\r' || c == ' ' || c
        == '\u{85}' || c == '\u{A0}' || c == '\u{1680}' || ('\u{2000}' <= c && c <= '\u{200A}')
        || c == '\u{2028}' || c == '\u{2029}' || c == '\u{202F}' || c == '\u{205F}' || c
        == '\u{3000}'
}

/// `s` with its leading whitespace removed.
pub open spec fn trim_start(s: Seq<char>) -> Seq<char>
    decreases s.len(),
{
    if s.len() > 0 && is_ws(s[0]) {
        trim_start(s.drop_first())
    } else {
        s
    }
}

/// `s` with its trailing whitespace removed.
pub open spec fn trim_end(s: Seq<char>) -> Seq<char>
    decreases s.len(),
{
    if s.len() > 0 && is_ws(s.last()) {
        trim_end(s.drop_last())
    } else {
        s
    }
}

/// `s` with leading and trailing whitespace removed, as `str::trim` does.
pub open spec fn trim(s: Seq<char>) -> Seq<char> {
    trim_end(trim_start(s))
}

/// `s` with every trailing copy of `pat` removed, as `str::trim_end_matches` does.
pub open spec fn trim_end_all(s: Seq<char>, pat: Seq<char>) -> Seq<char>
    decreases s.len(),
{
    if pat.len() > 0 && s.len() >= pat.len() && s.subrange(s.len() - pat.len(), s.len() as int)
        == pat {
        trim_end_all(s.subrange(0, s.len() - pat.len()), pat)
    } else {
        s
    }
}

/// `s` with every leading copy of `pat` removed, as `str::trim_start_matches` does.
pub open spec fn trim_start_all(s: Seq<char>, pat: Seq<char>) -> Seq<char>
    decreases s.len(),
{
    if pat.len() > 0 && s.len() >= pat.len() && s.subrange(0, pat.len() as int) == pat {
        trim_start_all(s.subrange(pat.len() as int, s.len() as int), pat)
    } else {
        s
    }
}

pub open spec fn starts_with(s: Seq<char>, p: Seq<char>) -> bool {
    s.len() >= p.len() && s.subrange(0, p.len() as int) == p
}

pub open spec fn ends_with(s: Seq<char>, p: Seq<char>) -> bool {
    s.len() >= p.len() && s.subrange(s.len() - p.len(), s.len() as int) == p
}

/// The index of the first occurrence of `c` in `s`.
pub open spec fn find_char(s: Seq<char>, c: char) -> Option<int>
    decreases s.len(),
{
    if s.len() == 0 {
        None
    } else if s[0] == c {
        Some(0)
    } else {
        match find_char(s.drop_first(), c) {
            Some(i) => Some(i + 1),
            None => None,
        }
    }
}

/// `s` with every occurrence of `c` removed.
pub open spec fn remove_char(s: Seq<char>, c: char) -> Seq<char>
    decreases s.len(),
{
    if s.len() == 0 {
        s
    } else if s.last() == c {
        remove_char(s.drop_last(), c)
    } else {
        remove_char(s.drop_last(), c).push(s.last())
    }
}

pub open spec fn is_digit(c: char) -> bool {
    '0' <= c && c <= '9'
}

pub open spec fn all_digits(s: Seq<char>) -> bool {
    forall|i: int| 0 <= i < s.len() ==> is_digit(#[trigger] s[i])
}

/// The value of a string of decimal digits.
pub open spec fn digits_value(s: Seq<char>) -> int
    decreases s.len(),
{
    if s.len() == 0 {
        0
    } else {
        digits_value(s.drop_last()) * 10 + (s.last() as int - '0' as int)
    }
}

/// `u32::from_str`: an optional `+` followed by one or more ASCII digits, within range.
pub open spec fn spec_parse_u32(s: Seq<char>) -> Option<u32> {
    let body = if s.len() > 0 && s[0] == '+' {
        s.drop_first()
    } else {
        s
    };
    if body.len() > 0 && all_digits(body) && digits_value(body) <= u32::MAX {
        Some(digits_value(body) as u32)
    } else {
        None
    }
}

/// `usize::from_str`: an optional `+` followed by one or more ASCII digits, within range.
pub open spec fn spec_parse_usize(s: Seq<char>) -> Option<usize> {
    let body = if s.len() > 0 && s[0] == '+' {
        s.drop_first()
    } else {
        s
    };
    if body.len() > 0 && all_digits(body) && digits_value(body) <= usize::MAX {
        Some(digits_value(body) as usize)
    } else {
        None
    }
}

/// `i64::from_str`: an optional `+` or `-` followed by one or more ASCII digits, within range.
pub open spec fn spec_parse_i64(s: Seq<char>) -> Option<i64> {
    let neg = s.len() > 0 && s[0] == '-';
    let body = if s.len() > 0 && (s[0] == '+' || s[0] == '-') {
        s.drop_first()
    } else {
        s
    };
    let v = if neg {
        -digits_value(body)
    } else {
        digits_value(body)
    };
    if body.len() > 0 && all_digits(body) && i64::MIN <= v <= i64::MAX {
        Some(v as i64)
    } else {
        None
    }
}

/// The characters of `s`.
pub fn chars_of(s: &str) -> (res: Vec<char>)
    ensures
        res@ == s@,
{
    let mut res: Vec<char> = Vec::new();
    for c in it: s.chars()
        invariant
            res@ == it.seq().take(it.index() as int),
            it.seq() == s@,
    {
        res.push(c);
    }
    res
}

/// Collects characters into a `String` (`FromIterator<char>` for `String`).
#[verifier::external_body]
pub(crate) fn string_from_chars(v: &[char]) -> (res: String)
    ensures
        res@ == v@,
{
    v.iter().collect()
}

/// The full Unicode lowercase mapping of a string, as `str::to_lowercase` computes it.
pub uninterp spec fn lowercase(s: Seq<char>) -> Seq<char>;

/// Calls `str::to_lowercase`; its result is named `lowercase`.
#[verifier::external_body]
pub(crate) fn to_lowercase(s: &[char]) -> (res: Vec<char>)
    ensures
        res@ == lowercase(s@),
{
    let owned: String = s.iter().collect();
    owned.to_lowercase().chars().collect()
}

/// `v[from..to]` as a new vector.
pub fn slice_of(v: &[char], from: usize, to: usize) -> (res: Vec<char>)
    requires
        from <= to <= v@.len(),
    ensures
        res@ == v@.subrange(from as int, to as int),
{
    let mut res: Vec<char> = Vec::new();
    let mut i = from;
    while i < to
        invariant
            from <= i <= to,
            to <= v@.len(),
            res@ == v@.subrange(from as int, i as int),
        decreases to - i,
    {
        res.push(v[i]);
        i += 1;
    }
    res
}

/// Equality of two character sequences.
pub fn chars_eq(a: &[char], b: &[char]) -> (r: bool)
    ensures
        r == (a@ == b@),
{
    if a.len() != b.len() {
        return false;
    }
    let mut i: usize = 0;
    while i < a.len()
        invariant
            a@.len() == b@.len(),
            i <= a@.len(),
            forall|j: int| 0 <= j < i ==> a@[j] == b@[j],
        decreases a@.len() - i,
    {
        if a[i] != b[i] {
            return false;
        }
        i += 1;
    }
    assert(a@ =~= b@);
    true
}

/// Equality of a character sequence with a string.
pub fn eq_str(a: &[char], b: &str) -> (r: bool)
    ensures
        r == (a@ == b@),
{
    let bv = chars_of(b);
    chars_eq(a, &bv)
}

/// Equality of two strings.
pub fn str_eq(a: &str, b: &str) -> (r: bool)
    ensures
        r == (a@ == b@),
{
    let av = chars_of(a);
    let bv = chars_of(b);
    chars_eq(&av, &bv)
}

pub fn has_prefix(s: &[char], p: &[char]) -> (r: bool)
    ensures
        r == starts_with(s@, p@),
{
    if s.len() < p.len() {
        return false;
    }
    let head = slice_of(s, 0, p.len());
    chars_eq(&head, p)
}

pub fn has_suffix(s: &[char], p: &[char]) -> (r: bool)
    ensures
        r == ends_with(s@, p@),
{
    if s.len() < p.len() {
        return false;
    }
    let tail = slice_of(s, s.len() - p.len(), s.len());
    chars_eq(&tail, p)
}

proof fn lemma_trim_start_suffix(s: Seq<char>, i: int)
    requires
        0 <= i <= s.len(),
        forall|j: int| 0 <= j < i ==> is_ws(#[trigger] s[j]),
    ensures
        trim_start(s) == trim_start(s.subrange(i, s.len() as int)),
    decreases i,
{
    if i > 0 {
        assert(is_ws(s[0]));
        let t = s.drop_first();
        assert forall|j: int| 0 <= j < i - 1 implies is_ws(#[trigger] t[j]) by {
            assert(t[j] == s[j + 1]);
        }
        lemma_trim_start_suffix(t, i - 1);
        assert(t.subrange(i - 1, t.len() as int) =~= s.subrange(i, s.len() as int));
    } else {
        assert(s.subrange(0, s.len() as int) =~= s);
    }
}

proof fn lemma_trim_end_prefix(s: Seq<char>, k: int)
    requires
        0 <= k <= s.len(),
        forall|j: int| k <= j < s.len() ==> is_ws(#[trigger] s[j]),
    ensures
        trim_end(s) == trim_end(s.subrange(0, k)),
    decreases s.len() - k,
{
    if k < s.len() {
        assert(s.drop_last() == s.subrange(0, s.len() - 1));
        lemma_trim_end_prefix(s.drop_last(), k);
        assert(s.drop_last().subrange(0, k) =~= s.subrange(0, k));
    } else {
        assert(s.subrange(0, k) =~= s);
    }
}

/// `str::trim` on a character sequence.
pub fn trim_chars(s: &[char]) -> (res: Vec<char>)
    ensures
        res@ == trim(s@),
{
    let mut i: usize = 0;
    while i < s.len() && is_whitespace(s[i])
        invariant
            i <= s@.len(),
            forall|j: int| 0 <= j < i ==> is_ws(#[trigger] s@[j]),
        decreases s@.len() - i,
    {
        i += 1;
    }
    proof {
        lemma_trim_start_suffix(s@, i as int);
        let t = s@.subrange(i as int, s@.len() as int);
        if t.len() > 0 {
            assert(t[0] == s@[i as int]);
            assert(!is_ws(t[0]));
        }
        assert(trim_start(s@) == t);
    }
    let mut k: usize = s.len();
    while k > i && is_whitespace(s[k - 1])
        invariant
            i <= k <= s@.len(),
            forall|j: int| k <= j < s@.len() ==> is_ws(#[trigger] s@[j]),
        decreases k,
    {
        k -= 1;
    }
    proof {
        let t = s@.subrange(i as int, s@.len() as int);
        assert forall|j: int| (k - i) <= j < t.len() implies is_ws(#[trigger] t[j]) by {
            assert(t[j] == s@[j + i]);
        }
        lemma_trim_end_prefix(t, (k - i) as int);
        let u = t.subrange(0, (k - i) as int);
        assert(u =~= s@.subrange(i as int, k as int));
        if u.len() > 0 {
            assert(u.last() == s@[k - 1]);
        }
    }
    slice_of(s, i, k)
}

/// The first index of `c` in `s`.
pub fn find(s: &[char], c: char) -> (r: Option<usize>)
    ensures
        match r {
            Some(i) => find_char(s@, c) == Some(i as int) && i < s@.len() && i < s.len(),
            None => find_char(s@, c) is None,
        },
{
    let mut i: usize = 0;
    while i < s.len()
        invariant
            i <= s@.len(),
            forall|j: int| 0 <= j < i ==> s@[j] != c,
        decreases s@.len() - i,
    {
        if s[i] == c {
            proof {
                lemma_find_char_at(s@, c, i as int);
            }
            return Some(i);
        }
        i += 1;
    }
    proof {
        lemma_find_char_none(s@, c);
    }
    None
}

proof fn lemma_find_char_at(s: Seq<char>, c: char, i: int)
    requires
        0 <= i < s.len(),
        s[i] == c,
        forall|j: int| 0 <= j < i ==> s[j] != c,
    ensures
        find_char(s, c) == Some(i),
    decreases i,
{
    if i > 0 {
        lemma_find_char_at(s.drop_first(), c, i - 1);
    }
}

proof fn lemma_find_char_none(s: Seq<char>, c: char)
    requires
        forall|j: int| 0 <= j < s.len() ==> s[j] != c,
    ensures
        find_char(s, c) is None,
    decreases s.len(),
{
    if s.len() > 0 {
        lemma_find_char_none(s.drop_first(), c);
    }
}

/// Every occurrence of `c` removed (`str::replace(c, "")`).
pub fn without_char(s: &[char], c: char) -> (res: Vec<char>)
    ensures
        res@ == remove_char(s@, c),
{
    let mut res: Vec<char> = Vec::new();
    let mut i: usize = 0;
    while i < s.len()
        invariant
            i <= s@.len(),
            res@ == remove_char(s@.subrange(0, i as int), c),
        decreases s@.len() - i,
    {
        proof {
            let t = s@.subrange(0, i as int + 1);
            assert(t.drop_last() =~= s@.subrange(0, i as int));
            assert(t.last() == s@[i as int]);
        }
        if s[i] != c {
            res.push(s[i]);
        }
        i += 1;
    }
    assert(s@.subrange(0, s@.len() as int) =~= s@);
    res
}

/// `trim_end_matches` with a non-empty pattern.
pub fn trim_end_matches(s: &[char], pat: &[char]) -> (res: Vec<char>)
    requires
        pat@.len() > 0,
    ensures
        res@ == trim_end_all(s@, pat@),
{
    let mut k: usize = s.len();
    let mut cur = slice_of(s, 0, k);
    proof {
        assert(cur@ =~= s@);
    }
    while k >= pat.len() && has_suffix(&cur, pat)
        invariant
            k <= s@.len(),
            pat@.len() > 0,
            cur@ == s@.subrange(0, k as int),
            trim_end_all(s@, pat@) == trim_end_all(cur@, pat@),
        decreases k,
    {
        let nk = k - pat.len();
        let next = slice_of(s, 0, nk);
        proof {
            assert(cur@.subrange(0, cur@.len() - pat@.len()) =~= next@);
        }
        k = nk;
        cur = next;
    }
    cur
}

/// `trim_start_matches` with a non-empty pattern.
pub fn trim_start_matches(s: &[char], pat: &[char]) -> (res: Vec<char>)
    requires
        pat@.len() > 0,
    ensures
        res@ == trim_start_all(s@, pat@),
{
    let mut i: usize = 0;
    let mut cur = slice_of(s, 0, s.len());
    proof {
        assert(cur@ =~= s@);
    }
    while pat.len() <= s.len() - i && has_prefix(&cur, pat)
        invariant
            i <= s@.len(),
            pat@.len() > 0,
            cur@ == s@.subrange(i as int, s@.len() as int),
            trim_start_all(s@, pat@) == trim_start_all(cur@, pat@),
        decreases s@.len() - i,
    {
        let ni = i + pat.len();
        let next = slice_of(s, ni, s.len());
        proof {
            assert(cur@.subrange(pat@.len() as int, cur@.len() as int) =~= next@);
        }
        i = ni;
        cur = next;
    }
    cur
}

proof fn lemma_digits_value_push(s: Seq<char>, c: char)
    ensures
        digits_value(s.push(c)) == digits_value(s) * 10 + (c as int - '0' as int),
{
    assert(s.push(c).drop_last() =~= s);
}

proof fn lemma_digits_value_nonneg(s: Seq<char>)
    requires
        all_digits(s),
    ensures
        digits_value(s) >= 0,
    decreases s.len(),
{
    if s.len() > 0 {
        assert(all_digits(s.drop_last()));
        assert(is_digit(s[s.len() - 1]));
        lemma_digits_value_nonneg(s.drop_last());
    }
}

proof fn lemma_digits_value_mono(s: Seq<char>, i: int)
    requires
        all_digits(s),
        0 <= i <= s.len(),
    ensures
        digits_value(s.subrange(0, i)) <= digits_value(s),
    decreases s.len() - i,
{
    if i < s.len() {
        let t = s.drop_last();
        assert(all_digits(t));
        assert(t.subrange(0, i) =~= s.subrange(0, i));
        lemma_digits_value_mono(t, i);
        lemma_digits_value_nonneg(t);
        assert(is_digit(s[s.len() - 1]));
    } else {
        assert(s.subrange(0, i) =~= s);
    }
}

/// Value of the decimal digits of `s` if all are digits and the value is at most `bound`.
fn digits_upto(s: &[char], bound: u64) -> (r: Option<u64>)
    requires
        bound >= 9,
    ensures
        match r {
            Some(v) => s@.len() > 0 && all_digits(s@) && v == digits_value(s@) && v <= bound,
            None => !(s@.len() > 0 && all_digits(s@) && digits_value(s@) <= bound),
        },
{
    if s.len() == 0 {
        return None;
    }
    let mut v: u64 = 0;
    let mut i: usize = 0;
    while i < s.len()
        invariant
            i <= s@.len(),
            all_digits(s@.subrange(0, i as int)),
            v == digits_value(s@.subrange(0, i as int)),
            v <= bound,
            bound >= 9,
        decreases s@.len() - i,
    {
        let c = s[i];
        proof {
            assert(s@.subrange(0, i as int + 1) =~= s@.subrange(0, i as int).push(c));
            lemma_digits_value_push(s@.subrange(0, i as int), c);
        }
        if !('0' <= c && c <= '9') {
            proof {
                assert(!is_digit(s@[i as int]));
            }
            return None;
        }
        let d = (c as u32 - '0' as u32) as u64;
        if v > (bound - d) / 10 {
            proof {
                assert(digits_value(s@.subrange(0, i as int + 1)) > bound) by (nonlinear_arith)
                    requires
                        v > (bound - d) / 10,
                        d <= 9,
                        d <= bound || d > bound,
                        digits_value(s@.subrange(0, i as int + 1)) == v * 10 + d,
                ;
                if all_digits(s@) {
                    lemma_digits_value_mono(s@, i as int + 1);
                }
            }
            return None;
        }
        proof {
            assert(v * 10 + d <= bound) by (nonlinear_arith)
                requires
                    v <= (bound - d) / 10,
                    d <= bound,
            ;
        }
        v = v * 10 + d;
        i += 1;
    }
    assert(s@.subrange(0, s@.len() as int) =~= s@);
    Some(v)
}

/// `u32::from_str` on a character sequence.
pub fn parse_u32(s: &[char]) -> (r: Option<u32>)
    ensures
        r == spec_parse_u32(s@),
{
    let body = if s.len() > 0 && s[0] == '+' {
        slice_of(s, 1, s.len())
    } else {
        slice_of(s, 0, s.len())
    };
    proof {
        assert(s@.subrange(0, s@.len() as int) =~= s@);
        if s@.len() > 0 && s@[0] == '+' {
            assert(s@.subrange(1, s@.len() as int) =~= s@.drop_first());
        }
    }
    match digits_upto(&body, 4294967295) {
        Some(v) => Some(v as u32),
        None => None,
    }
}

/// `usize::from_str` on a character sequence.
pub fn parse_usize(s: &[char]) -> (r: Option<usize>)
    ensures
        r == spec_parse_usize(s@),
{
    let body = if s.len() > 0 && s[0] == '+' {
        slice_of(s, 1, s.len())
    } else {
        slice_of(s, 0, s.len())
    };
    proof {
        assert(s@.subrange(0, s@.len() as int) =~= s@);
        if s@.len() > 0 && s@[0] == '+' {
            assert(s@.subrange(1, s@.len() as int) =~= s@.drop_first());
        }
    }
    match digits_upto(&body, usize::MAX as u64) {
        Some(v) => Some(v as usize),
        None => None,
    }
}

/// `i64::from_str` on a character sequence.
pub fn parse_i64(s: &[char]) -> (r: Option<i64>)
    ensures
        r == spec_parse_i64(s@),
{
    let neg = s.len() > 0 && s[0] == '-';
    let body = if s.len() > 0 && (s[0] == '+' || s[0] == '-') {
        slice_of(s, 1, s.len())
    } else {
        slice_of(s, 0, s.len())
    };
    proof {
        assert(s@.subrange(0, s@.len() as int) =~= s@);
        if s@.len() > 0 && (s@[0] == '+' || s@[0] == '-') {
            assert(s@.subrange(1, s@.len() as int) =~= s@.drop_first());
        }
    }
    let bound: u64 = if neg {
        9223372036854775808
    } else {
        9223372036854775807
    };
    match digits_upto(&body, bound) {
        Some(v) => {
            if neg {
                if v == 9223372036854775808 {
                    Some(i64::MIN)
                } else {
                    Some(-(v as i64))
                }
            } else {
                Some(v as i64)
            }
        },
        None => None,
    }
}


/// The ASCII digit for a value below ten.
pub open spec fn digit_char(n: int) -> char {
    (n + 48) as char
}

/// Decimal representation of a natural number, without leading zeros.
pub open spec fn dec(n: nat) -> Seq<char>
    decreases n,
{
    if n < 10 {
        seq![digit_char(n as int)]
    } else {
        dec(n / 10).push(digit_char((n % 10) as int))
    }
}

/// `Display` of a signed integer: a minus sign for negative values, then the digits.
pub open spec fn int_text(n: int) -> Seq<char> {
    if n < 0 {
        seq!['-'] + dec((-n) as nat)
    } else {
        dec(n as nat)
    }
}

/// `s` left-padded with zeros to at least `w` characters.
pub open spec fn zero_pad(s: Seq<char>, w: nat) -> Seq<char> {
    if s.len() >= w {
        s
    } else {
        Seq::new((w - s.len()) as nat, |i: int| '0') + s
    }
}

fn digit_of(n: u64) -> (c: char)
    requires
        n < 10,
    ensures
        c == digit_char(n as int),
{
    let b: u8 = (n as u8) + 48;
    b as char
}

/// Decimal digits of `n`.
pub fn dec_chars(n: u64) -> (res: Vec<char>)
    ensures
        res@ == dec(n as nat),
    decreases n,
{
    if n < 10 {
        let mut v: Vec<char> = Vec::new();
        v.push(digit_of(n));
        v
    } else {
        let mut v = dec_chars(n / 10);
        v.push(digit_of(n % 10));
        v
    }
}

/// `Display` of an `i64`.
pub fn int_chars(n: i64) -> (res: Vec<char>)
    ensures
        res@ == int_text(n as int),
{
    if n < 0 {
        let mag: u64 = if n == i64::MIN {
            9223372036854775808
        } else {
            (-n) as u64
        };
        let mut v: Vec<char> = Vec::new();
        v.push('-');
        let mut d = dec_chars(mag);
        v.append(&mut d);
        v
    } else {
        dec_chars(n as u64)
    }
}

/// `s` left-padded with zeros to at least `w` characters.
pub fn zero_padded(s: Vec<char>, w: usize) -> (res: Vec<char>)
    ensures
        res@ == zero_pad(s@, w as nat),
{
    if s.len() >= w {
        return s;
    }
    let mut v: Vec<char> = Vec::new();
    let k = w - s.len();
    let mut i: usize = 0;
    while i < k
        invariant
            i <= k,
            v@ == Seq::new(i as nat, |j: int| '0'),
        decreases k - i,
    {
        v.push('0');
        i += 1;
        assert(v@ =~= Seq::new(i as nat, |j: int| '0'));
    }
    let mut s = s;
    v.append(&mut s);
    v
}

/// Appends the characters of a string literal.
pub fn push_str(out: &mut Vec<char>, s: &str)
    ensures
        final(out)@ == old(out)@ + s@,
{
    let mut v = chars_of(s);
    out.append(&mut v);
}

/// Appends a character sequence.
pub fn push_chars(out: &mut Vec<char>, s: &[char])
    ensures
        final(out)@ == old(out)@ + s@,
{
    let mut i: usize = 0;
    let ghost start = out@;
    while i < s.len()
        invariant
            i <= s@.len(),
            out@ == start + s@.subrange(0, i as int),
        decreases s@.len() - i,
    {
        out.push(s[i]);
        i += 1;
        assert(out@ =~= start + s@.subrange(0, i as int));
    }
    assert(s@.subrange(0, s@.len() as int) =~= s@);
}


/// The pieces of `s` between occurrences of `c`, as `str::split(c)` gives them.
pub open spec fn split_char(s: Seq<char>, c: char) -> Seq<Seq<char>>
    decreases s.len(),
{
    if s.len() == 0 {
        seq![Seq::empty()]
    } else {
        let rest = split_char(s.drop_first(), c);
        if s[0] == c {
            seq![Seq::empty()] + rest
        } else {
            rest.update(0, seq![s[0]] + rest[0])
        }
    }
}

pub proof fn lemma_split_char_nonempty(s: Seq<char>, c: char)
    ensures
        split_char(s, c).len() >= 1,
    decreases s.len(),
{
    if s.len() > 0 {
        lemma_split_char_nonempty(s.drop_first(), c);
    }
}

/// `split_char` of the suffix of `s` from `i`.
pub fn split_from(s: &[char], c: char, i: usize) -> (r: Vec<Vec<char>>)
    requires
        i <= s@.len(),
    ensures
        r@.len() == split_char(s@.subrange(i as int, s@.len() as int), c).len(),
        forall|k: int|
            0 <= k < r@.len() ==> #[trigger] r@[k]@ == split_char(
                s@.subrange(i as int, s@.len() as int),
                c,
            )[k],
    decreases s@.len() - i,
{
    let ghost t = s@.subrange(i as int, s@.len() as int);
    if i == s.len() {
        let mut r: Vec<Vec<char>> = Vec::new();
        r.push(Vec::new());
        proof {
            assert(t.len() == 0);
            assert(r@[0]@ =~= Seq::<char>::empty());
        }
        return r;
    }
    proof {
        assert(t.drop_first() =~= s@.subrange(i as int + 1, s@.len() as int));
        assert(t[0] == s@[i as int]);
        lemma_split_char_nonempty(t.drop_first(), c);
    }
    let mut rest = split_from(s, c, i + 1);
    let ghost wr = split_char(t.drop_first(), c);
    if s[i] == c {
        let mut res: Vec<Vec<char>> = Vec::new();
        res.push(Vec::new());
        let ghost before = rest@;
        res.append(&mut rest);
        proof {
            let w = split_char(t, c);
            assert(w == seq![Seq::<char>::empty()] + wr);
            assert forall|k: int| 0 <= k < res@.len() implies #[trigger] res@[k]@ == w[k] by {
                if k == 0 {
                    assert(res@[0]@ =~= Seq::<char>::empty());
                } else {
                    assert(res@[k] == before[k - 1]);
                }
            }
        }
        res
    } else {
        let mut first: Vec<char> = Vec::new();
        first.push(s[i]);
        let mut old_first = rest[0].clone();
        proof {
            assert(old_first@ == rest@[0]@);
        }
        first.append(&mut old_first);
        let ghost before = rest@;
        rest.set(0, first);
        proof {
            let w = split_char(t, c);
            assert(w == wr.update(0, seq![t[0]] + wr[0]));
            assert forall|k: int| 0 <= k < rest@.len() implies #[trigger] rest@[k]@ == w[k] by {
                if k != 0 {
                    assert(rest@[k] == before[k]);
                }
            }
        }
        rest
    }
}

/// The pieces joined with `sep` between them.
pub open spec fn join(parts: Seq<Seq<char>>, sep: Seq<char>) -> Seq<char>
    decreases parts.len(),
{
    if parts.len() == 0 {
        Seq::empty()
    } else if parts.len() == 1 {
        parts[0]
    } else {
        join(parts.drop_last(), sep) + sep + parts.last()
    }
}

/// Joins pieces with a separator.
pub fn join_chars(parts: &Vec<Vec<char>>, sep: &str) -> (r: Vec<char>)
    ensures
        r@ == join(parts@.map_values(|p: Vec<char>| p@), sep@),
{
    let ghost views = parts@.map_values(|p: Vec<char>| p@);
    let mut out: Vec<char> = Vec::new();
    let mut i: usize = 0;
    while i < parts.len()
        invariant
            i <= parts@.len(),
            views == parts@.map_values(|p: Vec<char>| p@),
            out@ == join(views.subrange(0, i as int), sep@),
        decreases parts@.len() - i,
    {
        proof {
            let next = views.subrange(0, i as int + 1);
            assert(next.drop_last() =~= views.subrange(0, i as int));
            assert(next.last() == parts@[i as int]@);
        }
        if i > 0 {
            push_str(&mut out, sep);
        } else {
            proof {
                assert(out@ =~= Seq::<char>::empty());
            }
        }
        let p = &parts[i];
        push_chars(&mut out, p.as_slice());
        i += 1;
        proof {
            let next = views.subrange(0, i as int);
            if i == 1 {
                assert(out@ =~= next[0]);
            }
        }
    }
    assert(views.subrange(0, parts@.len() as int) =~= views);
    out
}

} // verus!

verus! {

/// Whether `p` occurs in `s` as a contiguous piece (`str::contains` with a string pattern).
pub open spec fn contains_text(s: Seq<char>, p: Seq<char>) -> bool {
    exists|i: int| 0 <= i && i + p.len() <= s.len() && #[trigger] s.subrange(i, i + p.len()) == p
}

/// Whether `p` occurs in `s`.
pub fn contains_chars(s: &[char], p: &[char]) -> (r: bool)
    ensures
        r == contains_text(s@, p@),
{
    if p.len() == 0 {
        assert(s@.subrange(0int, 0int + p@.len()) =~= p@);
        return true;
    }
    if p.len() > s.len() {
        return false;
    }
    let last = s.len() - p.len();
    let mut i: usize = 0;
    while i <= last
        invariant
            1 <= p@.len(),
            last + p@.len() == s@.len(),
            s@.len() == s.len(),
            p@.len() == p.len(),
            i <= last + 1,
            forall|j: int| 0 <= j < i ==> #[trigger] s@.subrange(j, j + p@.len()) != p@,
        decreases last + 1 - i,
    {
        let piece = slice_of(s, i, i + p.len());
        if chars_eq(&piece, p) {
            return true;
        }
        i += 1;
    }
    proof {
        assert forall|j: int| 0 <= j && j + p@.len() <= s@.len() implies #[trigger] s@.subrange(
            j,
            j + p@.len(),
        ) != p@ by {
            assert(j < i);
        }
    }
    false
}

} // verus!
