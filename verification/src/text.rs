//! Character classes and small string utilities used by the validators
//! and the record parsers.
//!
//! Unicode-dependent predicates (`char::is_alphabetic`,
//! `char::is_whitespace`) and Unicode case folding (`str::to_lowercase`)
//! are reached through trusted wrappers; everything built on top of them
//! (trimming, scanning, digit parsing) is verified.

use vstd::prelude::*;
use vstd::string::StrSliceExecFns;

verus! {

/// What `char::is_alphabetic` returns: a function of the character alone.
pub uninterp spec fn is_alpha(c: char) -> bool;

/// What `char::is_whitespace` returns: a function of the character alone.
pub uninterp spec fn is_white(c: char) -> bool;

/// What `str::to_lowercase` returns: a function of the characters alone.
pub uninterp spec fn lower_of(s: Seq<char>) -> Seq<char>;

/// Relies on `char::is_alphabetic`: whether the character is in the
/// Unicode Alphabetic category; the result depends on the character alone.
#[verifier::external_body]
pub fn char_is_alphabetic(c: char) -> (r: bool)
    ensures
        r == is_alpha(c),
{
    c.is_alphabetic()
}

/// Relies on `char::is_whitespace`: whether the character has the Unicode
/// White_Space property; the result depends on the character alone.
#[verifier::external_body]
pub fn char_is_whitespace(c: char) -> (r: bool)
    ensures
        r == is_white(c),
{
    c.is_whitespace()
}

/// Relies on `str::to_lowercase`: the result depends on the characters
/// alone, and lowercasing an empty string yields an empty string.
#[verifier::external_body]
pub fn lowercase(s: &str) -> (r: String)
    ensures
        r@ == lower_of(s@),
        s@.len() == 0 ==> r@.len() == 0,
{
    s.to_lowercase()
}

/// Relies on `String::push`: appends the given character to the end.
#[verifier::external_body]
pub fn push_char(s: &mut String, c: char)
    ensures
        final(s)@ == old(s)@.push(c),
{
    s.push(c)
}

/// An ASCII decimal digit, `'0'` (code 48) through `'9'` (code 57).
pub open spec fn is_digit_char(c: char) -> bool {
    48 <= c as u32 <= 57
}

/// The numeric value of an ASCII decimal digit.
pub open spec fn digit_val(c: char) -> int {
    c as u32 - 48
}

/// An ASCII letter, `'A'`..`'Z'` or `'a'`..`'z'`.
pub open spec fn is_ascii_letter_char(c: char) -> bool {
    (65 <= c as u32 <= 90) || (97 <= c as u32 <= 122)
}

/// An ASCII letter or digit.
pub open spec fn is_ascii_alnum_char(c: char) -> bool {
    is_digit_char(c) || is_ascii_letter_char(c)
}

/// ASCII punctuation: `!`..`/`, `:`..`@`, `[`..`` ` ``, `{`..`~`.
pub open spec fn is_ascii_punct_char(c: char) -> bool {
    (33 <= c as u32 <= 47) || (58 <= c as u32 <= 64) || (91 <= c as u32 <= 96) || (123 <= c as u32
        <= 126)
}

pub fn is_digit(c: char) -> (r: bool)
    ensures
        r == is_digit_char(c),
{
    let u: u32 = c as u32;
    48 <= u && u <= 57
}

pub fn is_ascii_alnum(c: char) -> (r: bool)
    ensures
        r == is_ascii_alnum_char(c),
{
    let u: u32 = c as u32;
    (48 <= u && u <= 57) || (65 <= u && u <= 90) || (97 <= u && u <= 122)
}

pub fn is_ascii_letter(c: char) -> (r: bool)
    ensures
        r == is_ascii_letter_char(c),
{
    let u: u32 = c as u32;
    (65 <= u && u <= 90) || (97 <= u && u <= 122)
}

pub fn is_ascii_punct(c: char) -> (r: bool)
    ensures
        r == is_ascii_punct_char(c),
{
    let u: u32 = c as u32;
    (33 <= u && u <= 47) || (58 <= u && u <= 64) || (91 <= u && u <= 96) || (123 <= u && u <= 126)
}

/// The first index at or after `i` where `c` occurs in `s`, or `s.len()`.
pub open spec fn find_from(s: Seq<char>, c: char, i: int) -> int
    decreases s.len() - i,
{
    if i < 0 || i >= s.len() {
        s.len() as int
    } else if s[i] == c {
        i
    } else {
        find_from(s, c, i + 1)
    }
}

/// Finds the first occurrence of `c` in `s` at or after `start`.
pub fn find_char(s: &str, c: char, start: usize) -> (r: usize)
    requires
        start <= s@.len(),
    ensures
        r == find_from(s@, c, start as int),
        start <= r <= s@.len(),
    decreases s@.len() - start,
{
    let n = s.unicode_len();
    if start == n {
        return start;
    }
    if s.get_char(start) == c {
        start
    } else {
        find_char(s, c, start + 1)
    }
}

/// The first index at or after `i` holding a non-whitespace character,
/// or `s.len()` if there is none.
pub open spec fn first_in_from(s: Seq<char>, i: int) -> int
    decreases s.len() - i,
{
    if i < 0 || i >= s.len() {
        s.len() as int
    } else if !is_white(s[i]) {
        i
    } else {
        first_in_from(s, i + 1)
    }
}

/// The last index before `i` holding a non-whitespace character, or `-1`.
pub open spec fn last_in_before(s: Seq<char>, i: int) -> int
    decreases i,
{
    if i <= 0 || i > s.len() {
        -1
    } else if !is_white(s[i - 1]) {
        i - 1
    } else {
        last_in_before(s, i - 1)
    }
}

/// `s` with leading and trailing whitespace removed, whitespace being
/// what `char::is_whitespace` accepts.
pub open spec fn trim_spec(s: Seq<char>) -> Seq<char> {
    let a = first_in_from(s, 0);
    let b = last_in_before(s, s.len() as int);
    if a > b {
        Seq::empty()
    } else {
        s.subrange(a, b + 1)
    }
}

fn skip_white_from(s: &str, n: usize, from: usize) -> (r: usize)
    requires
        n == s@.len(),
        from <= n,
    ensures
        r == first_in_from(s@, from as int),
        from <= r <= n,
    decreases n - from,
{
    if from == n {
        return from;
    }
    let c = s.get_char(from);
    if char_is_whitespace(c) {
        skip_white_from(s, n, from + 1)
    } else {
        from
    }
}

fn trim_end_idx(s: &str, i: usize) -> (r: usize)
    requires
        i <= s@.len(),
    ensures
        r == last_in_before(s@, i as int) + 1,
        r <= i,
    decreases i,
{
    if i == 0 {
        return 0;
    }
    let c = s.get_char(i - 1);
    if char_is_whitespace(c) {
        trim_end_idx(s, i - 1)
    } else {
        i
    }
}

/// Removes leading and trailing whitespace, as `str::trim` would.
pub fn trim_str(s: &str) -> (r: String)
    ensures
        r@ == trim_spec(s@),
{
    let n = s.unicode_len();
    let a = skip_white_from(s, n, 0);
    let b1 = trim_end_idx(s, n);
    if a >= b1 {
        let r = String::new();
        assert(r@ =~= trim_spec(s@));
        r
    } else {
        let sub = s.substring_char(a, b1);
        sub.to_owned()
    }
}

/// Whether some character of `s` is alphabetic.
pub fn contains_alpha(s: &str) -> (r: bool)
    ensures
        r == exists|i: int| 0 <= i < s@.len() && is_alpha(s@[i]),
{
    let n = s.unicode_len();
    let mut i: usize = 0;
    while i < n
        invariant
            n == s@.len(),
            i <= n,
            forall|j: int| 0 <= j < i ==> !is_alpha(s@[j]),
        decreases n - i,
    {
        if char_is_alphabetic(s.get_char(i)) {
            assert(is_alpha(s@[i as int]));
            return true;
        }
        i += 1;
    }
    false
}

/// Whether some character of `s` is an ASCII letter or digit.
pub fn contains_ascii_alnum(s: &str) -> (r: bool)
    ensures
        r == exists|i: int| 0 <= i < s@.len() && is_ascii_alnum_char(s@[i]),
{
    let n = s.unicode_len();
    let mut i: usize = 0;
    while i < n
        invariant
            n == s@.len(),
            i <= n,
            forall|j: int| 0 <= j < i ==> !is_ascii_alnum_char(s@[j]),
        decreases n - i,
    {
        if is_ascii_alnum(s.get_char(i)) {
            assert(is_ascii_alnum_char(s@[i as int]));
            return true;
        }
        i += 1;
    }
    false
}

/// Whether every character of `s` is ASCII punctuation.
pub fn all_ascii_punct(s: &str) -> (r: bool)
    ensures
        r == forall|i: int| 0 <= i < s@.len() ==> is_ascii_punct_char(s@[i]),
{
    let n = s.unicode_len();
    let mut i: usize = 0;
    while i < n
        invariant
            n == s@.len(),
            i <= n,
            forall|j: int| 0 <= j < i ==> is_ascii_punct_char(s@[j]),
        decreases n - i,
    {
        if !is_ascii_punct(s.get_char(i)) {
            return false;
        }
        i += 1;
    }
    true
}

/// Character-for-character string equality.
pub fn str_eq(a: &str, b: &str) -> (r: bool)
    ensures
        r == (a@ == b@),
{
    let na = a.unicode_len();
    let nb = b.unicode_len();
    if na != nb {
        return false;
    }
    let mut i: usize = 0;
    while i < na
        invariant
            na == a@.len(),
            na == b@.len(),
            i <= na,
            forall|j: int| 0 <= j < i ==> a@[j] == b@[j],
        decreases na - i,
    {
        if a.get_char(i) != b.get_char(i) {
            return false;
        }
        i += 1;
    }
    proof {
        assert(a@ =~= b@);
    }
    true
}

/// Every character of `s` is an ASCII decimal digit.
pub open spec fn all_digits(s: Seq<char>) -> bool {
    forall|i: int| 0 <= i < s.len() ==> is_digit_char(s[i])
}

/// The number denoted by a sequence of decimal digits, most significant
/// digit first.
pub open spec fn digits_val(s: Seq<char>) -> int
    decreases s.len(),
{
    if s.len() == 0 {
        0
    } else {
        digits_val(s.drop_last()) * 10 + digit_val(s.last())
    }
}

pub proof fn lemma_digits_val_nonneg(s: Seq<char>)
    requires
        all_digits(s),
    ensures
        digits_val(s) >= 0,
    decreases s.len(),
{
    if s.len() > 0 {
        lemma_digits_val_nonneg(s.drop_last());
    }
}

/// Parses `s[from..to]` as an unsigned decimal number.  Returns the value
/// when the range is non-empty, all digits, and the value fits in `u32`;
/// returns `None` otherwise.
pub fn parse_digits_u32(s: &str, from: usize, to: usize) -> (r: Option<u32>)
    requires
        from <= to <= s@.len(),
    ensures
        ({
            let t = s@.subrange(from as int, to as int);
            &&& (r is Some <==> (t.len() > 0 && all_digits(t) && digits_val(t) <= u32::MAX))
            &&& (r is Some ==> r->0 == digits_val(t))
        }),
{
    if from == to {
        return None;
    }
    let mut acc: u64 = 0;
    let mut i: usize = from;
    while i < to
        invariant
            from <= i <= to <= s@.len(),
            all_digits(s@.subrange(from as int, i as int)),
            acc <= 0x1_0000_0000u64,
            digits_val(s@.subrange(from as int, i as int)) <= u32::MAX ==> acc == digits_val(
                s@.subrange(from as int, i as int),
            ),
            digits_val(s@.subrange(from as int, i as int)) > u32::MAX ==> acc == 0x1_0000_0000u64,
        decreases to - i,
    {
        let c = s.get_char(i);
        if !is_digit(c) {
            assert(!is_digit_char(s@.subrange(from as int, to as int)[i - from]));
            return None;
        }
        let d: u32 = c as u32 - 48;
        let next: u64 = acc * 10 + d as u64;
        proof {
            let p = s@.subrange(from as int, i as int);
            let p2 = s@.subrange(from as int, i + 1);
            assert(p2 =~= p.push(s@[i as int]));
            assert(p2.drop_last() =~= p);
            lemma_digits_val_nonneg(p);
        }
        acc = if next > 0xFFFF_FFFFu64 {
            0x1_0000_0000u64
        } else {
            next
        };
        i += 1;
    }
    if acc > 0xFFFF_FFFFu64 {
        None
    } else {
        Some(acc as u32)
    }
}

} // verus!
