//! Character and string helpers shared by the error messages, the rename
//! rules and the primitive coercions.

use vstd::prelude::*;

verus! {

/// The ASCII digit for a value below ten.
pub open spec fn digit_char(d: nat) -> char {
    if d == 0 { '0' }
    else if d == 1 { '1' }
    else if d == 2 { '2' }
    else if d == 3 { '3' }
    else if d == 4 { '4' }
    else if d == 5 { '5' }
    else if d == 6 { '6' }
    else if d == 7 { '7' }
    else if d == 8 { '8' }
    else { '9' }
}

/// Decimal notation of a natural number, without leading zeros.
pub open spec fn decimal(n: nat) -> Seq<char>
    decreases n,
{
    if n < 10 {
        seq![digit_char(n)]
    } else {
        decimal(n / 10).push(digit_char(n % 10))
    }
}

/// Decimal notation of an integer, with a leading `-` when it is negative.
pub open spec fn signed_decimal(i: int) -> Seq<char> {
    if i < 0 {
        seq!['-'] + decimal((-i) as nat)
    } else {
        decimal(i as nat)
    }
}

/// Appends one character to a string (`String::push`).
#[verifier::external_body]
pub(crate) fn push_char(s: &mut String, c: char)
    ensures
        final(s)@ == old(s)@.push(c),
{
    s.push(c);
}

fn digit_to_char(d: u64) -> (c: char)
    requires
        d < 10,
    ensures
        c == digit_char(d as nat),
{
    if d == 0 { '0' }
    else if d == 1 { '1' }
    else if d == 2 { '2' }
    else if d == 3 { '3' }
    else if d == 4 { '4' }
    else if d == 5 { '5' }
    else if d == 6 { '6' }
    else if d == 7 { '7' }
    else if d == 8 { '8' }
    else { '9' }
}

/// Appends the decimal notation of `n` to `s`.
pub fn push_decimal(s: &mut String, n: u64)
    ensures
        final(s)@ == old(s)@ + decimal(n as nat),
    decreases n,
{
    if n >= 10 {
        push_decimal(s, n / 10);
        push_char(s, digit_to_char(n % 10));
        assert(decimal(n as nat) == decimal((n / 10) as nat).push(digit_char((n % 10) as nat)));
    } else {
        push_char(s, digit_to_char(n));
    }
}

/// Appends the decimal notation of a signed integer to `s`.
pub fn push_signed_decimal(s: &mut String, n: i64)
    ensures
        final(s)@ == old(s)@ + signed_decimal(n as int),
{
    if n < 0 {
        push_char(s, '-');
        let magnitude: u64 = (0i128 - n as i128) as u64;
        push_decimal(s, magnitude);
    } else {
        push_decimal(s, n as u64);
    }
}


/// `c` with ASCII uppercase letters mapped to lowercase (`char::to_ascii_lowercase`).
pub open spec fn ascii_lower(c: char) -> char {
    if 'A' <= c && c <= 'Z' {
        ((c as u32) + 32) as char
    } else {
        c
    }
}

/// `c` with ASCII lowercase letters mapped to uppercase (`char::to_ascii_uppercase`).
pub open spec fn ascii_upper(c: char) -> char {
    if 'a' <= c && c <= 'z' {
        ((c as u32) - 32) as char
    } else {
        c
    }
}

/// Maps a character to its ASCII lowercase counterpart.
pub fn to_ascii_lowercase(c: char) -> (r: char)
    ensures
        r == ascii_lower(c),
{
    if 'A' <= c && c <= 'Z' {
        let b: u8 = c as u8;
        (b + 32) as char
    } else {
        c
    }
}

/// Maps a character to its ASCII uppercase counterpart.
pub fn to_ascii_uppercase(c: char) -> (r: char)
    ensures
        r == ascii_upper(c),
{
    if 'a' <= c && c <= 'z' {
        let b: u8 = c as u8;
        (b - 32) as char
    } else {
        c
    }
}

/// Whether a character is ASCII.
pub open spec fn is_ascii_char(c: char) -> bool {
    (c as u32) < 128
}

/// Whether `c` has the Unicode `Uppercase` property, for characters outside
/// ASCII.
pub uninterp spec fn unicode_uppercase(c: char) -> bool;

/// The Unicode lowercase mapping of `c` (one or more characters), for
/// characters outside ASCII.
pub uninterp spec fn unicode_lowercase(c: char) -> Seq<char>;

/// The Unicode uppercase mapping of `c` (one or more characters), for
/// characters outside ASCII.
pub uninterp spec fn unicode_uppercase_mapping(c: char) -> Seq<char>;

/// Whether `c` has the Unicode `Uppercase` property: among ASCII characters
/// exactly `A` to `Z` have it.
pub open spec fn uppercase(c: char) -> bool {
    if is_ascii_char(c) {
        'A' <= c && c <= 'Z'
    } else {
        unicode_uppercase(c)
    }
}

/// The Unicode lowercase mapping of `c`; an ASCII character maps to its
/// ASCII lowercase counterpart alone.
pub open spec fn lowercase_of(c: char) -> Seq<char> {
    if is_ascii_char(c) {
        seq![ascii_lower(c)]
    } else {
        unicode_lowercase(c)
    }
}

/// The Unicode uppercase mapping of `c`; an ASCII character maps to its
/// ASCII uppercase counterpart alone.
pub open spec fn uppercase_of(c: char) -> Seq<char> {
    if is_ascii_char(c) {
        seq![ascii_upper(c)]
    } else {
        unicode_uppercase_mapping(c)
    }
}

/// `char::is_uppercase`: whether the character has the Unicode `Uppercase`
/// property. Within ASCII that is `A` to `Z`; outside ASCII the property is
/// named, not spelled out.
#[verifier::external_body]
pub(crate) fn is_uppercase(c: char) -> (b: bool)
    ensures
        b == (if is_ascii_char(c) {
            'A' <= c && c <= 'Z'
        } else {
            unicode_uppercase(c)
        }),
{
    c.is_uppercase()
}

/// `char::to_lowercase`, collected into a string: the Unicode lowercase
/// mapping of the character. Within ASCII that is the one ASCII lowercase
/// character; outside ASCII the mapping is named, not spelled out.
#[verifier::external_body]
pub(crate) fn char_to_lowercase(c: char) -> (s: String)
    ensures
        s@ == (if is_ascii_char(c) {
            seq![ascii_lower(c)]
        } else {
            unicode_lowercase(c)
        }),
{
    c.to_lowercase().collect::<String>()
}

/// `char::to_uppercase`, collected into a string: the Unicode uppercase
/// mapping of the character. Within ASCII that is the one ASCII uppercase
/// character; outside ASCII the mapping is named, not spelled out.
#[verifier::external_body]
pub(crate) fn char_to_uppercase(c: char) -> (s: String)
    ensures
        s@ == (if is_ascii_char(c) {
            seq![ascii_upper(c)]
        } else {
            unicode_uppercase_mapping(c)
        }),
{
    c.to_uppercase().collect::<String>()
}

/// Character-by-character equality of two strings.
pub fn str_eq(a: &str, b: &str) -> (r: bool)
    ensures
        r == (a@ == b@),
{
    let n = a.unicode_len();
    let m = b.unicode_len();
    if n != m {
        return false;
    }
    let mut i: usize = 0;
    while i < n
        invariant
            n == a@.len(),
            m == b@.len(),
            n == m,
            i <= n,
            forall|j: int| 0 <= j < i ==> a@[j] == b@[j],
        decreases n - i,
    {
        if a.get_char(i) != b.get_char(i) {
            return false;
        }
        i = i + 1;
    }
    assert(a@ =~= b@);
    true
}


/// Whether `c` has the Unicode `White_Space` property: tab, line feed,
/// vertical tab, form feed, carriage return, space, next line, no-break
/// space, ogham space mark, the spaces from en quad to hair space, line and
/// paragraph separators, narrow no-break space, medium mathematical space
/// and ideographic space.
pub open spec fn white_space(c: char) -> bool {
    let u = c as u32;
    ||| 0x09 <= u <= 0x0D
    ||| u == 0x20
    ||| u == 0x85
    ||| u == 0xA0
    ||| u == 0x1680
    ||| 0x2000 <= u <= 0x200A
    ||| u == 0x2028
    ||| u == 0x2029
    ||| u == 0x202F
    ||| u == 0x205F
    ||| u == 0x3000
}

/// Whether the character has the Unicode `White_Space` property
/// (`char::is_whitespace`).
pub fn is_whitespace(c: char) -> (b: bool)
    ensures
        b == white_space(c),
{
    let u: u32 = c as u32;
    (0x09 <= u && u <= 0x0D) || u == 0x20 || u == 0x85 || u == 0xA0 || u == 0x1680
        || (0x2000 <= u && u <= 0x200A) || u == 0x2028 || u == 0x2029 || u == 0x202F
        || u == 0x205F || u == 0x3000
}

/// `s` without its leading whitespace.
pub open spec fn trim_start(s: Seq<char>) -> Seq<char>
    decreases s.len(),
{
    if s.len() > 0 && white_space(s[0]) {
        trim_start(s.drop_first())
    } else {
        s
    }
}

/// `s` without its trailing whitespace.
pub open spec fn trim_end(s: Seq<char>) -> Seq<char>
    decreases s.len(),
{
    if s.len() > 0 && white_space(s.last()) {
        trim_end(s.drop_last())
    } else {
        s
    }
}

/// `s` without leading and trailing whitespace (`str::trim`).
pub open spec fn trimmed(s: Seq<char>) -> Seq<char> {
    trim_end(trim_start(s))
}

/// `s` without any trailing `c` (`str::trim_end_matches` with a character).
pub open spec fn trim_end_char(s: Seq<char>, c: char) -> Seq<char>
    decreases s.len(),
{
    if s.len() > 0 && s.last() == c {
        trim_end_char(s.drop_last(), c)
    } else {
        s
    }
}

/// Removes leading and trailing whitespace.
pub fn trim(s: &str) -> (r: &str)
    ensures
        r@ == trimmed(s@),
{
    let n = s.unicode_len();
    let mut i: usize = 0;
    assert(s@.subrange(0, n as int) =~= s@);
    while i < n && is_whitespace(s.get_char(i))
        invariant
            n == s@.len(),
            i <= n,
            trim_start(s@) == trim_start(s@.subrange(i as int, n as int)),
        decreases n - i,
    {
        assert(s@.subrange(i as int, n as int).drop_first() =~= s@.subrange(i + 1, n as int));
        i = i + 1;
    }
    assert(trim_start(s@.subrange(i as int, n as int)) == s@.subrange(i as int, n as int));
    let mut j: usize = n;
    while j > i && is_whitespace(s.get_char(j - 1))
        invariant
            n == s@.len(),
            i <= j <= n,
            trim_end(s@.subrange(i as int, n as int)) == trim_end(
                s@.subrange(i as int, j as int),
            ),
        decreases j,
    {
        assert(s@.subrange(i as int, j as int).drop_last() =~= s@.subrange(i as int, j - 1));
        j = j - 1;
    }
    s.substring_char(i, j)
}

/// Removes every trailing occurrence of `c`.
pub fn trim_end_matches_char(s: &str, c: char) -> (r: &str)
    ensures
        r@ == trim_end_char(s@, c),
{
    let n = s.unicode_len();
    let mut j: usize = n;
    assert(s@.subrange(0, n as int) =~= s@);
    while j > 0 && s.get_char(j - 1) == c
        invariant
            n == s@.len(),
            j <= n,
            trim_end_char(s@, c) == trim_end_char(s@.subrange(0, j as int), c),
        decreases j,
    {
        assert(s@.subrange(0, j as int).drop_last() =~= s@.subrange(0, j - 1));
        j = j - 1;
    }
    s.substring_char(0, j)
}

} // verus!
