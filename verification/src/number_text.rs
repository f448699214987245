//! The text handling behind lenient number reading: finding the one number
//! in text such as `$1,234.56`, `¥1,234` or `50%`, and splitting a fraction
//! such as `1/2` into its two sides. Only turning the resulting text into a
//! float is left to floating-point arithmetic.

use vstd::prelude::*;
use crate::error::opt_view;
use crate::numbers::is_digit;
use crate::text::{push_char, trim, trim_end_char, trim_end_matches_char, trimmed};

verus! {

/// The matches, left to right and not overlapping, of the number pattern
/// `([-+]?)\$?(?:\d+(?:,\d+)*(?:\.\d+)?|\d+\.\d+|\d+|\.\d+)(?:e[-+]?\d+)?%?`
/// in `s`.
pub uninterp spec fn number_pattern_matches(s: Seq<char>) -> Seq<Seq<char>>;

/// `regex::Regex::find_iter` with the number pattern: the text of every
/// match, left to right. What the regex engine matches is named, not
/// spelled out.
#[verifier::external_body]
fn find_number_matches(s: &str) -> (m: Vec<String>)
    ensures
        m@.map_values(|t: String| t@) == number_pattern_matches(s@),
{
    let re = regex::Regex::new(r"([-+]?)\$?(?:\d+(?:,\d+)*(?:\.\d+)?|\d+\.\d+|\d+|\.\d+)(?:e[-+]?\d+)?%?").unwrap();
    re.find_iter(s).map(|found| found.as_str().to_owned()).collect()
}

/// `s` with every character of the Unicode general category `Sc`
/// (currency symbol) removed.
pub uninterp spec fn currency_removed(s: Seq<char>) -> Seq<char>;

/// `regex::Regex::replace_all` with the pattern `\p{Sc}` and an empty
/// replacement: the text without its currency symbols. Which characters
/// the category holds is named, not spelled out.
#[verifier::external_body]
fn remove_currency_symbols(s: &str) -> (r: String)
    ensures
        r@ == currency_removed(s@),
{
    let re = regex::Regex::new(r"\p{Sc}").unwrap();
    re.replace_all(s, "").into_owned()
}

/// `s` without its commas (`str::replace(',', "")`).
pub open spec fn without_commas(s: Seq<char>) -> Seq<char>
    decreases s.len(),
{
    if s.len() == 0 {
        s
    } else if s.last() == ',' {
        without_commas(s.drop_last())
    } else {
        without_commas(s.drop_last()).push(s.last())
    }
}

fn remove_commas(s: &str) -> (r: String)
    ensures
        r@ == without_commas(s@),
{
    let n = s.unicode_len();
    let mut out = String::new();
    let mut i: usize = 0;
    assert(s@.take(0) =~= Seq::<char>::empty());
    while i < n
        invariant
            n == s@.len(),
            i <= n,
            out@ == without_commas(s@.take(i as int)),
        decreases n - i,
    {
        let c = s.get_char(i);
        let ghost t = s@.take(i + 1);
        assert(t.drop_last() =~= s@.take(i as int));
        assert(t.last() == c);
        if c != ',' {
            push_char(&mut out, c);
        }
        i = i + 1;
    }
    assert(s@.take(n as int) =~= s@);
    out
}

/// Whether position `i` of `s` holds a `.` or `,` with an ASCII digit on
/// each side.
pub open spec fn separator_between_digits(s: Seq<char>, i: int) -> bool {
    &&& 0 < i < s.len() - 1
    &&& (s[i] == '.' || s[i] == ',')
    &&& is_digit(s[i - 1])
    &&& is_digit(s[i + 1])
}

/// Whether `s` writes its number the European way, as in `€1.234,56`: it
/// has a `.` and a `,` between digits, and its last such `,` comes after
/// every such `.`, so the dots group thousands and the comma marks the
/// decimals.
pub open spec fn european_format(s: Seq<char>) -> bool {
    &&& exists|j: int| separator_between_digits(s, j) && s[j] == '.'
    &&& exists|i: int|
        separator_between_digits(s, i) && s[i] == ',' && forall|j: int|
            #![trigger separator_between_digits(s, j)]
            separator_between_digits(s, j) && s[j] == '.' ==> j < i
}

/// What position `i` contributes when European separators are rewritten: a
/// thousands `.` between digits is dropped, a decimal `,` between digits
/// becomes `.`, anything else stays.
pub open spec fn european_piece(s: Seq<char>, i: int) -> Seq<char> {
    if separator_between_digits(s, i) {
        if s[i] == '.' {
            Seq::empty()
        } else {
            seq!['.']
        }
    } else {
        seq![s[i]]
    }
}

/// The first `n` characters of `s` with European separators rewritten.
pub open spec fn european_rewritten(s: Seq<char>, n: nat) -> Seq<char>
    decreases n,
{
    if n == 0 {
        Seq::empty()
    } else {
        european_rewritten(s, (n - 1) as nat) + european_piece(s, n - 1)
    }
}

/// The text the number pattern is run on: European notation rewritten to
/// the usual one (`€1.234,56` becomes `€1234.56`), any other text as it is.
pub open spec fn number_source(s: Seq<char>) -> Seq<char> {
    if european_format(s) {
        european_rewritten(s, s.len())
    } else {
        s
    }
}

fn ascii_digit(c: char) -> (b: bool)
    ensures
        b == is_digit(c),
{
    '0' <= c && c <= '9'
}

fn separator_at(s: &str, i: usize) -> (b: bool)
    requires
        i < s@.len(),
    ensures
        b == separator_between_digits(s@, i as int),
{
    let n = s.unicode_len();
    if i == 0 || i + 1 >= n {
        return false;
    }
    let c = s.get_char(i);
    (c == '.' || c == ',') && ascii_digit(s.get_char(i - 1)) && ascii_digit(s.get_char(i + 1))
}

fn is_european(s: &str) -> (b: bool)
    ensures
        b == european_format(s@),
{
    let n = s.unicode_len();
    let mut last_dot: Option<usize> = None;
    let mut last_comma: Option<usize> = None;
    let mut i: usize = 0;
    while i < n
        invariant
            n == s@.len(),
            i <= n,
            match last_dot {
                Some(d) => d < i && separator_between_digits(s@, d as int) && s@[d as int] == '.'
                    && forall|j: int|
                    #![trigger separator_between_digits(s@, j)]
                    0 <= j < i && separator_between_digits(s@, j) && s@[j] == '.' ==> j <= d,
                None => forall|j: int|
                    #![trigger separator_between_digits(s@, j)]
                    0 <= j < i && separator_between_digits(s@, j) ==> s@[j] != '.',
            },
            match last_comma {
                Some(c) => c < i && separator_between_digits(s@, c as int) && s@[c as int] == ','
                    && forall|j: int|
                    #![trigger separator_between_digits(s@, j)]
                    0 <= j < i && separator_between_digits(s@, j) && s@[j] == ',' ==> j <= c,
                None => forall|j: int|
                    #![trigger separator_between_digits(s@, j)]
                    0 <= j < i && separator_between_digits(s@, j) ==> s@[j] != ',',
            },
        decreases n - i,
    {
        if separator_at(s, i) {
            if s.get_char(i) == '.' {
                last_dot = Some(i);
            } else {
                last_comma = Some(i);
            }
        }
        i = i + 1;
    }
    match (last_dot, last_comma) {
        (Some(d), Some(c)) => {
            if c > d {
                assert(separator_between_digits(s@, d as int) && s@[d as int] == '.');
                assert(separator_between_digits(s@, c as int) && s@[c as int] == ',');
                true
            } else {
                assert(!european_format(s@)) by {
                    if european_format(s@) {
                        let k = choose|k: int|
                            separator_between_digits(s@, k) && s@[k] == ',' && forall|j: int|
                                #![trigger separator_between_digits(s@, j)]
                                separator_between_digits(s@, j) && s@[j] == '.' ==> j < k;
                        assert(separator_between_digits(s@, d as int));
                    }
                }
                false
            }
        },
        (None, _) => {
            assert(!european_format(s@)) by {
                if european_format(s@) {
                    let k = choose|k: int| separator_between_digits(s@, k) && s@[k] == '.';
                }
            }
            false
        },
        (_, None) => {
            assert(!european_format(s@)) by {
                if european_format(s@) {
                    let k = choose|k: int|
                        separator_between_digits(s@, k) && s@[k] == ',' && forall|j: int|
                            #![trigger separator_between_digits(s@, j)]
                            separator_between_digits(s@, j) && s@[j] == '.' ==> j < k;
                }
            }
            false
        },
    }
}

fn rewrite_european(s: &str) -> (r: String)
    ensures
        r@ == european_rewritten(s@, s@.len()),
{
    let n = s.unicode_len();
    let mut out = String::new();
    let mut i: usize = 0;
    while i < n
        invariant
            n == s@.len(),
            i <= n,
            out@ == european_rewritten(s@, i as nat),
        decreases n - i,
    {
        let c = s.get_char(i);
        if separator_at(s, i) {
            if c == ',' {
                push_char(&mut out, '.');
            }
        } else {
            push_char(&mut out, c);
        }
        assert(european_rewritten(s@, (i + 1) as nat) == european_rewritten(s@, i as nat)
            + european_piece(s@, i as int));
        i = i + 1;
    }
    out
}

/// The number's text from the matches of the number pattern: the one match
/// without commas, without currency symbols and without trailing `%`; none
/// when there is not exactly one match.
pub open spec fn text_from_matches(m: Seq<Seq<char>>) -> Option<Seq<char>> {
    if m.len() == 1 {
        Some(trim_end_char(currency_removed(without_commas(m[0])), '%'))
    } else {
        None
    }
}

/// The text a comma-separated number is read from: the number pattern is
/// run on the text (European notation rewritten first) and must match once.
pub open spec fn comma_number_text(s: Seq<char>) -> Option<Seq<char>> {
    text_from_matches(number_pattern_matches(number_source(s)))
}

/// Turns the matches of the number pattern into the number's text: the one
/// match without commas, without currency symbols and without trailing `%`;
/// none when there is not exactly one match.
pub fn number_text_from_matches(matches: &Vec<String>) -> (r: Option<String>)
    ensures
        opt_view(r) == (if matches@.len() == 1 {
            Some(trim_end_char(currency_removed(without_commas(matches@[0]@)), '%'))
        } else {
            None::<Seq<char>>
        }),
{
    if matches.len() != 1 {
        return None;
    }
    let no_commas = remove_commas(matches[0].as_str());
    let no_currency = remove_currency_symbols(no_commas.as_str());
    let number = trim_end_matches_char(no_currency.as_str(), '%');
    Some(number.to_owned())
}

/// Finds the number in text such as `$1,234.56`, `¥1,234`, `€1.234,56` or
/// `50%` and returns it ready to be read as a float (`1234.56`, `1234`,
/// `1234.56`, `50`); none when the text holds no number or more than one.
pub fn comma_separated_number_text(s: &str) -> (r: Option<String>)
    ensures
        opt_view(r) == comma_number_text(s@),
{
    let matches = if is_european(s) {
        let rewritten = rewrite_european(s);
        find_number_matches(rewritten.as_str())
    } else {
        find_number_matches(s)
    };
    proof {
        let m = number_pattern_matches(number_source(s@));
        assert(matches@.len() == m.len());
        if m.len() == 1 {
            assert(matches@.map_values(|t: String| t@)[0] == matches@[0]@);
        }
    }
    number_text_from_matches(&matches)
}

/// The two sides of a fraction: the text before the first `/` and the text
/// after it, each trimmed; none when there is no `/`.
pub fn fraction_parts(s: &str) -> (r: Option<(String, String)>)
    ensures
        (exists|i: int| 0 <= i < s@.len() && s@[i] == '/') <==> r is Some,
        r matches Some((a, b)) ==> exists|i: int|
            0 <= i < s@.len() && s@[i] == '/' && (forall|j: int| 0 <= j < i ==> s@[j] != '/')
                && a@ == trimmed(s@.take(i)) && b@ == trimmed(s@.skip(i + 1)),
{
    let n = s.unicode_len();
    let mut i: usize = 0;
    while i < n && s.get_char(i) != '/'
        invariant
            n == s@.len(),
            i <= n,
            forall|j: int| 0 <= j < i ==> s@[j] != '/',
        decreases n - i,
    {
        i = i + 1;
    }
    if i == n {
        return None;
    }
    let before = s.substring_char(0, i);
    let after = s.substring_char(i + 1, n);
    assert(before@ =~= s@.take(i as int));
    assert(after@ =~= s@.skip(i + 1));
    let numerator = trim(before).to_owned();
    let denominator = trim(after).to_owned();
    Some((numerator, denominator))
}

} // verus!
