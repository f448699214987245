//! The `rename_all` rules the derive applies to variant names.

use vstd::prelude::*;
use crate::text::{
    ascii_lower, ascii_upper, char_to_lowercase, char_to_uppercase, is_uppercase, lowercase_of,
    push_char, str_eq, to_ascii_lowercase, to_ascii_uppercase, uppercase, uppercase_of,
};

verus! {

/// What one input character contributes to a separated lowercase rendering
/// (`snake_case` with `_`, `kebab-case` with `-`): an uppercase character is
/// lowered and, unless it is the first character, preceded by the separator.
pub open spec fn lower_piece(s: Seq<char>, i: int, sep: char) -> Seq<char> {
    if uppercase(s[i]) {
        if i > 0 {
            seq![sep, ascii_lower(s[i])]
        } else {
            seq![ascii_lower(s[i])]
        }
    } else {
        seq![s[i]]
    }
}

/// The separated lowercase rendering of the first `n` characters of `s`.
pub open spec fn lower_separated(s: Seq<char>, n: nat, sep: char) -> Seq<char>
    decreases n,
{
    if n == 0 {
        Seq::empty()
    } else {
        lower_separated(s, (n - 1) as nat, sep) + lower_piece(s, n - 1, sep)
    }
}

/// What one input character contributes to `SCREAMING_SNAKE_CASE`: every
/// character is raised, and an uppercase one that is not the first is
/// preceded by `_`.
pub open spec fn screaming_piece(s: Seq<char>, i: int) -> Seq<char> {
    if uppercase(s[i]) && i > 0 {
        seq!['_', ascii_upper(s[i])]
    } else {
        seq![ascii_upper(s[i])]
    }
}

/// The `SCREAMING_SNAKE_CASE` rendering of the first `n` characters of `s`.
pub open spec fn screaming(s: Seq<char>, n: nat) -> Seq<char>
    decreases n,
{
    if n == 0 {
        Seq::empty()
    } else {
        screaming(s, (n - 1) as nat) + screaming_piece(s, n - 1)
    }
}

/// `s` after the rename rule `rule`; an unknown rule leaves `s` unchanged.
pub open spec fn renamed(s: Seq<char>, rule: Seq<char>) -> Seq<char> {
    if rule == "snake_case"@ {
        lower_separated(s, s.len(), '_')
    } else if rule == "camelCase"@ {
        if s.len() == 0 {
            Seq::empty()
        } else {
            lowercase_of(s[0]) + s.skip(1)
        }
    } else if rule == "PascalCase"@ {
        if s.len() == 0 {
            Seq::empty()
        } else {
            uppercase_of(s[0]) + s.skip(1)
        }
    } else if rule == "SCREAMING_SNAKE_CASE"@ {
        screaming(s, s.len())
    } else if rule == "kebab-case"@ {
        lower_separated(s, s.len(), '-')
    } else {
        s
    }
}

fn separated_lowercase(s: &str, sep: char) -> (r: String)
    ensures
        r@ == lower_separated(s@, s@.len(), sep),
{
    let n = s.unicode_len();
    let mut result = String::new();
    let mut i: usize = 0;
    while i < n
        invariant
            n == s@.len(),
            i <= n,
            result@ == lower_separated(s@, i as nat, sep),
            result@.len() >= i,
        decreases n - i,
    {
        let ch = s.get_char(i);
        if is_uppercase(ch) {
            if !result.as_str().is_empty() {
                push_char(&mut result, sep);
            }
            push_char(&mut result, to_ascii_lowercase(ch));
        } else {
            push_char(&mut result, ch);
        }
        i = i + 1;
    }
    result
}

fn screaming_snake(s: &str) -> (r: String)
    ensures
        r@ == screaming(s@, s@.len()),
{
    let n = s.unicode_len();
    let mut result = String::new();
    let mut i: usize = 0;
    while i < n
        invariant
            n == s@.len(),
            i <= n,
            result@ == screaming(s@, i as nat),
            result@.len() >= i,
        decreases n - i,
    {
        let ch = s.get_char(i);
        if is_uppercase(ch) && !result.as_str().is_empty() {
            push_char(&mut result, '_');
        }
        push_char(&mut result, to_ascii_uppercase(ch));
        i = i + 1;
    }
    result
}

/// Apply rename_all transformation at compile time (in proc macro).
/// This is used to pre-compute normalized variant names for matching.
pub fn apply_rename_all_at_compile_time(s: &str, rule: &str) -> (r: String)
    ensures
        r@ == renamed(s@, rule@),
{
    if str_eq(rule, "snake_case") {
        separated_lowercase(s, '_')
    } else if str_eq(rule, "camelCase") {
        let n = s.unicode_len();
        if n == 0 {
            String::new()
        } else {
            let mut first = char_to_lowercase(s.get_char(0));
            first.append(s.substring_char(1, n));
            first
        }
    } else if str_eq(rule, "PascalCase") {
        let n = s.unicode_len();
        if n == 0 {
            String::new()
        } else {
            let mut first = char_to_uppercase(s.get_char(0));
            first.append(s.substring_char(1, n));
            first
        }
    } else if str_eq(rule, "SCREAMING_SNAKE_CASE") {
        screaming_snake(s)
    } else if str_eq(rule, "kebab-case") {
        separated_lowercase(s, '-')
    } else {
        s.to_owned()
    }
}


/// The rename rules the derive accepts.
pub open spec fn is_known_rule(rule: Seq<char>) -> bool {
    ||| rule == "snake_case"@
    ||| rule == "camelCase"@
    ||| rule == "PascalCase"@
    ||| rule == "kebab-case"@
    ||| rule == "SCREAMING_SNAKE_CASE"@
}

/// A rule outside the accepted set leaves every name unchanged.
pub proof fn lemma_unknown_rule_is_identity(s: Seq<char>, rule: Seq<char>)
    requires
        !is_known_rule(rule),
    ensures
        renamed(s, rule) == s,
{
}

proof fn lemma_screaming_prefix(s: Seq<char>, n: nat)
    requires
        n <= s.len(),
    ensures
        screaming(s, n) == lower_separated(s, n, '_').map_values(|c: char| ascii_upper(c)),
    decreases n,
{
    if n > 0 {
        lemma_screaming_prefix(s, (n - 1) as nat);
        let prev = lower_separated(s, (n - 1) as nat, '_');
        let piece = lower_piece(s, n - 1, '_');
        let c = s[n - 1];
        assert(ascii_upper(ascii_lower(c)) == ascii_upper(c)) by {
            if 'A' <= c && c <= 'Z' {
                assert((c as u32) + 32 >= 'a' as u32);
            }
        }
        assert((prev + piece).map_values(|c: char| ascii_upper(c)) =~= prev.map_values(
            |c: char| ascii_upper(c),
        ) + piece.map_values(|c: char| ascii_upper(c)));
        assert(piece.map_values(|c: char| ascii_upper(c)) =~= screaming_piece(s, n - 1));
    }
}

/// `SCREAMING_SNAKE_CASE` is `snake_case` with every character raised to
/// ASCII uppercase: both put a separator before the same characters.
pub proof fn lemma_screaming_is_raised_snake(s: Seq<char>)
    ensures
        renamed(s, "SCREAMING_SNAKE_CASE"@) == renamed(s, "snake_case"@).map_values(
            |c: char| ascii_upper(c),
        ),
{
    reveal_strlit("SCREAMING_SNAKE_CASE");
    reveal_strlit("snake_case");
    reveal_strlit("camelCase");
    reveal_strlit("PascalCase");
    assert("SCREAMING_SNAKE_CASE"@.len() != "snake_case"@.len());
    assert("SCREAMING_SNAKE_CASE"@[0] != "camelCase"@[0]);
    assert("SCREAMING_SNAKE_CASE"@[0] != "PascalCase"@[0]);
    lemma_screaming_prefix(s, s.len());
}

/// The character `c` with `_` turned into `-`.
pub open spec fn hyphenate(c: char) -> char {
    if c == '_' { '-' } else { c }
}

proof fn lemma_kebab_prefix(s: Seq<char>, n: nat)
    requires
        n <= s.len(),
        forall|i: int| 0 <= i < s.len() ==> s[i] != '_',
    ensures
        lower_separated(s, n, '-') == lower_separated(s, n, '_').map_values(|c: char| hyphenate(c)),
    decreases n,
{
    if n > 0 {
        lemma_kebab_prefix(s, (n - 1) as nat);
        let prev = lower_separated(s, (n - 1) as nat, '_');
        let piece = lower_piece(s, n - 1, '_');
        let c = s[n - 1];
        assert(ascii_lower(c) != '_') by {
            if 'A' <= c && c <= 'Z' {
                assert((c as u32) + 32 >= 'a' as u32);
            }
        }
        assert((prev + piece).map_values(|c: char| hyphenate(c)) =~= prev.map_values(
            |c: char| hyphenate(c),
        ) + piece.map_values(|c: char| hyphenate(c)));
        assert(piece.map_values(|c: char| hyphenate(c)) =~= lower_piece(s, n - 1, '-'));
    }
}

/// For a name without `_`, `kebab-case` is `snake_case` with `-` in place
/// of every `_`.
pub proof fn lemma_kebab_is_hyphenated_snake(s: Seq<char>)
    requires
        forall|i: int| 0 <= i < s.len() ==> s[i] != '_',
    ensures
        renamed(s, "kebab-case"@) == renamed(s, "snake_case"@).map_values(|c: char| hyphenate(c)),
{
    reveal_strlit("kebab-case");
    reveal_strlit("snake_case");
    reveal_strlit("camelCase");
    reveal_strlit("PascalCase");
    reveal_strlit("SCREAMING_SNAKE_CASE");
    assert("kebab-case"@[0] != "snake_case"@[0]);
    assert("kebab-case"@[0] != "camelCase"@[0]);
    assert("kebab-case"@[0] != "PascalCase"@[0]);
    assert("kebab-case"@.len() != "SCREAMING_SNAKE_CASE"@.len());
    lemma_kebab_prefix(s, s.len());
}

} // verus!
