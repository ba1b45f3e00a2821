//! Inline text markup for super- and subscripts.
//!
//! Labels, titles, and annotations support a small, matplotlib-flavoured markup:
//!
//! - `^` raises the next character (or a `^{...}` group) into a **superscript**.
//! - `_` lowers the next character (or a `_{...}` group) into a **subscript**.
//! - `\^`, `\_`, and `\\` are escapes that emit a literal `^`, `_`, or `\`.
//!
//! The markup is resolved to Unicode super/subscript code points, so it renders
//! identically across every backend with no special glyph handling. Characters
//! that have no Unicode super/subscript form are left as-is.
//!
//! [`markup`] states the meaning of the markup as a function on character
//! sequences; [`format_markup`] computes it.

use vstd::prelude::*;
use vstd::std_specs::iter::IteratorSpec;

verus! {

// ---------------------------------------------------------------------------
// Character tables
// ---------------------------------------------------------------------------

/// The Unicode superscript form of `c`, if one exists.
pub open spec fn superscript(c: char) -> Option<char> {
    match c {
        '0' => Some('\u{2070}'),
        '1' => Some('\u{00B9}'),
        '2' => Some('\u{00B2}'),
        '3' => Some('\u{00B3}'),
        '4' => Some('\u{2074}'),
        '5' => Some('\u{2075}'),
        '6' => Some('\u{2076}'),
        '7' => Some('\u{2077}'),
        '8' => Some('\u{2078}'),
        '9' => Some('\u{2079}'),
        '+' => Some('\u{207A}'),
        '-' => Some('\u{207B}'),
        '=' => Some('\u{207C}'),
        '(' => Some('\u{207D}'),
        ')' => Some('\u{207E}'),
        'a' => Some('\u{1D43}'),
        'b' => Some('\u{1D47}'),
        'c' => Some('\u{1D9C}'),
        'd' => Some('\u{1D48}'),
        'e' => Some('\u{1D49}'),
        'f' => Some('\u{1DA0}'),
        'g' => Some('\u{1D4D}'),
        'h' => Some('\u{02B0}'),
        'i' => Some('\u{2071}'),
        'j' => Some('\u{02B2}'),
        'k' => Some('\u{1D4F}'),
        'l' => Some('\u{02E1}'),
        'm' => Some('\u{1D50}'),
        'n' => Some('\u{207F}'),
        'o' => Some('\u{1D52}'),
        'p' => Some('\u{1D56}'),
        'r' => Some('\u{02B3}'),
        's' => Some('\u{02E2}'),
        't' => Some('\u{1D57}'),
        'u' => Some('\u{1D58}'),
        'v' => Some('\u{1D5B}'),
        'w' => Some('\u{02B7}'),
        'x' => Some('\u{02E3}'),
        'y' => Some('\u{02B8}'),
        'z' => Some('\u{1DBB}'),
        _ => None,
    }
}

/// The Unicode subscript form of `c`, if one exists.
pub open spec fn subscript(c: char) -> Option<char> {
    match c {
        '0' => Some('\u{2080}'),
        '1' => Some('\u{2081}'),
        '2' => Some('\u{2082}'),
        '3' => Some('\u{2083}'),
        '4' => Some('\u{2084}'),
        '5' => Some('\u{2085}'),
        '6' => Some('\u{2086}'),
        '7' => Some('\u{2087}'),
        '8' => Some('\u{2088}'),
        '9' => Some('\u{2089}'),
        '+' => Some('\u{208A}'),
        '-' => Some('\u{208B}'),
        '=' => Some('\u{208C}'),
        '(' => Some('\u{208D}'),
        ')' => Some('\u{208E}'),
        'a' => Some('\u{2090}'),
        'e' => Some('\u{2091}'),
        'h' => Some('\u{2095}'),
        'i' => Some('\u{1D62}'),
        'j' => Some('\u{2C7C}'),
        'k' => Some('\u{2096}'),
        'l' => Some('\u{2097}'),
        'm' => Some('\u{2098}'),
        'n' => Some('\u{2099}'),
        'o' => Some('\u{2092}'),
        'p' => Some('\u{209A}'),
        'r' => Some('\u{1D63}'),
        's' => Some('\u{209B}'),
        't' => Some('\u{209C}'),
        'u' => Some('\u{1D64}'),
        'v' => Some('\u{1D65}'),
        'x' => Some('\u{2093}'),
        _ => None,
    }
}

/// The table a marker selects: superscripts for `^`, subscripts otherwise.
pub open spec fn script(marker: char, c: char) -> Option<char> {
    if marker == '^' {
        superscript(c)
    } else {
        subscript(c)
    }
}

/// Digits map to the Unicode superscript digits: `0` and `4`-`9` to
/// U+2070 + d, and `1`, `2`, `3` to the Latin-1 forms U+00B9, U+00B2, U+00B3.
pub proof fn lemma_superscript_digits(d: u32)
    requires
        d <= 9,
    ensures
        d != 1 && d != 2 && d != 3 ==> superscript(('0' as u32 + d) as char) == Some(
            (0x2070u32 + d) as char,
        ),
        d == 1 ==> superscript('1') == Some('\u{00B9}'),
        d == 2 ==> superscript('2') == Some('\u{00B2}'),
        d == 3 ==> superscript('3') == Some('\u{00B3}'),
{
    assert(d == 0 || d == 1 || d == 2 || d == 3 || d == 4 || d == 5 || d == 6 || d == 7 || d == 8
        || d == 9);
}

/// Digits map to the Unicode subscript digits U+2080 + d.
pub proof fn lemma_subscript_digits(d: u32)
    requires
        d <= 9,
    ensures
        subscript(('0' as u32 + d) as char) == Some((0x2080u32 + d) as char),
{
    assert(d == 0 || d == 1 || d == 2 || d == 3 || d == 4 || d == 5 || d == 6 || d == 7 || d == 8
        || d == 9);
}

/// Distinct characters have distinct superscript forms.
pub proof fn lemma_superscript_injective(c1: char, c2: char)
    requires
        superscript(c1) is Some,
        superscript(c1) == superscript(c2),
    ensures
        c1 == c2,
{
}

/// Distinct characters have distinct subscript forms.
pub proof fn lemma_subscript_injective(c1: char, c2: char)
    requires
        subscript(c1) is Some,
        subscript(c1) == subscript(c2),
    ensures
        c1 == c2,
{
}

/// A superscript form is never the character itself, nor a subscript form.
pub proof fn lemma_scripts_disjoint(c1: char, c2: char)
    requires
        superscript(c1) is Some,
        subscript(c2) is Some,
    ensures
        superscript(c1) != subscript(c2),
        superscript(c1) != Some(c1),
        subscript(c2) != Some(c2),
{
}

/// `c` translated by the marker's table, or `c` itself when it has no form there.
pub open spec fn translate_or_keep(marker: char, c: char) -> char {
    match script(marker, c) {
        Some(m) => m,
        None => c,
    }
}

/// Whether `c` starts markup: `^`, `_` or the escape character `\`.
pub open spec fn is_markup_char(c: char) -> bool {
    c == '^' || c == '_' || c == '\\'
}

/// The number of characters of `t` before its first `}` (all of `t` when it
/// has none).
pub open spec fn group_len(t: Seq<char>) -> nat
    decreases t.len(),
{
    if t.len() == 0 {
        0
    } else if t[0] == '}' {
        0
    } else {
        1 + group_len(t.skip(1))
    }
}

/// The translated contents of a braced group: the first `k` characters of `t`.
pub open spec fn group_text(marker: char, t: Seq<char>, k: nat) -> Seq<char> {
    Seq::new(k, |i: int| translate_or_keep(marker, t[i]))
}

/// The text that the markup in `s` denotes.
///
/// - `\c` denotes `c`; a lone trailing `\` denotes itself.
/// - `^{...}` / `_{...}` denote the group's characters, each translated when
///   it has a form and kept otherwise; an unclosed group runs to the end.
/// - `^c` / `_c` denote the translated `c` when it has a form; otherwise the
///   marker is kept literally and `c` is read as ordinary text.
/// - A trailing marker denotes itself; every other character denotes itself.
pub open spec fn markup(s: Seq<char>) -> Seq<char>
    decreases s.len(),
{
    if s.len() == 0 {
        seq![]
    } else if s[0] == '\\' {
        if s.len() >= 2 {
            seq![s[1]] + markup(s.skip(2))
        } else {
            seq!['\\']
        }
    } else if s[0] == '^' || s[0] == '_' {
        let m = s[0];
        if s.len() >= 2 && s[1] == '{' {
            let t = s.skip(2);
            let k = group_len(t);
            if k < t.len() {
                group_text(m, t, k) + markup(t.skip(k + 1 as int))
            } else {
                group_text(m, t, k)
            }
        } else if s.len() >= 2 {
            match script(m, s[1]) {
                Some(x) => seq![x] + markup(s.skip(2)),
                None => seq![m] + markup(s.skip(1)),
            }
        } else {
            seq![m]
        }
    } else {
        seq![s[0]] + markup(s.skip(1))
    }
}

// ---------------------------------------------------------------------------
// Lemmas
// ---------------------------------------------------------------------------

/// `group_len` is the position of the first `}`, or the length when there is none.
proof fn lemma_group_len(t: Seq<char>, k: nat)
    requires
        k <= t.len(),
        forall|i: int| 0 <= i < k ==> t[i] != '}',
        k == t.len() || t[k as int] == '}',
    ensures
        group_len(t) == k,
    decreases k,
{
    if k > 0 {
        let u = t.skip(1);
        assert forall|i: int| 0 <= i < k - 1 implies u[i] != '}' by {
            assert(u[i] == t[i + 1]);
        }
        if k < t.len() {
            assert(u[k - 1] == t[k as int]);
        }
        lemma_group_len(u, (k - 1) as nat);
    }
}

/// Text without `^`, `_` or `\` is returned unchanged.
pub proof fn lemma_plain_text_unchanged(s: Seq<char>)
    requires
        forall|i: int| 0 <= i < s.len() ==> !is_markup_char(#[trigger] s[i]),
    ensures
        markup(s) == s,
    decreases s.len(),
{
    if s.len() > 0 {
        let u = s.skip(1);
        assert forall|i: int| 0 <= i < u.len() implies !is_markup_char(#[trigger] u[i]) by {
            assert(u[i] == s[i + 1]);
        }
        lemma_plain_text_unchanged(u);
        assert(!is_markup_char(s[0]));
        assert(seq![s[0]] + u =~= s);
    }
}

/// Resolving markup never lengthens the text: every output character is
/// paid for by at least one input character.
pub proof fn lemma_markup_not_longer(s: Seq<char>)
    ensures
        markup(s).len() <= s.len(),
    decreases s.len(),
{
    if s.len() > 0 {
        if s[0] == '\\' {
            if s.len() >= 2 {
                lemma_markup_not_longer(s.skip(2));
            }
        } else if s[0] == '^' || s[0] == '_' {
            if s.len() >= 2 && s[1] == '{' {
                let t = s.skip(2);
                let k = group_len(t);
                lemma_group_len_bound(t);
                if k < t.len() {
                    lemma_markup_not_longer(t.skip(k + 1 as int));
                }
            } else if s.len() >= 2 {
                lemma_markup_not_longer(s.skip(2));
                lemma_markup_not_longer(s.skip(1));
            }
        } else {
            lemma_markup_not_longer(s.skip(1));
        }
    }
}

/// A group never runs past the end of the text.
proof fn lemma_group_len_bound(t: Seq<char>)
    ensures
        group_len(t) <= t.len(),
    decreases t.len(),
{
    if t.len() > 0 && t[0] != '}' {
        lemma_group_len_bound(t.skip(1));
    }
}

/// Plain text before markup passes through untouched:
/// `markup(p + s) == p + markup(s)` when `p` holds no `^`, `_` or `\`.
pub proof fn lemma_plain_prefix(p: Seq<char>, s: Seq<char>)
    requires
        forall|i: int| 0 <= i < p.len() ==> !is_markup_char(#[trigger] p[i]),
    ensures
        markup(p + s) == p + markup(s),
    decreases p.len(),
{
    if p.len() > 0 {
        let u = p.skip(1);
        assert forall|i: int| 0 <= i < u.len() implies !is_markup_char(#[trigger] u[i]) by {
            assert(u[i] == p[i + 1]);
        }
        lemma_plain_prefix(u, s);
        assert(!is_markup_char(p[0]));
        assert((p + s)[0] == p[0]);
        assert((p + s).skip(1) =~= u + s);
        assert(seq![p[0]] + (u + markup(s)) =~= p + markup(s));
    }
}

/// An escaped character stands for itself, whatever it is:
/// `markup(\c + s) == c + markup(s)`.
pub proof fn lemma_escape_is_literal(c: char, s: Seq<char>)
    ensures
        markup(seq!['\\', c] + s) == seq![c] + markup(s),
{
    let e = seq!['\\', c] + s;
    assert(e[0] == '\\');
    assert(e[1] == c);
    assert(e.skip(2) =~= s);
}

// ---------------------------------------------------------------------------
// Executable code
// ---------------------------------------------------------------------------

/// Returns the Unicode superscript form of `c`, if one exists.
pub fn superscript_char(c: char) -> (r: Option<char>)
    ensures
        r == superscript(c),
{
    match c {
        '0' => Some('\u{2070}'),
        '1' => Some('\u{00B9}'),
        '2' => Some('\u{00B2}'),
        '3' => Some('\u{00B3}'),
        '4' => Some('\u{2074}'),
        '5' => Some('\u{2075}'),
        '6' => Some('\u{2076}'),
        '7' => Some('\u{2077}'),
        '8' => Some('\u{2078}'),
        '9' => Some('\u{2079}'),
        '+' => Some('\u{207A}'),
        '-' => Some('\u{207B}'),
        '=' => Some('\u{207C}'),
        '(' => Some('\u{207D}'),
        ')' => Some('\u{207E}'),
        'a' => Some('\u{1D43}'),
        'b' => Some('\u{1D47}'),
        'c' => Some('\u{1D9C}'),
        'd' => Some('\u{1D48}'),
        'e' => Some('\u{1D49}'),
        'f' => Some('\u{1DA0}'),
        'g' => Some('\u{1D4D}'),
        'h' => Some('\u{02B0}'),
        'i' => Some('\u{2071}'),
        'j' => Some('\u{02B2}'),
        'k' => Some('\u{1D4F}'),
        'l' => Some('\u{02E1}'),
        'm' => Some('\u{1D50}'),
        'n' => Some('\u{207F}'),
        'o' => Some('\u{1D52}'),
        'p' => Some('\u{1D56}'),
        'r' => Some('\u{02B3}'),
        's' => Some('\u{02E2}'),
        't' => Some('\u{1D57}'),
        'u' => Some('\u{1D58}'),
        'v' => Some('\u{1D5B}'),
        'w' => Some('\u{02B7}'),
        'x' => Some('\u{02E3}'),
        'y' => Some('\u{02B8}'),
        'z' => Some('\u{1DBB}'),
        _ => None,
    }
}

/// Returns the Unicode subscript form of `c`, if one exists.
pub fn subscript_char(c: char) -> (r: Option<char>)
    ensures
        r == subscript(c),
{
    match c {
        '0' => Some('\u{2080}'),
        '1' => Some('\u{2081}'),
        '2' => Some('\u{2082}'),
        '3' => Some('\u{2083}'),
        '4' => Some('\u{2084}'),
        '5' => Some('\u{2085}'),
        '6' => Some('\u{2086}'),
        '7' => Some('\u{2087}'),
        '8' => Some('\u{2088}'),
        '9' => Some('\u{2089}'),
        '+' => Some('\u{208A}'),
        '-' => Some('\u{208B}'),
        '=' => Some('\u{208C}'),
        '(' => Some('\u{208D}'),
        ')' => Some('\u{208E}'),
        'a' => Some('\u{2090}'),
        'e' => Some('\u{2091}'),
        'h' => Some('\u{2095}'),
        'i' => Some('\u{1D62}'),
        'j' => Some('\u{2C7C}'),
        'k' => Some('\u{2096}'),
        'l' => Some('\u{2097}'),
        'm' => Some('\u{2098}'),
        'n' => Some('\u{2099}'),
        'o' => Some('\u{2092}'),
        'p' => Some('\u{209A}'),
        'r' => Some('\u{1D63}'),
        's' => Some('\u{209B}'),
        't' => Some('\u{209C}'),
        'u' => Some('\u{1D64}'),
        'v' => Some('\u{1D65}'),
        'x' => Some('\u{2093}'),
        _ => None,
    }
}

/// Translates `c` by the table that `marker` selects.
fn script_char(marker: char, c: char) -> (r: Option<char>)
    ensures
        r == script(marker, c),
{
    if marker == '^' {
        superscript_char(c)
    } else {
        subscript_char(c)
    }
}

/// Builds a `String` holding exactly the characters of `chars`
/// (std's `FromIterator<&char>` for `String`).
#[verifier::external_body]
pub(crate) fn string_from_chars(chars: &Vec<char>) -> (s: String)
    ensures
        s@ == chars@,
{
    chars.iter().collect()
}

/// Reads the characters of `input` into a vector.
fn chars_of(input: &str) -> (cs: Vec<char>)
    ensures
        cs@ == input@,
{
    let mut cs: Vec<char> = Vec::new();
    proof {
        vstd::string::axiom_spec_iter(input);
    }
    for c in iter: input.chars()
        invariant
            iter.seq() == input@,
            cs@ == input@.take(iter.index()),
    {
        proof {
            assert(iter.seq().take(iter.index() + 1) =~= cs@.push(c));
        }
        cs.push(c);
    }
    assert(cs@ =~= input@);
    cs
}

/// Handles a `^`/`_` marker at `cs[i]`: a braced `{...}` group or a single
/// following char. Returns the position after the consumed characters.
fn apply_markup(out: &mut Vec<char>, cs: &Vec<char>, i: usize, marker: char) -> (next: usize)
    requires
        i < cs@.len(),
        cs@[i as int] == marker,
        marker == '^' || marker == '_',
    ensures
        i < next <= cs@.len(),
        final(out)@ + markup(cs@.skip(next as int)) == old(out)@ + markup(cs@.skip(i as int)),
{
    let n = cs.len();
    let ghost s = cs@.skip(i as int);
    assert(s[0] == marker);
    if i + 1 < n && cs[i + 1] == '{' {
        assert(s[1] == '{');
        let ghost t = s.skip(2);
        assert(t =~= cs@.skip(i + 2));
        let ghost out0 = out@;
        let mut j: usize = i + 2;
        while j < n && cs[j] != '}'
            invariant
                i + 2 <= j <= n,
                n == cs@.len(),
                t == cs@.skip(i + 2),
                forall|x: int| i + 2 <= x < j ==> cs@[x] != '}',
                out@ == out0 + group_text(marker, t, (j - (i + 2)) as nat),
            decreases n - j,
        {
            let c = cs[j];
            let m = match script_char(marker, c) {
                Some(x) => x,
                None => c,
            };
            out.push(m);
            proof {
                assert(t[j - (i + 2)] == c);
                assert(group_text(marker, t, (j + 1 - (i + 2)) as nat) =~= group_text(
                    marker,
                    t,
                    (j - (i + 2)) as nat,
                ).push(m));
            }
            j = j + 1;
        }
        let ghost k = (j - (i + 2)) as nat;
        proof {
            assert forall|x: int| 0 <= x < k implies t[x] != '}' by {
                assert(t[x] == cs@[x + i + 2]);
            }
            if k < t.len() {
                assert(t[k as int] == cs@[j as int]);
            }
            lemma_group_len(t, k);
        }
        if j < n {
            assert(t.skip(k + 1 as int) =~= cs@.skip(j + 1));
            j + 1
        } else {
            assert(cs@.skip(n as int) =~= Seq::<char>::empty());
            j
        }
    } else if i + 1 < n {
        let next = cs[i + 1];
        assert(s[1] == next);
        match script_char(marker, next) {
            Some(mapped) => {
                out.push(mapped);
                assert(s.skip(2) =~= cs@.skip(i + 2));
                i + 2
            },
            None => {
                out.push(marker);
                assert(s.skip(1) =~= cs@.skip(i + 1));
                i + 1
            },
        }
    } else {
        out.push(marker);
        assert(cs@.skip(n as int) =~= Seq::<char>::empty());
        n
    }
}

/// Resolves super/subscript markup in `input` to Unicode. See the module
/// docs for the syntax. Strings without `^`, `_`, or `\` are returned
/// unchanged.
pub fn format_markup(input: &str) -> (out: String)
    ensures
        out@ == markup(input@),
{
    let cs = chars_of(input);
    let n = cs.len();

    // Fast path: nothing to resolve.
    let mut has_markup = false;
    let mut p: usize = 0;
    while p < n
        invariant
            p <= n,
            n == cs@.len(),
            !has_markup ==> forall|x: int| 0 <= x < p ==> !is_markup_char(#[trigger] cs@[x]),
        decreases n - p,
    {
        let c = cs[p];
        if c == '^' || c == '_' || c == '\\' {
            has_markup = true;
        }
        p = p + 1;
    }
    if !has_markup {
        proof {
            lemma_plain_text_unchanged(cs@);
        }
        return input.to_owned();
    }

    let mut out: Vec<char> = Vec::new();
    let mut i: usize = 0;
    assert(cs@.skip(0) =~= cs@);
    while i < n
        invariant
            i <= n,
            n == cs@.len(),
            out@ + markup(cs@.skip(i as int)) == markup(cs@),
        decreases n - i,
    {
        let c = cs[i];
        let ghost s = cs@.skip(i as int);
        assert(s[0] == c);
        if c == '\\' {
            if i + 1 < n {
                let next = cs[i + 1];
                assert(s[1] == next);
                assert(s.skip(2) =~= cs@.skip(i + 2));
                out.push(next);
                i = i + 2;
            } else {
                out.push('\\');
                assert(cs@.skip(n as int) =~= Seq::<char>::empty());
                i = n;
            }
        } else if c == '^' || c == '_' {
            i = apply_markup(&mut out, &cs, i, c);
        } else {
            out.push(c);
            assert(s.skip(1) =~= cs@.skip(i + 1));
            i = i + 1;
        }
    }
    assert(cs@.skip(n as int) =~= Seq::<char>::empty());
    assert(out@ =~= markup(cs@));
    string_from_chars(&out)
}

} // verus!
