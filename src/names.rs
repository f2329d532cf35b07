use vstd::prelude::*;
use crate::schema::{SwitchKind, SwitchSpec};

verus! {

/// `s` with every underscore replaced by a hyphen.
pub open spec fn hyphenated(s: Seq<char>) -> Seq<char> {
    Seq::new(s.len(), |i: int| if s[i] == '_' { '-' } else { s[i] })
}

/// Relies on `String::push`: appends one character.
#[verifier::external_body]
fn push_char(s: &mut String, c: char)
    ensures
        final(s)@ == old(s)@.push(c),
{
    s.push(c)
}

/// The identifier with underscores spelled as hyphens, as used in flag names.
pub fn underscore_to_hypen(ident: &str) -> (r: String)
    ensures
        r@ == hyphenated(ident@),
{
    let mut out = String::new();
    let n = ident.unicode_len();
    let mut i: usize = 0;
    while i < n
        invariant
            n == ident@.len(),
            i <= n,
            out@ == hyphenated(ident@).subrange(0, i as int),
        decreases n - i,
    {
        let c = ident.get_char(i);
        if c == '_' {
            push_char(&mut out, '-');
        } else {
            push_char(&mut out, c);
        }
        i = i + 1;
        assert(out@ =~= hyphenated(ident@).subrange(0, i as int));
    }
    assert(out@ =~= hyphenated(ident@));
    out
}

/// `c` with an ASCII lower-case letter mapped to its upper-case form.
pub open spec fn ascii_upper(c: char) -> char {
    if 'a' <= c && c <= 'z' {
        ((c as u32) - 32) as char
    } else {
        c
    }
}

/// Upper-case ASCII mapping of one character.
pub fn to_ascii_upper(c: char) -> (r: char)
    ensures
        r == ascii_upper(c),
{
    if 'a' <= c && c <= 'z' {
        ((c as u8) - 32) as char
    } else {
        c
    }
}

/// Pascal case of `s`, where `big` says whether the next kept character is
/// capitalized: underscores are dropped, and each one capitalizes the
/// character after it.
pub open spec fn pascal(s: Seq<char>, big: bool) -> Seq<char>
    decreases s.len(),
{
    if s.len() == 0 {
        Seq::empty()
    } else if s[0] == '_' {
        pascal(s.drop_first(), true)
    } else if big {
        seq![ascii_upper(s[0])] + pascal(s.drop_first(), false)
    } else {
        seq![s[0]] + pascal(s.drop_first(), false)
    }
}

/// The identifier in PascalCase: `max_line_len` becomes `MaxLineLen`.
pub fn pascal_case(ident: &str) -> (r: String)
    ensures
        r@ == pascal(ident@, true),
{
    let mut out = String::new();
    let n = ident.unicode_len();
    let mut next_big = true;
    let mut i: usize = 0;
    assert(ident@.subrange(0, n as int) =~= ident@);
    assert(out@ + pascal(ident@, true) =~= pascal(ident@, true));
    while i < n
        invariant
            n == ident@.len(),
            i <= n,
            out@ + pascal(ident@.subrange(i as int, n as int), next_big) == pascal(ident@, true),
        decreases n - i,
    {
        let ghost rest = ident@.subrange(i as int, n as int);
        assert(rest.drop_first() =~= ident@.subrange(i + 1, n as int));
        let c = ident.get_char(i);
        if c == '_' {
            next_big = true;
        } else if next_big {
            push_char(&mut out, to_ascii_upper(c));
            next_big = false;
        } else {
            push_char(&mut out, c);
        }
        i = i + 1;
        assert(out@ + pascal(ident@.subrange(i as int, n as int), next_big) =~= pascal(ident@, true));
    }
    assert(ident@.subrange(n as int, n as int) =~= Seq::<char>::empty());
    assert(out@ =~= pascal(ident@, true));
    out
}

/// The flag of a value-taking parameter: `--` and the hyphenated name.
pub open spec fn param_flag(name: Seq<char>) -> Seq<char> {
    seq!['-', '-'] + hyphenated(name)
}

/// The flag of a switch: `--name` for a Normal one, `--no-name` for an Inverted one.
pub open spec fn switch_flag(name: Seq<char>, kind: SwitchKind) -> Seq<char> {
    match kind {
        SwitchKind::Normal => seq!['-', '-'] + name,
        SwitchKind::Inverted => seq!['-', '-', 'n', 'o', '-'] + name,
    }
}

fn push_all(out: &mut String, s: &str)
    ensures
        final(out)@ == old(out)@ + s@,
{
    let n = s.unicode_len();
    let mut i: usize = 0;
    let ghost start = out@;
    while i < n
        invariant
            n == s@.len(),
            i <= n,
            out@ == start + s@.subrange(0, i as int),
        decreases n - i,
    {
        push_char(out, s.get_char(i));
        i = i + 1;
        assert(out@ =~= start + s@.subrange(0, i as int));
    }
    assert(s@.subrange(0, n as int) =~= s@);
}

/// The command-line flag that sets a parameter: `max_len` gives `--max-len`.
pub fn param_flag_name(name: &str) -> (r: String)
    ensures
        r@ == param_flag(name@),
{
    let mut out = String::new();
    push_char(&mut out, '-');
    push_char(&mut out, '-');
    let h = underscore_to_hypen(name);
    push_all(&mut out, h.as_str());
    assert(out@ =~= param_flag(name@));
    out
}

/// The command-line flag that sets a switch to the opposite of its default.
pub fn switch_flag_name(switch: &SwitchSpec) -> (r: String)
    ensures
        r@ == switch_flag(switch.name@, switch.kind),
{
    let mut out = String::new();
    push_char(&mut out, '-');
    push_char(&mut out, '-');
    match switch.kind {
        SwitchKind::Normal => {},
        SwitchKind::Inverted => {
            push_char(&mut out, 'n');
            push_char(&mut out, 'o');
            push_char(&mut out, '-');
        },
    }
    push_all(&mut out, switch.name.as_str());
    assert(out@ =~= switch_flag(switch.name@, switch.kind));
    out
}

} // verus!
