//! Quoting text for the tools that the stop commands hand a profile's data
//! path to: `pkill`'s regular expressions, PowerShell's `-like` wildcards
//! and PowerShell's single-quoted strings.
use vstd::prelude::*;

use crate::text::{push_char, str_chars};

verus! {

/// The three quoting schemes.
#[derive(Clone, Copy, Debug, PartialEq, Eq, Structural)]
pub enum Quoting {
    /// A POSIX extended regular expression (`pkill -f`): `\` before an
    /// operator character makes it stand for itself.
    Regex,
    /// A PowerShell `-like` wildcard pattern: a backtick before `*`, `?`,
    /// `[`, `]` or a backtick makes it stand for itself.
    Wildcard,
    /// A PowerShell single-quoted string: a quote inside it is written
    /// twice.
    SingleQuoted,
}

/// The character written before a special character.
pub open spec fn escape_char(q: Quoting) -> char {
    match q {
        Quoting::Regex => '\\',
        Quoting::Wildcard => '`',
        Quoting::SingleQuoted => '\'',
    }
}

/// The characters that must be escaped to stand for themselves.
pub open spec fn is_special(q: Quoting, c: char) -> bool {
    match q {
        Quoting::Regex => c == '.' || c == '[' || c == ']' || c == '{' || c == '}' || c == '('
            || c == ')' || c == '*' || c == '+' || c == '?' || c == '^' || c == '$' || c == '|'
            || c == '\\',
        Quoting::Wildcard => c == '*' || c == '?' || c == '[' || c == ']' || c == '`',
        Quoting::SingleQuoted => c == '\'',
    }
}

/// How one character is written.
pub open spec fn escape_one(q: Quoting, c: char) -> Seq<char> {
    if is_special(q, c) {
        seq![escape_char(q), c]
    } else {
        seq![c]
    }
}

/// `s` written so that every character stands for itself.
pub open spec fn escape(q: Quoting, s: Seq<char>) -> Seq<char>
    decreases s.len(),
{
    if s.len() == 0 {
        Seq::empty()
    } else {
        escape_one(q, s[0]) + escape(q, s.drop_first())
    }
}

/// What an escaped text stands for: each escape character followed by a
/// special character stands for that character, every other character
/// that is not special for itself; `None` when the text holds a special
/// character that is not escaped (an operator, or the end of a quoted
/// string), or ends in a lone escape character.
pub open spec fn unescape(q: Quoting, e: Seq<char>) -> Option<Seq<char>>
    decreases e.len(),
{
    if e.len() == 0 {
        Some(Seq::empty())
    } else if e[0] == escape_char(q) && e.len() >= 2 && is_special(q, e[1]) {
        match unescape(q, e.subrange(2, e.len() as int)) {
            Some(r) => Some(seq![e[1]] + r),
            None => None,
        }
    } else if is_special(q, e[0]) {
        None
    } else {
        match unescape(q, e.drop_first()) {
            Some(r) => Some(seq![e[0]] + r),
            None => None,
        }
    }
}

/// Escaping distributes over concatenation.
pub proof fn lemma_escape_append(q: Quoting, a: Seq<char>, b: Seq<char>)
    ensures
        escape(q, a + b) == escape(q, a) + escape(q, b),
    decreases a.len(),
{
    if a.len() == 0 {
        assert(a + b =~= b);
        assert(Seq::<char>::empty() + escape(q, b) =~= escape(q, b));
    } else {
        assert((a + b).drop_first() =~= a.drop_first() + b);
        assert((a + b)[0] == a[0]);
        lemma_escape_append(q, a.drop_first(), b);
        assert(escape(q, a + b) =~= escape(q, a) + escape(q, b));
    }
}

/// Escaped text stands for exactly the text that was escaped: the quoting
/// leaves no operator and no end of string in it.
pub proof fn lemma_unescape_escape(q: Quoting, s: Seq<char>)
    ensures
        unescape(q, escape(q, s)) == Some(s),
    decreases s.len(),
{
    if s.len() > 0 {
        let e = escape(q, s);
        let rest = escape(q, s.drop_first());
        lemma_unescape_escape(q, s.drop_first());
        assert(is_special(q, escape_char(q)));
        if is_special(q, s[0]) {
            assert(e =~= seq![escape_char(q), s[0]] + rest);
            assert(e.subrange(2, e.len() as int) =~= rest);
        } else {
            assert(e =~= seq![s[0]] + rest);
            assert(e.drop_first() =~= rest);
        }
        assert(seq![s[0]] + s.drop_first() =~= s);
    }
}

fn escape_char_exec(q: Quoting) -> (c: char)
    ensures
        c == escape_char(q),
{
    match q {
        Quoting::Regex => '\\',
        Quoting::Wildcard => '`',
        Quoting::SingleQuoted => '\'',
    }
}

fn char_is_special(q: Quoting, c: char) -> (r: bool)
    ensures
        r == is_special(q, c),
{
    match q {
        Quoting::Regex => c == '.' || c == '[' || c == ']' || c == '{' || c == '}' || c == '('
            || c == ')' || c == '*' || c == '+' || c == '?' || c == '^' || c == '$' || c == '|'
            || c == '\\',
        Quoting::Wildcard => c == '*' || c == '?' || c == '[' || c == ']' || c == '`',
        Quoting::SingleQuoted => c == '\'',
    }
}

/// `s` written so that every character stands for itself under `q`.
pub fn escape_text(q: Quoting, s: &str) -> (r: String)
    ensures
        r@ == escape(q, s@),
{
    let v = str_chars(s);
    let mut r = String::new();
    let mut i: usize = 0;
    while i < v.len()
        invariant
            i <= v.len(),
            v@ == s@,
            r@ == escape(q, v@.subrange(0, i as int)),
        decreases v.len() - i,
    {
        let c = v[i];
        let ghost before = r@;
        proof {
            let a = v@.subrange(0, i as int);
            let one = seq![c];
            lemma_escape_append(q, a, one);
            assert(v@.subrange(0, i + 1) =~= a + one);
            assert(one.drop_first() =~= Seq::<char>::empty());
            assert(escape(q, one.drop_first()) =~= Seq::<char>::empty());
            assert(one[0] == c);
            assert(escape(q, one) =~= escape_one(q, c));
        }
        if char_is_special(q, c) {
            push_char(&mut r, escape_char_exec(q));
        }
        push_char(&mut r, c);
        assert(r@ =~= before + escape_one(q, c));
        i = i + 1;
    }
    assert(v@.subrange(0, v@.len() as int) =~= s@);
    r
}

} // verus!
