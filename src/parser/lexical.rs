//! Character classes, string-literal escapes and edge labels.
use vstd::prelude::*;
use crate::parser::error::SyntaxError;
use crate::text::{chars_of, text_of};

verus! {

/// Blanks inside a line.
pub open spec fn is_blank(c: char) -> bool {
    c == ' ' || c == '\t' || c == '\r'
}

pub open spec fn is_letter(c: char) -> bool {
    ('a' <= c <= 'z') || ('A' <= c <= 'Z') || c == '_'
}

pub open spec fn is_word_char(c: char) -> bool {
    is_letter(c) || ('0' <= c <= '9')
}

/// Whether `s` is an identifier: a letter or underscore, then letters,
/// digits and underscores.
pub open spec fn is_identifier(s: Seq<char>) -> bool {
    s.len() > 0 && is_letter(s[0]) && forall|i: int| 0 <= i < s.len() ==> is_word_char(#[trigger] s[i])
}

/// The value of a hexadecimal digit, if `c` is one.
pub open spec fn hex_value(c: char) -> Option<int> {
    if '0' <= c <= '9' {
        Some(c as int - '0' as int)
    } else if 'a' <= c <= 'f' {
        Some(c as int - 'a' as int + 10)
    } else if 'A' <= c <= 'F' {
        Some(c as int - 'A' as int + 10)
    } else {
        None
    }
}

/// The character with code `n`, below 256.
pub open spec fn byte_char(n: int) -> char {
    (n as u8) as char
}

/// The text written by the inside of a string literal, or `None` when an
/// escape is malformed. An escape is two backslashes followed by `'`, `n`,
/// `t`, `r`, `0`, `x` and two hex digits, or two more backslashes (which
/// stand for two backslashes).
pub open spec fn unescape_spec(s: Seq<char>) -> Option<Seq<char>>
    decreases s.len(),
{
    if s.len() == 0 {
        Some(Seq::empty())
    } else if s[0] != '\\' {
        match unescape_spec(s.skip(1)) {
            Some(t) => Some(seq![s[0]] + t),
            None => None,
        }
    } else if s.len() < 3 || s[1] != '\\' {
        None
    } else {
        let c = s[2];
        let (out, used): (Seq<char>, int) = if c == '\'' {
            (seq!['\''], 3)
        } else if c == 'n' {
            (seq!['\n'], 3)
        } else if c == 't' {
            (seq!['\t'], 3)
        } else if c == 'r' {
            (seq!['\r'], 3)
        } else if c == '0' {
            (seq!['\0'], 3)
        } else if c == '\\' && s.len() >= 4 && s[3] == '\\' {
            (seq!['\\', '\\'], 4)
        } else if c == 'x' && s.len() >= 5 && hex_value(s[3]) is Some && hex_value(s[4]) is Some {
            (seq![byte_char(hex_value(s[3])->Some_0 * 16 + hex_value(s[4])->Some_0)], 5)
        } else {
            (Seq::empty(), 0)
        };
        if used == 0 {
            None
        } else {
            match unescape_spec(s.skip(used)) {
                Some(t) => Some(out + t),
                None => None,
            }
        }
    }
}

/// `c` in lower case, for ASCII letters.
pub open spec fn ascii_lower(c: char) -> char {
    if 'A' <= c <= 'Z' {
        (((c as u32) + 32) as u8) as char
    } else {
        c
    }
}

/// Whether `s` equals `word` (given in lower case) ignoring ASCII case.
pub open spec fn equals_ignoring_case(s: Seq<char>, word: Seq<char>) -> bool {
    s.len() == word.len() && forall|i: int| 0 <= i < s.len() ==> ascii_lower(#[trigger] s[i]) == word[i]
}

/// White space as Unicode defines it (the property `White_Space`).
pub open spec fn is_white(c: char) -> bool {
    ('\t' <= c <= '\r') || c == ' ' || c == '\u{85}' || c == '\u{a0}' || c == '\u{1680}' || (
    '\u{2000}' <= c <= '\u{200a}') || c == '\u{2028}' || c == '\u{2029}' || c == '\u{202f}'
        || c == '\u{205f}' || c == '\u{3000}'
}

pub fn is_white_char(c: char) -> (r: bool)
    ensures
        r == is_white(c),
{
    ('\t' <= c && c <= '\r') || c == ' ' || c == '\u{85}' || c == '\u{a0}' || c == '\u{1680}' || (
    '\u{2000}' <= c && c <= '\u{200a}') || c == '\u{2028}' || c == '\u{2029}' || c == '\u{202f}'
        || c == '\u{205f}' || c == '\u{3000}'
}

/// `s` without leading and trailing white space.
pub open spec fn trim_spec(s: Seq<char>) -> Seq<char>
    decreases s.len(),
{
    if s.len() > 0 && is_white(s[0]) {
        trim_spec(s.skip(1))
    } else if s.len() > 0 && is_white(s.last()) {
        trim_spec(s.drop_last())
    } else {
        s
    }
}

pub fn is_blank_char(c: char) -> (r: bool)
    ensures
        r == is_blank(c),
{
    c == ' ' || c == '\t' || c == '\r'
}

pub fn is_letter_char(c: char) -> (r: bool)
    ensures
        r == is_letter(c),
{
    ('a' <= c && c <= 'z') || ('A' <= c && c <= 'Z') || c == '_'
}

pub fn is_word_character(c: char) -> (r: bool)
    ensures
        r == is_word_char(c),
{
    is_letter_char(c) || ('0' <= c && c <= '9')
}

fn hex_digit(c: char) -> (r: Option<u8>)
    ensures
        match hex_value(c) {
            Some(v) => r == Some(v as u8),
            None => r is None,
        },
{
    if '0' <= c && c <= '9' {
        Some((c as u32 - '0' as u32) as u8)
    } else if 'a' <= c && c <= 'f' {
        Some((c as u32 - 'a' as u32 + 10) as u8)
    } else if 'A' <= c && c <= 'F' {
        Some((c as u32 - 'A' as u32 + 10) as u8)
    } else {
        None
    }
}

proof fn lemma_skip_skip(s: Seq<char>, a: int, b: int)
    requires
        0 <= a,
        0 <= b,
        a + b <= s.len(),
    ensures
        s.skip(a).skip(b) =~= s.skip(a + b),
{
}

/// Processes the escapes of the inside of a string literal.
pub fn unescape_string(raw: &str) -> (r: Result<String, SyntaxError>)
    ensures
        match unescape_spec(raw@) {
            Some(t) => r is Ok && r->Ok_0@ == t,
            None => r is Err,
        },
{
    let cs = chars_of(raw);
    unescape_chars(&cs)
}

fn unescape_chars(s: &Vec<char>) -> (r: Result<String, SyntaxError>)
    ensures
        match unescape_spec(s@) {
            Some(t) => r is Ok && r->Ok_0@ == t,
            None => r is Err,
        },
{
    let mut out: Vec<char> = Vec::new();
    let mut i: usize = 0;
    assert(s@.skip(0) =~= s@);
    while i < s.len()
        invariant
            0 <= i <= s.len(),
            unescape_spec(s@) == match unescape_spec(s@.skip(i as int)) {
                Some(t) => Some(out@ + t),
                None => None::<Seq<char>>,
            },
        decreases s.len() - i,
    {
        let ghost rest = s@.skip(i as int);
        let c = s[i];
        if c != '\\' {
            proof {
                lemma_skip_skip(s@, i as int, 1);
                assert(rest[0] == c);
                match unescape_spec(rest.skip(1)) {
                    Some(t) => {
                        assert(out@.push(c) + t =~= out@ + (seq![c] + t));
                    },
                    None => {},
                }
            }
            out.push(c);
            i = i + 1;
        } else {
            proof {
                assert(rest[0] == c);
                assert(rest.len() == s.len() - i);
            }
            if s.len() - i < 3 || s[i + 1] != '\\' {
                proof {
                    if rest.len() >= 3 {
                        assert(rest[1] == s@[i + 1]);
                    }
                    assert(rest.len() > 0);
                    assert(rest[0] == '\\');
                    assert(rest.len() < 3 || rest[1] != '\\');
                    assert(unescape_spec(rest) is None);
                }
                return Err(SyntaxError::new("invalid escape sequence in string literal"));
            }
            let spec_char = s[i + 2];
            proof {
                assert(rest[1] == s@[i + 1]);
                assert(rest[2] == spec_char);
                if rest.len() >= 4 {
                    assert(rest[3] == s@[i + 3]);
                }
                if rest.len() >= 5 {
                    assert(rest[4] == s@[i + 4]);
                }
            }
            let mut used: usize = 3;
            if spec_char == '\'' {
                out.push('\'');
            } else if spec_char == 'n' {
                out.push('\n');
            } else if spec_char == 't' {
                out.push('\t');
            } else if spec_char == 'r' {
                out.push('\r');
            } else if spec_char == '0' {
                out.push('\0');
            } else if spec_char == '\\' && s.len() - i > 3 && s[i + 3] == '\\' {
                out.push('\\');
                out.push('\\');
                used = 4;
            } else if spec_char == 'x' && s.len() - i > 4 {
                let h1 = hex_digit(s[i + 3]);
                let h2 = hex_digit(s[i + 4]);
                match (h1, h2) {
                    (Some(a), Some(b)) => {
                        let v: u8 = a * 16 + b;
                        out.push(v as char);
                        used = 5;
                    },
                    _ => {
                        return Err(SyntaxError::new("invalid hex escape in string literal"));
                    },
                }
            } else {
                return Err(SyntaxError::new("invalid escape sequence in string literal"));
            }
            proof {
                lemma_skip_skip(s@, i as int, used as int);
            }
            i = i + used;
        }
    }
    assert(s@.skip(i as int) =~= Seq::<char>::empty());
    assert(out@ + Seq::<char>::empty() =~= out@);
    Ok(text_of(out.as_slice()))
}

} // verus!
