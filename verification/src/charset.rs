//! The character classes a layout may be asked to type: lowercase and
//! uppercase letters, digits, punctuation (space, tab and newline included),
//! and the full typable set, which is the union of the classes.

use vstd::prelude::*;

verus! {

/// The lowercase letters, in order.
pub open spec fn lowercase_chars_seq() -> Seq<char> {
    Seq::new(26, |k: int| (((97 + k) as u8) as char))
}

/// The uppercase letters, in order.
pub open spec fn uppercase_chars_seq() -> Seq<char> {
    Seq::new(26, |k: int| (((65 + k) as u8) as char))
}

/// The digits, as a layout lists them: zero through nine, and a trailing
/// repeated zero.
pub open spec fn digit_chars_seq() -> Seq<char> {
    Seq::new(11, |k: int| if k < 10 {
        (((48 + k) as u8) as char)
    } else {
        '0'
    })
}

/// The punctuation characters, space, tab and newline included.
pub open spec fn punctuation_chars_seq() -> Seq<char> {
    seq![
        '`', '-', '=', '[', ']', '\\', ';', '\'', ',', '.', '/', '~', '!', '@', '#', '$', '%',
        '^', '&', '*', '(', ')', '_', '+', '{', '}', '|', ':', '"', '<', '>', '?', ' ', '\t',
        '\n',
    ]
}

/// Every character a full layout must be able to type: the union of the
/// character classes.
pub open spec fn typable_chars_seq() -> Seq<char> {
    lowercase_chars_seq() + uppercase_chars_seq() + digit_chars_seq() + punctuation_chars_seq()
}

/// The lowercase letters as a list.
pub fn lowercase_chars() -> (r: Vec<char>)
    ensures
        r@ == lowercase_chars_seq(),
{
    let mut r: Vec<char> = Vec::new();
    let mut i: usize = 0;
    while i < 26
        invariant
            0 <= i <= 26,
            r@.len() == i,
            forall|k: int| 0 <= k < i ==> r@[k] == lowercase_chars_seq()[k],
        decreases 26 - i,
    {
        let code: u32 = 97 + (i as u32);
        r.push((code as u8) as char);
        i += 1;
    }
    proof {
        assert(r@ =~= lowercase_chars_seq());
    }
    r
}

/// The uppercase letters as a list.
pub fn uppercase_chars() -> (r: Vec<char>)
    ensures
        r@ == uppercase_chars_seq(),
{
    let mut r: Vec<char> = Vec::new();
    let mut i: usize = 0;
    while i < 26
        invariant
            0 <= i <= 26,
            r@.len() == i,
            forall|k: int| 0 <= k < i ==> r@[k] == uppercase_chars_seq()[k],
        decreases 26 - i,
    {
        let code: u32 = 65 + (i as u32);
        r.push((code as u8) as char);
        i += 1;
    }
    proof {
        assert(r@ =~= uppercase_chars_seq());
    }
    r
}

/// The digits as a list.
pub fn digit_chars() -> (r: Vec<char>)
    ensures
        r@ == digit_chars_seq(),
{
    let mut r: Vec<char> = Vec::new();
    let mut i: usize = 0;
    while i < 10
        invariant
            0 <= i <= 10,
            r@.len() == i,
            forall|k: int| 0 <= k < i ==> r@[k] == digit_chars_seq()[k],
        decreases 10 - i,
    {
        let code: u32 = 48 + (i as u32);
        r.push((code as u8) as char);
        i += 1;
    }
    r.push('0');
    proof {
        assert(r@ =~= digit_chars_seq());
    }
    r
}

/// The punctuation characters as a list.
pub fn punctuation_chars() -> (r: Vec<char>)
    ensures
        r@ == punctuation_chars_seq(),
{
    let mut r: Vec<char> = Vec::new();
    r.push('`');
    r.push('-');
    r.push('=');
    r.push('[');
    r.push(']');
    r.push('\\');
    r.push(';');
    r.push('\'');
    r.push(',');
    r.push('.');
    r.push('/');
    r.push('~');
    r.push('!');
    r.push('@');
    r.push('#');
    r.push('$');
    r.push('%');
    r.push('^');
    r.push('&');
    r.push('*');
    r.push('(');
    r.push(')');
    r.push('_');
    r.push('+');
    r.push('{');
    r.push('}');
    r.push('|');
    r.push(':');
    r.push('"');
    r.push('<');
    r.push('>');
    r.push('?');
    r.push(' ');
    r.push('\t');
    r.push('\n');
    proof {
        assert(r@ =~= punctuation_chars_seq());
    }
    r
}

/// The typable characters as a list: the classes, one after the other.
pub fn typable_chars() -> (r: Vec<char>)
    ensures
        r@ == typable_chars_seq(),
{
    let mut r = lowercase_chars();
    let mut upper = uppercase_chars();
    let mut digits = digit_chars();
    let mut punct = punctuation_chars();
    r.append(&mut upper);
    r.append(&mut digits);
    r.append(&mut punct);
    proof {
        assert(r@ =~= typable_chars_seq());
    }
    r
}

/// An ASCII lowercase letter.
pub open spec fn spec_is_ascii_lowercase(ch: char) -> bool {
    97 <= (ch as u32) && (ch as u32) <= 122
}

/// An ASCII uppercase letter.
pub open spec fn spec_is_ascii_uppercase(ch: char) -> bool {
    65 <= (ch as u32) && (ch as u32) <= 90
}

/// An ASCII digit.
pub open spec fn spec_is_ascii_digit(ch: char) -> bool {
    48 <= (ch as u32) && (ch as u32) <= 57
}

/// The lowercase form of an ASCII uppercase letter; any other character is
/// returned unchanged.
pub open spec fn spec_to_lowercase(ch: char) -> char {
    if spec_is_ascii_uppercase(ch) {
        (((ch as u32) + 32) as u8) as char
    } else {
        ch
    }
}

pub fn is_ascii_lowercase(ch: char) -> (r: bool)
    ensures
        r == spec_is_ascii_lowercase(ch),
{
    let c = ch as u32;
    97 <= c && c <= 122
}

pub fn is_ascii_uppercase(ch: char) -> (r: bool)
    ensures
        r == spec_is_ascii_uppercase(ch),
{
    let c = ch as u32;
    65 <= c && c <= 90
}

pub fn is_ascii_digit(ch: char) -> (r: bool)
    ensures
        r == spec_is_ascii_digit(ch),
{
    let c = ch as u32;
    48 <= c && c <= 57
}

pub fn to_lowercase(ch: char) -> (r: char)
    ensures
        r == spec_to_lowercase(ch),
{
    let c = ch as u32;
    if 65 <= c && c <= 90 {
        ((c + 32) as u8) as char
    } else {
        ch
    }
}

} // verus!
