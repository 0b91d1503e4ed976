//! The text form of a signature: hex byte pairs separated by ASCII
//! whitespace, with `??` for a byte that matches anything.

use crate::scan::WILDCARD;
use vstd::prelude::*;

verus! {

/// ASCII whitespace: space, tab, line feed, form feed, carriage return.
pub open spec fn is_space(b: u8) -> bool {
    b == 0x20u8 || b == 0x09u8 || b == 0x0Au8 || b == 0x0Cu8 || b == 0x0Du8
}

/// The value of a hexadecimal digit, in either case.
pub open spec fn hex_digit(b: u8) -> Option<u8> {
    if 0x30u8 <= b <= 0x39u8 {
        Some((b - 0x30u8) as u8)
    } else if 0x41u8 <= b <= 0x46u8 {
        Some((b - 0x41u8 + 10) as u8)
    } else if 0x61u8 <= b <= 0x66u8 {
        Some((b - 0x61u8 + 10) as u8)
    } else {
        None
    }
}

/// The pattern byte that the two-character token `a b` stands for.
pub open spec fn token_byte(a: u8, b: u8) -> Option<u8> {
    if a == 0x3Fu8 && b == 0x3Fu8 {
        Some(WILDCARD)
    } else {
        match (hex_digit(a), hex_digit(b)) {
            (Some(h), Some(l)) => Some((16 * h + l) as u8),
            _ => None,
        }
    }
}

/// The pattern that the signature text `s` spells, or `None` when some token
/// is not a hex byte pair or `??`.
pub open spec fn parse_signature(s: Seq<u8>) -> Option<Seq<u8>>
    decreases s.len(),
{
    if s.len() == 0 {
        Some(Seq::empty())
    } else if is_space(s[0]) {
        parse_signature(s.drop_first())
    } else if s.len() >= 2 && (s.len() == 2 || is_space(s[2])) && token_byte(s[0], s[1]) is Some {
        match parse_signature(s.skip(2)) {
            Some(rest) => Some(seq![token_byte(s[0], s[1])->Some_0] + rest),
            None => None,
        }
    } else {
        None
    }
}

/// `done` followed by what the rest parses to.
pub open spec fn after(done: Seq<u8>, rest: Option<Seq<u8>>) -> Option<Seq<u8>> {
    match rest {
        Some(r) => Some(done + r),
        None => None,
    }
}

fn space(b: u8) -> (r: bool)
    ensures
        r == is_space(b),
{
    b == 0x20 || b == 0x09 || b == 0x0A || b == 0x0C || b == 0x0D
}

fn digit(b: u8) -> (r: Option<u8>)
    ensures
        r == hex_digit(b),
{
    if 0x30 <= b && b <= 0x39 {
        Some(b - 0x30)
    } else if 0x41 <= b && b <= 0x46 {
        Some(b - 0x41 + 10)
    } else if 0x61 <= b && b <= 0x66 {
        Some(b - 0x61 + 10)
    } else {
        None
    }
}

fn token(a: u8, b: u8) -> (r: Option<u8>)
    ensures
        r == token_byte(a, b),
{
    if a == 0x3F && b == 0x3F {
        Some(WILDCARD)
    } else {
        match (digit(a), digit(b)) {
            (Some(h), Some(l)) => Some(16 * h + l),
            _ => None,
        }
    }
}

/// The pattern that the signature text spells, such as `48 8B ?? 05`.
pub fn sig(text: &[u8]) -> (r: Option<Vec<u8>>)
    ensures
        match r {
            Some(v) => parse_signature(text@) == Some(v@),
            None => parse_signature(text@) is None,
        },
{
    let len = text.len();
    let mut out: Vec<u8> = Vec::new();
    let mut i: usize = 0;
    assert(text@.skip(0) =~= text@);
    proof {
        if let Some(all) = parse_signature(text@) {
            assert(out@ + all =~= all);
        }
    }
    while i < len
        invariant
            len == text@.len(),
            0 <= i <= len,
            parse_signature(text@) == after(out@, parse_signature(text@.skip(i as int))),
        decreases len - i,
    {
        let rest = Ghost(text@.skip(i as int));
        let b = text[i];
        if space(b) {
            assert(rest@.drop_first() =~= text@.skip(i + 1));
            i = i + 1;
        } else if len - i >= 2 && (len - i == 2 || space(text[i + 2])) {
            match token(b, text[i + 1]) {
                Some(v) => {
                    assert(rest@.skip(2) =~= text@.skip(i + 2));
                    proof {
                        let tail = parse_signature(text@.skip(i + 2));
                        if tail is Some {
                            assert(out@ + (seq![v] + tail->Some_0) =~= out@.push(v)
                                + tail->Some_0);
                        }
                    }
                    out.push(v);
                    i = i + 2;
                },
                None => {
                    return None;
                },
            }
        } else {
            return None;
        }
    }
    assert(text@.skip(len as int) =~= Seq::<u8>::empty());
    assert(out@ + Seq::<u8>::empty() =~= out@);
    Some(out)
}

} // verus!
