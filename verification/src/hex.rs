//! The hex parser: a whitespace-separated list of one- or two-digit hex
//! tokens becomes a bounded byte frame. The whole scan is modelled by a
//! specification-level state machine, and the executable parser is proved to
//! return exactly what the model says, for every input.

use vstd::prelude::*;
use vstd::string::StringSliceAdditionalSpecFns;

verus! {

/// The largest number of bytes a frame may hold.
pub const MAX_FRAME_BYTES: usize = 256;

/// A frame is valid when it fits the bound.
pub open spec fn valid_frame(s: Seq<u8>) -> bool {
    s.len() <= 256
}

/// ASCII whitespace: the token separators the parser accepts.
pub open spec fn is_ascii_space(c: u8) -> bool {
    c == 32 || c == 9 || c == 10 || c == 13 || c == 11 || c == 12
}

/// ASCII hexadecimal digit, either case.
pub open spec fn is_hex_digit(c: u8) -> bool {
    (48 <= c && c <= 57) || (97 <= c && c <= 102) || (65 <= c && c <= 70)
}

/// Numeric value of one hex digit.
pub open spec fn hex_digit_value(c: u8) -> u8 {
    if 48 <= c && c <= 57 {
        (c - 48) as u8
    } else if 97 <= c && c <= 102 {
        (c - 87) as u8
    } else {
        (c - 55) as u8
    }
}

/// A byte token: one or two hex digits.
pub open spec fn valid_hex_token(t: Seq<u8>) -> bool {
    if t.len() == 1 {
        is_hex_digit(t[0])
    } else if t.len() == 2 {
        is_hex_digit(t[0]) && is_hex_digit(t[1])
    } else {
        false
    }
}

/// The byte a valid token denotes.
pub open spec fn hex_token_value(t: Seq<u8>) -> u8 {
    if t.len() == 1 {
        hex_digit_value(t[0])
    } else {
        (hex_digit_value(t[0]) * 16 + hex_digit_value(t[1])) as u8
    }
}

/// Outcome of the specification-level scan.
pub enum HexScan {
    /// Every token was a byte and the bound held: the parsed frame.
    Parsed(Seq<u8>),
    /// The first token that is not one or two hex digits, verbatim.
    BadToken(Seq<u8>),
    /// A 257th byte was about to be produced.
    TooMany,
}

/// A finished token is appended to the frame: an invalid token is reported
/// before the capacity bound is looked at.
pub open spec fn push_token(acc: Seq<u8>, tok: Seq<u8>) -> HexScan {
    if !valid_hex_token(tok) {
        HexScan::BadToken(tok)
    } else if acc.len() >= 256 {
        HexScan::TooMany
    } else {
        HexScan::Parsed(acc.push(hex_token_value(tok)))
    }
}

/// The scan itself: `acc` holds the bytes parsed so far and `tok` the token
/// being read. Whitespace finishes the pending token; any other byte extends
/// it; the end of input finishes whatever is pending.
pub open spec fn scan_hex(b: Seq<u8>, i: int, acc: Seq<u8>, tok: Seq<u8>) -> HexScan
    decreases b.len() - i,
{
    if i < 0 || i >= b.len() {
        if tok.len() == 0 {
            HexScan::Parsed(acc)
        } else {
            push_token(acc, tok)
        }
    } else if is_ascii_space(b[i]) {
        if tok.len() == 0 {
            scan_hex(b, i + 1, acc, tok)
        } else {
            match push_token(acc, tok) {
                HexScan::Parsed(acc2) => scan_hex(b, i + 1, acc2, Seq::empty()),
                e => e,
            }
        }
    } else {
        scan_hex(b, i + 1, acc, tok.push(b[i]))
    }
}

/// What parsing a byte string yields.
pub open spec fn parse_hex_model(b: Seq<u8>) -> HexScan {
    scan_hex(b, 0, Seq::empty(), Seq::empty())
}

/// Why a hex byte list was rejected.
#[derive(Debug, Clone)]
pub enum ParseError {
    /// A token that is not one or two hexadecimal digits, kept verbatim.
    InvalidToken(Vec<u8>),
    /// More than 256 byte tokens were supplied.
    TooManyBytes,
}

fn is_space_exec(c: u8) -> (r: bool)
    ensures
        r == is_ascii_space(c),
{
    c == 32 || c == 9 || c == 10 || c == 13 || c == 11 || c == 12
}

fn is_hex_digit_exec(c: u8) -> (r: bool)
    ensures
        r == is_hex_digit(c),
{
    (48 <= c && c <= 57) || (97 <= c && c <= 102) || (65 <= c && c <= 70)
}

fn hex_digit_value_exec(c: u8) -> (r: u8)
    requires
        is_hex_digit(c),
    ensures
        r == hex_digit_value(c),
{
    if 48 <= c && c <= 57 {
        c - 48
    } else if 97 <= c {
        c - 87
    } else {
        c - 55
    }
}

fn token_ok(tok: &Vec<u8>) -> (r: bool)
    ensures
        r == valid_hex_token(tok@),
{
    if tok.len() == 1 {
        is_hex_digit_exec(tok[0])
    } else if tok.len() == 2 {
        is_hex_digit_exec(tok[0]) && is_hex_digit_exec(tok[1])
    } else {
        false
    }
}

fn token_value_exec(tok: &Vec<u8>) -> (r: u8)
    requires
        valid_hex_token(tok@),
    ensures
        r == hex_token_value(tok@),
{
    if tok.len() == 1 {
        hex_digit_value_exec(tok[0])
    } else {
        hex_digit_value_exec(tok[0]) * 16 + hex_digit_value_exec(tok[1])
    }
}

/// Parses a whitespace-separated hex byte list given as raw bytes.
pub fn parse_hex_bytes(input: &[u8]) -> (r: Result<Vec<u8>, ParseError>)
    ensures
        match r {
            Ok(v) => parse_hex_model(input@) == HexScan::Parsed(v@) && valid_frame(v@),
            Err(ParseError::InvalidToken(t)) => parse_hex_model(input@) == HexScan::BadToken(t@),
            Err(ParseError::TooManyBytes) => parse_hex_model(input@) == HexScan::TooMany,
        },
{
    let mut out: Vec<u8> = Vec::new();
    let mut tok: Vec<u8> = Vec::new();
    let mut i: usize = 0;
    while i < input.len()
        invariant
            i <= input.len(),
            out@.len() <= 256,
            scan_hex(input@, i as int, out@, tok@) == parse_hex_model(input@),
        decreases input.len() - i,
    {
        let c = input[i];
        if is_space_exec(c) {
            if tok.len() > 0 {
                if !token_ok(&tok) {
                    return Err(ParseError::InvalidToken(tok));
                }
                if out.len() == MAX_FRAME_BYTES {
                    return Err(ParseError::TooManyBytes);
                }
                let v = token_value_exec(&tok);
                out.push(v);
                tok.clear();
            }
        } else {
            tok.push(c);
        }
        i = i + 1;
    }
    if tok.len() > 0 {
        if !token_ok(&tok) {
            return Err(ParseError::InvalidToken(tok));
        }
        if out.len() == MAX_FRAME_BYTES {
            return Err(ParseError::TooManyBytes);
        }
        let v = token_value_exec(&tok);
        out.push(v);
    }
    Ok(out)
}

/// Parses a whitespace-separated hex byte list. The contract is stated over
/// the string's UTF-8 bytes; multi-byte characters can only occur inside a
/// token, where their bytes are not hex digits, so they are rejected.
pub fn parse_hex_input(s: &str) -> (r: Result<Vec<u8>, ParseError>)
    ensures
        match r {
            Ok(v) => parse_hex_model(s.spec_bytes()) == HexScan::Parsed(v@) && valid_frame(v@),
            Err(ParseError::InvalidToken(t)) => parse_hex_model(s.spec_bytes())
                == HexScan::BadToken(t@),
            Err(ParseError::TooManyBytes) => parse_hex_model(s.spec_bytes()) == HexScan::TooMany,
        },
{
    parse_hex_bytes(s.as_bytes())
}

} // verus!
