//! Payloads typed by the user: raw text, or whitespace-separated hex bytes.

use vstd::prelude::*;
use vstd::utf8::encode_utf8;
use vstd::string::StringSliceAdditionalSpecFns;

use crate::message::Command;

verus! {

/// Whether a non-ASCII character has the Unicode `White_Space` property.
pub uninterp spec fn unicode_whitespace(c: char) -> bool;

/// Among ASCII characters, `White_Space` holds of tab, line feed, vertical
/// tab, form feed, carriage return and space.
pub open spec fn ascii_whitespace(c: char) -> bool {
    9 <= c as u32 <= 13 || c as u32 == 32
}

/// Whether `c` separates hex tokens: whether it has the Unicode `White_Space`
/// property.
pub open spec fn whitespace(c: char) -> bool {
    if (c as u32) < 128 {
        ascii_whitespace(c)
    } else {
        unicode_whitespace(c)
    }
}

/// Relies on `char::is_whitespace`: true exactly for the characters with the
/// Unicode `White_Space` property, a fixed table.
#[verifier::external_body]
fn is_separator(c: char) -> (r: bool)
    ensures
        (c as u32) < 128 ==> r == ascii_whitespace(c),
        (c as u32) >= 128 ==> r == unicode_whitespace(c),
{
    c.is_whitespace()
}

/// The maximal runs of non-whitespace characters of `s`, in order.
pub open spec fn words(s: Seq<char>) -> Seq<Seq<char>>
    decreases s.len(),
{
    if s.len() == 0 {
        seq![]
    } else {
        let init = s.drop_last();
        let c = s.last();
        let w = words(init);
        if whitespace(c) {
            w
        } else if init.len() > 0 && !whitespace(init.last()) {
            w.drop_last().push(w.last().push(c))
        } else {
            w.push(seq![c])
        }
    }
}

/// The value of a base-16 digit (either case), if `c` is one.
pub open spec fn hex_digit(c: char) -> Option<nat> {
    let v = c as u32;
    if 48 <= v <= 57 {
        Some((v - 48) as nat)
    } else if 97 <= v <= 102 {
        Some((v - 87) as nat)
    } else if 65 <= v <= 70 {
        Some((v - 55) as nat)
    } else {
        None
    }
}

pub open spec fn all_hex_digits(d: Seq<char>) -> bool {
    forall|i: int| 0 <= i < d.len() ==> (#[trigger] hex_digit(d[i])) is Some
}

/// The number written by the base-16 digits `d`, most significant first.
pub open spec fn digits_value(d: Seq<char>) -> nat
    decreases d.len(),
{
    if d.len() == 0 {
        0
    } else {
        digits_value(d.drop_last()) * 16 + hex_digit(d.last()).unwrap_or(0)
    }
}

/// The digits of a token: the token without one optional leading `+`.
pub open spec fn token_digits(t: Seq<char>) -> Seq<char> {
    if t.len() > 0 && t[0] == '+' {
        t.drop_first()
    } else {
        t
    }
}

/// The byte a token denotes: an optional `+`, then one or more hex digits
/// whose value is at most 255 (leading zeros allowed).
pub open spec fn token_byte(t: Seq<char>) -> Option<u8> {
    let d = token_digits(t);
    if d.len() > 0 && all_hex_digits(d) && digits_value(d) < 256 {
        Some(digits_value(d) as u8)
    } else {
        None
    }
}

/// The bytes of a token list, or the index of its first malformed token.
pub open spec fn tokens_bytes(ts: Seq<Seq<char>>) -> Result<Seq<u8>, nat>
    decreases ts.len(),
{
    if ts.len() == 0 {
        Ok(seq![])
    } else {
        match tokens_bytes(ts.drop_last()) {
            Err(k) => Err(k),
            Ok(b) => match token_byte(ts.last()) {
                Some(x) => Ok(b.push(x)),
                None => Err((ts.len() - 1) as nat),
            },
        }
    }
}

/// What a hex-mode payload text denotes.
pub open spec fn hex_payload(s: Seq<char>) -> Result<Seq<u8>, nat> {
    tokens_bytes(words(s))
}

/// Why a hex-mode payload was rejected.
#[derive(Debug, Clone, Copy, PartialEq, Eq)]
pub enum HexError {
    /// The token at this position (counted from zero) is not a hex byte.
    InvalidToken(usize),
}

proof fn lemma_digits_value_grows(d: Seq<char>, c: char)
    ensures
        digits_value(d.push(c)) >= digits_value(d),
        digits_value(d.push(c)) == digits_value(d) * 16 + hex_digit(c).unwrap_or(0),
{
    assert(d.push(c).drop_last() =~= d);
}

/// Parses one token as a byte.
pub fn parse_token(t: &[char]) -> (r: Option<u8>)
    ensures
        r == token_byte(t@),
{
    let start: usize = if t.len() > 0 && t[0] == '+' { 1 } else { 0 };
    let ghost d = token_digits(t@);
    assert(d =~= t@.subrange(start as int, t@.len() as int));
    let mut value: u32 = 0;
    let mut over = false;
    let mut digits_ok = true;
    let mut i: usize = start;
    while i < t.len()
        invariant
            start <= i <= t.len(),
            d == t@.subrange(start as int, t@.len() as int),
            digits_ok == all_hex_digits(d.take(i - start)),
            !over ==> value == digits_value(d.take(i - start)) && value < 256,
            over ==> digits_value(d.take(i - start)) >= 256,
        decreases t.len() - i,
    {
        let c = t[i];
        let cv = c as u32;
        let dv: u32 = if 48 <= cv && cv <= 57 {
            cv - 48
        } else if 97 <= cv && cv <= 102 {
            cv - 87
        } else if 65 <= cv && cv <= 70 {
            cv - 55
        } else {
            digits_ok = false;
            0
        };
        proof {
            let k = i - start;
            assert(d.take(k + 1) =~= d.take(k).push(c));
            assert(d[k] == c);
            lemma_digits_value_grows(d.take(k), c);
            if digits_ok {
                assert forall|j: int| 0 <= j < k + 1 implies (#[trigger] hex_digit(
                    d.take(k + 1)[j],
                )) is Some by {
                    if j < k {
                        assert(d.take(k + 1)[j] == d.take(k)[j]);
                    }
                }
            } else if hex_digit(c) is Some {
                assert(!all_hex_digits(d.take(k)));
                let j = choose|j: int| 0 <= j < k && !(hex_digit(d.take(k)[j]) is Some);
                assert(d.take(k + 1)[j] == d.take(k)[j]);
            } else {
                assert(!(hex_digit(d.take(k + 1)[k as int]) is Some));
            }
        }
        if !over {
            value = value * 16 + dv;
            if value >= 256 {
                over = true;
            }
        }
        i = i + 1;
    }
    assert(d.take(t.len() - start) =~= d);
    if i > start && digits_ok && !over {
        Some(value as u8)
    } else {
        None
    }
}


proof fn lemma_tokens_bytes_push(ts: Seq<Seq<char>>, t: Seq<char>)
    ensures
        tokens_bytes(ts.push(t)) == (match tokens_bytes(ts) {
            Err(k) => Err(k),
            Ok(b) => match token_byte(t) {
                Some(x) => Ok(b.push(x)),
                None => Err(ts.len()),
            },
        }),
{
    assert(ts.push(t).drop_last() =~= ts);
}

/// Parses a hex-mode payload: whitespace-separated tokens, each an optional
/// `+` followed by hex digits worth at most 255, as in `"1A 2B 2C"`. The
/// whole payload is rejected, naming the first malformed token, if any token
/// is malformed.
pub fn parse_hex_payload(text: &[char]) -> (r: Result<Vec<u8>, HexError>)
    ensures
        match hex_payload(text@) {
            Ok(b) => r matches Ok(v) && v@ == b,
            Err(k) => r == Err::<Vec<u8>, HexError>(HexError::InvalidToken(k as usize)),
        },
{
    let mut bytes: Vec<u8> = Vec::new();
    let mut first_bad: Option<usize> = None;
    let mut count: usize = 0;
    let mut tok: Vec<char> = Vec::new();
    let ghost mut done: Seq<Seq<char>> = seq![];
    let mut i: usize = 0;
    while i < text.len()
        invariant
            i <= text.len(),
            count == done.len(),
            count <= i,
            tok@.len() > 0 <==> (i > 0 && !whitespace(text@[i - 1])),
            words(text@.take(i as int)) == if tok@.len() > 0 {
                done.push(tok@)
            } else {
                done
            },
            match first_bad {
                Some(k) => tokens_bytes(done) == Err::<Seq<u8>, nat>(k as nat),
                None => tokens_bytes(done) == Ok::<Seq<u8>, nat>(bytes@),
            },
        decreases text.len() - i,
    {
        let c = text[i];
        let ghost pre = text@.take(i as int);
        assert(text@.take(i + 1).drop_last() =~= pre);
        assert(text@.take(i + 1).last() == c);
        if is_separator(c) {
            if tok.len() > 0 {
                let parsed = parse_token(tok.as_slice());
                proof {
                    lemma_tokens_bytes_push(done, tok@);
                }
                if first_bad.is_none() {
                    match parsed {
                        Some(x) => bytes.push(x),
                        None => first_bad = Some(count),
                    }
                }
                proof {
                    done = done.push(tok@);
                }
                count = count + 1;
                tok = Vec::new();
            }
        } else {
            proof {
                if tok@.len() > 0 {
                    assert(pre.last() == text@[i - 1]);
                    assert(done.push(tok@).drop_last() =~= done);
                    assert(done.push(tok@.push(c)) =~= done.push(tok@).drop_last().push(
                        done.push(tok@).last().push(c),
                    ));
                } else if i > 0 {
                    assert(pre.last() == text@[i - 1]);
                }
            }
            let ghost old_tok = tok@;
            tok.push(c);
            proof {
                if old_tok.len() == 0 {
                    assert(tok@ =~= seq![c]);
                }
                assert(words(text@.take(i + 1)) == done.push(tok@));
            }
        }
        i = i + 1;
    }
    if tok.len() > 0 {
        let parsed = parse_token(tok.as_slice());
        proof {
            lemma_tokens_bytes_push(done, tok@);
        }
        if first_bad.is_none() {
            match parsed {
                Some(x) => bytes.push(x),
                None => first_bad = Some(count),
            }
        }
        proof {
            done = done.push(tok@);
        }
    }
    assert(text@.take(text.len() as int) =~= text@);
    match first_bad {
        Some(k) => Err(HexError::InvalidToken(k)),
        None => Ok(bytes),
    }
}


/// The bytes a payload text denotes: its UTF-8 encoding in raw mode, its hex
/// tokens in hex mode.
pub open spec fn payload(text: Seq<char>, hex_mode: bool) -> Result<Seq<u8>, nat> {
    if hex_mode {
        hex_payload(text)
    } else {
        Ok(encode_utf8(text))
    }
}

/// The characters of `text`, in order.
pub fn text_chars(text: &str) -> (r: Vec<char>)
    ensures
        r@ == text@,
{
    let mut r: Vec<char> = Vec::new();
    for c in it: text.chars()
        invariant
            r@ == it.seq().take(it.index() as int),
    {
        r.push(c);
    }
    r
}

/// The bytes to send for `text` in the given mode.
pub fn payload_bytes(text: &str, hex_mode: bool) -> (r: Result<Vec<u8>, HexError>)
    ensures
        match payload(text@, hex_mode) {
            Ok(b) => r matches Ok(v) && v@ == b,
            Err(k) => r == Err::<Vec<u8>, HexError>(HexError::InvalidToken(k as usize)),
        },
{
    if hex_mode {
        let chars = text_chars(text);
        parse_hex_payload(chars.as_slice())
    } else {
        Ok(vstd::slice::slice_to_vec(text.as_bytes()))
    }
}

/// The `Send` command for the send action, or why its text was rejected;
/// a rejected text yields no command.
pub fn send_command(text: &str, hex_mode: bool) -> (r: Result<Command, HexError>)
    ensures
        match payload(text@, hex_mode) {
            Ok(b) => r matches Ok(Command::Send(v)) && v@ == b,
            Err(k) => r == Err::<Command, HexError>(HexError::InvalidToken(k as usize)),
        },
{
    match payload_bytes(text, hex_mode) {
        Ok(v) => Ok(Command::Send(v)),
        Err(e) => Err(e),
    }
}

} // verus!
