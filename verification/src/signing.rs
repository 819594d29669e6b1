//! Per-request authentication for the remote host-management API.
//!
//! A request token is the hex MD5 digest of the vendor word `1panel`, the
//! trimmed shared credential, and the decimal Unix timestamp, concatenated in
//! that order and encoded as UTF-8. The token depends on the credential and
//! the timestamp alone, so the same pair always signs the same way.

use vstd::prelude::*;

use crate::text::{
    chars_string, dec_digits_signed, dec_i64_string, str_chars, trim_chars, trim_spec,
};

verus! {

/// The 16-byte MD5 digest of a byte string, named after `md5::compute`: the
/// digest is a function of the input bytes alone.
pub uninterp spec fn md5_digest_of(m: Seq<u8>) -> Seq<u8>;

/// Relies on `md5::compute`: returns the 16-byte MD5 digest of the input,
/// which depends on the input bytes alone.
#[verifier::external_body]
fn md5_digest(m: &[u8]) -> (r: Vec<u8>)
    ensures
        r@ == md5_digest_of(m@),
        r@.len() == 16,
{
    md5::compute(m).0.to_vec()
}

/// The lower-case hex digit for a value below sixteen.
pub open spec fn hex_digit(d: int) -> char {
    seq!['0', '1', '2', '3', '4', '5', '6', '7', '8', '9', 'a', 'b', 'c', 'd', 'e', 'f'][d]
}

/// Runtime counterpart of [`hex_digit`].
fn hex_digit_exec(d: u8) -> (r: char)
    requires
        d < 16,
    ensures
        r == hex_digit(d as int),
{
    match d {
        0 => '0',
        1 => '1',
        2 => '2',
        3 => '3',
        4 => '4',
        5 => '5',
        6 => '6',
        7 => '7',
        8 => '8',
        9 => '9',
        10 => 'a',
        11 => 'b',
        12 => 'c',
        13 => 'd',
        14 => 'e',
        _ => 'f',
    }
}

/// The lower-case hex rendering of a byte string, two digits per byte.
pub open spec fn hex_of(bs: Seq<u8>) -> Seq<char> {
    Seq::new(
        bs.len() * 2,
        |i: int|
            if i % 2 == 0 {
                hex_digit(bs[i / 2] as int / 16)
            } else {
                hex_digit(bs[i / 2] as int % 16)
            },
    )
}

/// The hex rendering of the given bytes as characters.
fn hex_chars(bs: &Vec<u8>) -> (r: Vec<char>)
    ensures
        r@ == hex_of(bs@),
{
    let mut r: Vec<char> = Vec::new();
    let mut i: usize = 0;
    while i < bs.len()
        invariant
            i <= bs@.len(),
            r@ == hex_of(bs@.take(i as int)),
        decreases bs@.len() - i,
    {
        let b = bs[i];
        r.push(hex_digit_exec(b / 16));
        r.push(hex_digit_exec(b % 16));
        i = i + 1;
        proof {
            assert(r@ =~= hex_of(bs@.take(i as int)));
        }
    }
    proof {
        assert(bs@.take(bs@.len() as int) =~= bs@);
    }
    r
}

/// The text that is digested for one request: the vendor word, the trimmed
/// credential, and the decimal timestamp.
pub open spec fn signing_message(credential: Seq<char>, timestamp: int) -> Seq<char> {
    seq!['1', 'p', 'a', 'n', 'e', 'l'] + trim_spec(credential) + dec_digits_signed(timestamp)
}

/// The request token for a credential and a Unix timestamp: the lower-case
/// hex MD5 digest of the UTF-8 bytes of the signing message.
pub open spec fn token_spec(credential: Seq<char>, timestamp: int) -> Seq<char> {
    hex_of(md5_digest_of(vstd::utf8::encode_utf8(signing_message(credential, timestamp))))
}

/// Signs one request: a pure function of the credential and the timestamp.
pub fn sign_token(credential: &str, timestamp: i64) -> (r: String)
    ensures
        r@ == token_spec(credential@, timestamp as int),
{
    let cred = str_chars(credential);
    let trimmed = trim_chars(&cred);
    let mut msg: Vec<char> = Vec::new();
    msg.push('1');
    msg.push('p');
    msg.push('a');
    msg.push('n');
    msg.push('e');
    msg.push('l');
    let mut k: usize = 0;
    while k < trimmed.len()
        invariant
            k <= trimmed@.len(),
            msg@ == seq!['1', 'p', 'a', 'n', 'e', 'l'] + trimmed@.take(k as int),
        decreases trimmed@.len() - k,
    {
        msg.push(trimmed[k]);
        k = k + 1;
        proof {
            assert(msg@ =~= seq!['1', 'p', 'a', 'n', 'e', 'l'] + trimmed@.take(k as int));
        }
    }
    let ts = dec_i64_string(timestamp);
    let ts_chars = str_chars(ts.as_str());
    let mut j: usize = 0;
    while j < ts_chars.len()
        invariant
            j <= ts_chars@.len(),
            msg@ == seq!['1', 'p', 'a', 'n', 'e', 'l'] + trimmed@ + ts_chars@.take(j as int),
        decreases ts_chars@.len() - j,
    {
        msg.push(ts_chars[j]);
        j = j + 1;
        proof {
            assert(msg@ =~= seq!['1', 'p', 'a', 'n', 'e', 'l'] + trimmed@ + ts_chars@.take(
                j as int,
            ));
        }
    }
    proof {
        assert(trimmed@.take(trimmed@.len() as int) =~= trimmed@);
        assert(ts_chars@.take(ts_chars@.len() as int) =~= ts_chars@);
        assert(msg@ =~= signing_message(credential@, timestamp as int));
    }
    let msg_string = chars_string(&msg);
    let digest = md5_digest(msg_string.as_str().as_bytes());
    let hex = hex_chars(&digest);
    chars_string(&hex)
}

} // verus!
