//! Signed-request construction for the exchange REST API: build the query
//! string `k1=v1&...&timestamp=<ms>` and append
//! `&signature=<lowercase hex of HMAC-SHA256(secret, query)>`.

use hmac::{Hmac, KeyInit, Mac};
use sha2::Sha256;
use crate::decimal::spec_digits;
use vstd::prelude::*;
use vstd::string::{StringExecFns, StringSliceAdditionalSpecFns};

verus! {

/// The HMAC-SHA256 tag of `msg` under `key`: a function of the two byte
/// strings alone, left abstract.
pub uninterp spec fn hmac_sha256_spec(key: Seq<u8>, msg: Seq<u8>) -> Seq<u8>;

/// Relies on `hmac::Hmac<sha2::Sha256>`: the 32-byte HMAC-SHA256 tag of the
/// message under the key. HMAC accepts keys of any length, so building the
/// MAC cannot fail.
#[verifier::external_body]
fn hmac_sha256(key: &[u8], msg: &[u8]) -> (r: Vec<u8>)
    ensures
        r@ == hmac_sha256_spec(key@, msg@),
        r@.len() == 32,
{
    let mut mac = Hmac::<Sha256>::new_from_slice(key).unwrap();
    mac.update(msg);
    mac.finalize().into_bytes().to_vec()
}

/// The lowercase hexadecimal digit of a value below sixteen.
pub open spec fn hex_char(n: int) -> char {
    if n == 0 {
        '0'
    } else if n == 1 {
        '1'
    } else if n == 2 {
        '2'
    } else if n == 3 {
        '3'
    } else if n == 4 {
        '4'
    } else if n == 5 {
        '5'
    } else if n == 6 {
        '6'
    } else if n == 7 {
        '7'
    } else if n == 8 {
        '8'
    } else if n == 9 {
        '9'
    } else if n == 10 {
        'a'
    } else if n == 11 {
        'b'
    } else if n == 12 {
        'c'
    } else if n == 13 {
        'd'
    } else if n == 14 {
        'e'
    } else {
        'f'
    }
}

/// Lowercase hex encoding of a byte string, high nibble of each byte first.
pub open spec fn hex_of(bytes: Seq<u8>) -> Seq<char>
    decreases bytes.len(),
{
    if bytes.len() == 0 {
        Seq::empty()
    } else {
        hex_of(bytes.drop_last()).push(hex_char(bytes.last() as int / 16)).push(
            hex_char(bytes.last() as int % 16),
        )
    }
}

/// Relies on `hex::encode`: lowercase hex, two digits per byte, high nibble
/// first.
#[verifier::external_body]
fn hex_encode(bytes: &[u8]) -> (r: String)
    ensures
        r@ == hex_of(bytes@),
{
    hex::encode(bytes)
}

/// Relies on `std::time::SystemTime`: the milliseconds since the Unix
/// epoch, read from the wall clock.
#[verifier::external_body]
pub fn now_millis() -> u64 {
    std::time::SystemTime::now().duration_since(std::time::UNIX_EPOCH).unwrap().as_millis() as u64
}

/// Sign a query string: the lowercase hex of its HMAC-SHA256 tag under the
/// secret key.
pub fn sign(secret: &str, query: &str) -> (r: String)
    ensures
        r@ == hex_of(hmac_sha256_spec(secret.spec_bytes(), query.spec_bytes())),
{
    let tag: Vec<u8> = hmac_sha256(secret.as_bytes(), query.as_bytes());
    hex_encode(tag.as_slice())
}

/// A number rendered in decimal.
pub fn u64_to_string(n: u64) -> (r: String)
    ensures
        r@ == spec_digits(n as int),
{
    let mut s: String = String::new();
    crate::decimal::push_digits(&mut s, n as u128);
    proof {
        assert(s@ =~= spec_digits(n as int));
    }
    s
}

/// The views of a parameter list.
pub open spec fn param_views(ps: Seq<(String, String)>) -> Seq<(Seq<char>, Seq<char>)> {
    ps.map_values(|p: (String, String)| (p.0@, p.1@))
}

/// `k1=v1&k2=v2&...` over the given parameters.
pub open spec fn spec_params_query(ps: Seq<(Seq<char>, Seq<char>)>) -> Seq<char>
    decreases ps.len(),
{
    if ps.len() == 0 {
        Seq::empty()
    } else if ps.len() == 1 {
        ps[0].0 + "="@ + ps[0].1
    } else {
        spec_params_query(ps.drop_last()) + "&"@ + ps.last().0 + "="@ + ps.last().1
    }
}

/// The full query of a signed request before its signature: the parameters
/// in order, then the timestamp.
pub open spec fn spec_query(ps: Seq<(Seq<char>, Seq<char>)>, ts: int) -> Seq<char> {
    if ps.len() == 0 {
        "timestamp="@ + spec_digits(ts)
    } else {
        spec_params_query(ps) + "&timestamp="@ + spec_digits(ts)
    }
}

/// The signed query: the query, then `&signature=` and the lowercase hex of
/// its HMAC-SHA256 tag under the secret key.
pub open spec fn spec_signed_query(
    ps: Seq<(Seq<char>, Seq<char>)>,
    ts: int,
    key: Seq<u8>,
) -> Seq<char> {
    let q = spec_query(ps, ts);
    q + "&signature="@ + hex_of(hmac_sha256_spec(key, vstd::utf8::encode_utf8(q)))
}

/// Build `k1=v1&...&timestamp=<ts>` with the parameters in insertion order.
pub fn build_query(params: &Vec<(String, String)>, timestamp: u64) -> (r: String)
    ensures
        r@ == spec_query(param_views(params@), timestamp as int),
{
    let mut s: String = String::new();
    let n: usize = params.len();
    let mut i: usize = 0;
    while i < n
        invariant
            i <= n,
            n == params@.len(),
            s@ == spec_params_query(param_views(params@).subrange(0, i as int)),
        decreases n - i,
    {
        if i > 0 {
            s.append("&");
        }
        s.append(params[i].0.as_str());
        s.append("=");
        s.append(params[i].1.as_str());
        proof {
            let pv = param_views(params@);
            assert(pv.subrange(0, i + 1).drop_last() =~= pv.subrange(0, i as int));
            if i == 0 {
                assert(s@ =~= spec_params_query(pv.subrange(0, 1)));
            }
        }
        i = i + 1;
    }
    proof {
        assert(param_views(params@).subrange(0, n as int) =~= param_views(params@));
    }
    if n > 0 {
        s.append("&timestamp=");
    } else {
        s.append("timestamp=");
    }
    let ts: String = u64_to_string(timestamp);
    s.append(ts.as_str());
    proof {
        assert(s@ =~= spec_query(param_views(params@), timestamp as int));
    }
    s
}

/// Build the signed query of a request: the parameters, a wall-clock
/// timestamp, and the signature over what precedes it.
pub fn build_signed_query(params: &Vec<(String, String)>, secret: &str) -> (r: String)
    ensures
        exists|ts: int|
            0 <= ts <= u64::MAX && r@ == spec_signed_query(
                param_views(params@),
                ts,
                secret.spec_bytes(),
            ),
{
    let timestamp: u64 = now_millis();
    let mut q: String = build_query(params, timestamp);
    let sig: String = sign(secret, q.as_str());
    q.append("&signature=");
    q.append(sig.as_str());
    proof {
        assert(q@ =~= spec_signed_query(
            param_views(params@),
            timestamp as int,
            secret.spec_bytes(),
        ));
    }
    q
}

} // verus!
