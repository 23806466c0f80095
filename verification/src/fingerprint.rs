//! Device fingerprinting: a stable key derived from request header bytes.
//!
//! The headers that reached the process are hashed in a fixed order; the
//! key is the lower-case hex form of the digest.

use vstd::prelude::*;

verus! {

/// What SHA-256 yields for a byte sequence; a function of the bytes alone.
pub uninterp spec fn sha256_of(data: Seq<u8>) -> Seq<u8>;

/// Relies on sha2's `Sha256`: the digest depends on the input bytes alone
/// and is 32 bytes long.
#[verifier::external_body]
fn sha256(data: &[u8]) -> (r: Vec<u8>)
    ensures
        r@ == sha256_of(data@),
        r@.len() == 32,
{
    <sha2::Sha256 as sha2::Digest>::digest(data).as_slice().to_vec()
}

/// Relies on `String::push`: appends exactly the one character.
#[verifier::external_body]
fn push_char(s: &mut String, c: char)
    ensures
        final(s)@ == old(s)@.push(c),
{
    s.push(c);
}

/// The lower-case hex digit for a nibble.
pub open spec fn spec_hex_digit(n: u8) -> char {
    if n == 0 {
        '0'
    } else if n == 1 {
        '1'
    } else if n == 2 {
        '2'
    } else if n == 3 {
        '3'
    } else if n == 4 {
        '4'
    } else if n == 5 {
        '5'
    } else if n == 6 {
        '6'
    } else if n == 7 {
        '7'
    } else if n == 8 {
        '8'
    } else if n == 9 {
        '9'
    } else if n == 10 {
        'a'
    } else if n == 11 {
        'b'
    } else if n == 12 {
        'c'
    } else if n == 13 {
        'd'
    } else if n == 14 {
        'e'
    } else {
        'f'
    }
}

fn hex_digit(n: u8) -> (c: char)
    requires
        n < 16,
    ensures
        c == spec_hex_digit(n),
{
    match n {
        0 => '0',
        1 => '1',
        2 => '2',
        3 => '3',
        4 => '4',
        5 => '5',
        6 => '6',
        7 => '7',
        8 => '8',
        9 => '9',
        10 => 'a',
        11 => 'b',
        12 => 'c',
        13 => 'd',
        14 => 'e',
        _ => 'f',
    }
}

/// Each byte as two lower-case hex digits, high nibble first.
pub open spec fn spec_to_hex(data: Seq<u8>) -> Seq<char>
    decreases data.len(),
{
    if data.len() == 0 {
        Seq::empty()
    } else {
        spec_to_hex(data.drop_last()).push(spec_hex_digit(data.last() / 16)).push(
            spec_hex_digit(data.last() % 16),
        )
    }
}

/// Render bytes as lower-case hex.
pub fn to_hex(data: &Vec<u8>) -> (r: String)
    ensures
        r@ == spec_to_hex(data@),
{
    let mut r = String::new();
    let n = data.len();
    let mut i: usize = 0;
    while i < n
        invariant
            n == data@.len(),
            i <= n,
            r@ == spec_to_hex(data@.take(i as int)),
        decreases n - i,
    {
        let b = data[i];
        push_char(&mut r, hex_digit(b / 16));
        push_char(&mut r, hex_digit(b % 16));
        proof {
            assert(data@.take(i + 1).drop_last() =~= data@.take(i as int));
            assert(data@.take(i + 1).last() == data@[i as int]);
        }
        i = i + 1;
    }
    proof {
        assert(data@.take(n as int) =~= data@);
    }
    r
}

/// The header parts laid end to end, in order.
pub open spec fn spec_concat(parts: Seq<Seq<u8>>) -> Seq<u8>
    decreases parts.len(),
{
    if parts.len() == 0 {
        Seq::empty()
    } else {
        spec_concat(parts.drop_last()) + parts.last()
    }
}

/// Lay the parts end to end.
fn concat_parts(parts: &Vec<Vec<u8>>) -> (r: Vec<u8>)
    ensures
        r@ == spec_concat(parts@.map_values(|p: Vec<u8>| p@)),
{
    let ghost views = parts@.map_values(|p: Vec<u8>| p@);
    let mut r: Vec<u8> = Vec::new();
    let n = parts.len();
    let mut i: usize = 0;
    while i < n
        invariant
            n == parts@.len(),
            views == parts@.map_values(|p: Vec<u8>| p@),
            i <= n,
            r@ == spec_concat(views.take(i as int)),
        decreases n - i,
    {
        let part = &parts[i];
        let m = part.len();
        let mut j: usize = 0;
        while j < m
            invariant
                m == part@.len(),
                j <= m,
                r@ == spec_concat(views.take(i as int)) + part@.take(j as int),
            decreases m - j,
        {
            r.push(part[j]);
            proof {
                assert(part@.take(j + 1) =~= part@.take(j as int).push(part@[j as int]));
            }
            j = j + 1;
        }
        proof {
            assert(views.take(i + 1).drop_last() =~= views.take(i as int));
            assert(views.take(i + 1).last() == views[i as int]);
            assert(part@.take(m as int) =~= part@);
        }
        i = i + 1;
    }
    proof {
        assert(views.take(n as int) =~= views);
        assert(spec_concat(views.take(0)) + Seq::<u8>::empty() =~= spec_concat(views.take(0)));
    }
    r
}

/// Derives a rate-limit key from the fingerprinting headers of a request
/// rather than from its source address.
#[derive(Clone)]
pub struct DeviceFingerprintKeyExtractor;

impl DeviceFingerprintKeyExtractor {
    /// The key for the given header values, present ones only, in the
    /// fixed fingerprinting order: the lower-case hex of the SHA-256
    /// digest of the values laid end to end.
    pub fn extract_from_headers(&self, parts: &Vec<Vec<u8>>) -> (r: String)
        ensures
            r@ == spec_to_hex(sha256_of(spec_concat(parts@.map_values(|p: Vec<u8>| p@)))),
    {
        let joined = concat_parts(parts);
        let digest = sha256(joined.as_slice());
        to_hex(&digest)
    }
}

} // verus!
