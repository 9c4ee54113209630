//! Hashing of file contents: the digest itself is computed by an outside
//! implementation and trusted; its rendering as lowercase hex is verified.

use vstd::prelude::*;

verus! {

/// The SHA-256 digest of a byte string; a function of the bytes alone.
pub uninterp spec fn sha256_digest_of(data: Seq<u8>) -> Seq<u8>;

/// Relies on `sha2::Sha256` (through `sha2::Digest::digest`): the digest of
/// a byte string depends on the bytes alone and is 32 bytes long.
#[verifier::external_body]
fn sha256_digest(local_file_data: &Vec<u8>) -> (r: Vec<u8>)
    ensures
        r@ == sha256_digest_of(local_file_data@),
        r@.len() == 32,
{
    <sha2::Sha256 as sha2::Digest>::digest(local_file_data.as_slice()).to_vec()
}

/// The character of a hex digit value, lower case.
pub open spec fn hex_char(d: int) -> char {
    if d == 0 {
        '0'
    } else if d == 1 {
        '1'
    } else if d == 2 {
        '2'
    } else if d == 3 {
        '3'
    } else if d == 4 {
        '4'
    } else if d == 5 {
        '5'
    } else if d == 6 {
        '6'
    } else if d == 7 {
        '7'
    } else if d == 8 {
        '8'
    } else if d == 9 {
        '9'
    } else if d == 10 {
        'a'
    } else if d == 11 {
        'b'
    } else if d == 12 {
        'c'
    } else if d == 13 {
        'd'
    } else if d == 14 {
        'e'
    } else {
        'f'
    }
}

/// A byte string written as lowercase hex, two digits for each byte.
pub open spec fn spec_to_hex_lower(data: Seq<u8>) -> Seq<char>
    decreases data.len(),
{
    if data.len() == 0 {
        Seq::empty()
    } else {
        spec_to_hex_lower(data.drop_last()) + seq![
            hex_char(data.last() as int / 16),
            hex_char(data.last() as int % 16),
        ]
    }
}

/// The hex form of a byte string is twice as long as the byte string.
pub proof fn lemma_hex_len(data: Seq<u8>)
    ensures
        spec_to_hex_lower(data).len() == 2 * data.len(),
    decreases data.len(),
{
    if data.len() > 0 {
        lemma_hex_len(data.drop_last());
    }
}

fn hex_char_exec(d: u8) -> (c: char)
    requires
        d < 16,
    ensures
        c == hex_char(d as int),
{
    match d {
        0 => '0',
        1 => '1',
        2 => '2',
        3 => '3',
        4 => '4',
        5 => '5',
        6 => '6',
        7 => '7',
        8 => '8',
        9 => '9',
        10 => 'a',
        11 => 'b',
        12 => 'c',
        13 => 'd',
        14 => 'e',
        _ => 'f',
    }
}

/// Writes a byte string as lowercase hex, two digits for each byte.
pub fn to_hex_lower(data: &Vec<u8>) -> (r: String)
    ensures
        r@ == spec_to_hex_lower(data@),
{
    let mut out = String::new();
    for i in 0..data.len()
        invariant
            out@ == spec_to_hex_lower(data@.subrange(0, i as int)),
    {
        let b = data[i];
        out.push(hex_char_exec(b / 16));
        out.push(hex_char_exec(b % 16));
        proof {
            assert(data@.subrange(0, i + 1).drop_last() =~= data@.subrange(0, i as int));
            assert(out@ =~= spec_to_hex_lower(data@.subrange(0, i + 1)));
        }
    }
    proof {
        assert(data@.subrange(0, data@.len() as int) =~= data@);
    }
    out
}

/// The SHA-256 digest of the data, written as lowercase hex.
pub fn sha256(local_file_data: &Vec<u8>) -> (r: String)
    ensures
        r@ == spec_to_hex_lower(sha256_digest_of(local_file_data@)),
        r@.len() == 64,
{
    let digest = sha256_digest(local_file_data);
    proof {
        lemma_hex_len(digest@);
    }
    to_hex_lower(&digest)
}

} // verus!
