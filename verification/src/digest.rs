//! Content digests and offline identity: the MD5 digest of a byte
//! vector, its lowercase hex form, a digest comparison for the integrity
//! gate, and the offline-player UUID derived from a nickname.
use vstd::prelude::*;
use vstd::string::*;

verus! {

use crate::strutil::{from_chars, str_eq};

/// The 16-byte MD5 digest of a byte sequence.
pub uninterp spec fn md5_of(data: Seq<u8>) -> Seq<u8>;

/// Relies on `Md5::digest` of the md-5 crate: the digest is a function
/// of the input bytes alone, and is 16 bytes long.
#[verifier::external_body]
fn md5_digest(data: &Vec<u8>) -> (r: Vec<u8>)
    ensures
        r@ == md5_of(data@),
        r@.len() == 16,
{
    <md5::Md5 as md5::Digest>::digest(data.as_slice()).to_vec()
}

/// The lowercase hex character of one digit value.
pub open spec fn hex_digit_spec(d: int) -> char {
    if d == 0 {
        '0'
    } else if d == 1 {
        '1'
    } else if d == 2 {
        '2'
    } else if d == 3 {
        '3'
    } else if d == 4 {
        '4'
    } else if d == 5 {
        '5'
    } else if d == 6 {
        '6'
    } else if d == 7 {
        '7'
    } else if d == 8 {
        '8'
    } else if d == 9 {
        '9'
    } else if d == 10 {
        'a'
    } else if d == 11 {
        'b'
    } else if d == 12 {
        'c'
    } else if d == 13 {
        'd'
    } else if d == 14 {
        'e'
    } else {
        'f'
    }
}

/// The lowercase hex form of a byte sequence: two characters per byte,
/// high digit first.
pub open spec fn hex_of_bytes_spec(bs: Seq<u8>) -> Seq<char>
    decreases bs.len(),
{
    if bs.len() == 0 {
        Seq::empty()
    } else {
        seq![hex_digit_spec(bs[0] as int / 16), hex_digit_spec(bs[0] as int % 16)]
            + hex_of_bytes_spec(bs.skip(1))
    }
}

/// The lowercase hex character of one digit value.
fn hex_digit(d: u8) -> (c: char)
    requires
        d < 16,
    ensures
        c == hex_digit_spec(d as int),
{
    if d == 0 {
        '0'
    } else if d == 1 {
        '1'
    } else if d == 2 {
        '2'
    } else if d == 3 {
        '3'
    } else if d == 4 {
        '4'
    } else if d == 5 {
        '5'
    } else if d == 6 {
        '6'
    } else if d == 7 {
        '7'
    } else if d == 8 {
        '8'
    } else if d == 9 {
        '9'
    } else if d == 10 {
        'a'
    } else if d == 11 {
        'b'
    } else if d == 12 {
        'c'
    } else if d == 13 {
        'd'
    } else if d == 14 {
        'e'
    } else {
        'f'
    }
}

/// Encodes a byte vector as lowercase hex characters.
pub fn hex_of_bytes(bs: &Vec<u8>) -> (r: Vec<char>)
    ensures
        r@ == hex_of_bytes_spec(bs@),
{
    let mut r: Vec<char> = Vec::new();
    let mut i: usize = 0;
    proof {
        assert(bs@.skip(0) =~= bs@);
        assert(r@ + hex_of_bytes_spec(bs@) =~= hex_of_bytes_spec(bs@));
    }
    while i < bs.len()
        invariant
            i <= bs@.len(),
            hex_of_bytes_spec(bs@) == r@ + hex_of_bytes_spec(bs@.skip(i as int)),
        decreases bs@.len() - i,
    {
        proof {
            assert(bs@.skip(i as int)[0] == bs@[i as int]);
            assert(bs@.skip(i as int).skip(1) =~= bs@.skip(i + 1));
        }
        let b = bs[i];
        r.push(hex_digit(b / 16));
        r.push(hex_digit(b % 16));
        i += 1;
        proof {
            assert(hex_of_bytes_spec(bs@) =~= r@ + hex_of_bytes_spec(bs@.skip(i as int)));
        }
    }
    proof {
        assert(bs@.skip(i as int) =~= Seq::<u8>::empty());
        assert(r@ + Seq::<char>::empty() =~= r@);
    }
    r
}

proof fn lemma_hex_len(bs: Seq<u8>)
    ensures
        hex_of_bytes_spec(bs).len() == 2 * bs.len(),
    decreases bs.len(),
{
    if bs.len() > 0 {
        lemma_hex_len(bs.skip(1));
    }
}

/// The lowercase hex MD5 digest of a byte vector, 32 characters; the
/// caller reads the file, this computes its digest string.
pub fn md5_hex(data: &Vec<u8>) -> (r: String)
    ensures
        r@ == hex_of_bytes_spec(md5_of(data@)),
        r@.len() == 32,
{
    let digest = md5_digest(data);
    proof {
        lemma_hex_len(digest@);
    }
    let chars = hex_of_bytes(&digest);
    from_chars(&chars)
}

/// Decides whether the MD5 digest of `data` matches the expected
/// lowercase hex digest.
pub fn digest_matches(data: &Vec<u8>, expected_hex: &str) -> (r: bool)
    ensures
        r == (hex_of_bytes_spec(md5_of(data@)) == expected_hex@),
{
    let actual = md5_hex(data);
    str_eq(actual.as_str(), expected_hex)
}

/// The hyphenated string of the version-3 UUID built from a 16-byte MD5
/// digest.
pub uninterp spec fn uuid_of_md5(hash: Seq<u8>) -> Seq<char>;

/// Relies on `uuid::Builder::from_md5_bytes` and `Uuid`'s hyphenated
/// display: the RFC 4122 version-3 UUID string is a function of the 16
/// hash bytes alone, and is 36 characters long.
#[verifier::external_body]
fn uuid_from_md5(hash: &Vec<u8>) -> (r: String)
    requires
        hash@.len() == 16,
    ensures
        r@ == uuid_of_md5(hash@),
        r@.len() == 36,
{
    let mut bytes = [0u8; 16];
    bytes.copy_from_slice(hash.as_slice());
    uuid::Builder::from_md5_bytes(bytes).into_uuid().to_string()
}

/// The UTF-8 bytes of the fixed offline-player prefix.
pub open spec fn offline_player_prefix_spec() -> Seq<u8> {
    seq![
        79u8,
        102u8,
        102u8,
        108u8,
        105u8,
        110u8,
        101u8,
        80u8,
        108u8,
        97u8,
        121u8,
        101u8,
        114u8,
        58u8,
    ]
}

/// The offline UUID of a nickname: the version-3 UUID of the MD5 digest
/// of the bytes of `OfflinePlayer:` followed by the nickname's bytes.
pub fn generate_offline_uuid(nickname: &str) -> (r: String)
    ensures
        r@ == uuid_of_md5(md5_of(offline_player_prefix_spec() + nickname.spec_bytes())),
        r@.len() == 36,
{
    let mut data: Vec<u8> = Vec::new();
    data.push(79u8);
    data.push(102u8);
    data.push(102u8);
    data.push(108u8);
    data.push(105u8);
    data.push(110u8);
    data.push(101u8);
    data.push(80u8);
    data.push(108u8);
    data.push(97u8);
    data.push(121u8);
    data.push(101u8);
    data.push(114u8);
    data.push(58u8);
    proof {
        assert(data@ =~= offline_player_prefix_spec());
    }
    let nb = nickname.as_bytes();
    let mut i: usize = 0;
    while i < nb.len()
        invariant
            nb@ == nickname.spec_bytes(),
            i <= nb@.len(),
            data@ == offline_player_prefix_spec() + nb@.subrange(0, i as int),
        decreases nb@.len() - i,
    {
        data.push(nb[i]);
        i += 1;
        proof {
            assert(data@ =~= offline_player_prefix_spec() + nb@.subrange(0, i as int));
        }
    }
    proof {
        assert(data@ =~= offline_player_prefix_spec() + nickname.spec_bytes());
    }
    let hash = md5_digest(&data);
    uuid_from_md5(&hash)
}

} // verus!
