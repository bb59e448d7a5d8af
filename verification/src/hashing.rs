//! Content hashes of log files.

use vstd::prelude::*;
use sha2::Digest;

verus! {

/// The SHA-256 digest of a run of bytes.
pub uninterp spec fn sha256_of(data: Seq<u8>) -> Seq<u8>;

/// Calls `sha2::Sha256::digest`. The digest depends on the bytes alone and
/// is thirty-two bytes long; which bytes they are is not stated here.
#[verifier::external_body]
pub(crate) fn sha256(data: &[u8]) -> (digest: Vec<u8>)
    ensures
        digest@ == sha256_of(data@),
        digest@.len() == 32,
{
    sha2::Sha256::digest(data).to_vec()
}

/// The lower-case hexadecimal digit of a value below sixteen.
pub open spec fn hex_digit(nibble: u8) -> char {
    if nibble < 10 {
        (48 + nibble) as char
    } else {
        (87 + nibble) as char
    }
}

/// The bytes written as lower-case hexadecimal digits, two for each byte,
/// the high half first.
pub open spec fn hex_of(bytes: Seq<u8>) -> Seq<char>
    decreases bytes.len(),
{
    if bytes.len() == 0 {
        Seq::empty()
    } else {
        hex_of(bytes.drop_last()).push(hex_digit(bytes.last() / 16)).push(
            hex_digit(bytes.last() % 16),
        )
    }
}

/// Bytes are written with two digits each.
pub proof fn lemma_hex_of_len(bytes: Seq<u8>)
    ensures
        hex_of(bytes).len() == 2 * bytes.len(),
    decreases bytes.len(),
{
    if bytes.len() > 0 {
        lemma_hex_of_len(bytes.drop_last());
    }
}

fn to_hex_digit(nibble: u8) -> (c: char)
    requires
        nibble < 16,
    ensures
        c == hex_digit(nibble),
{
    if nibble < 10 {
        (48 + nibble) as char
    } else {
        (87 + nibble) as char
    }
}

/// Writes bytes as lower-case hexadecimal digits.
pub fn to_hex(bytes: &Vec<u8>) -> (text: String)
    ensures
        text@ == hex_of(bytes@),
        text@.len() == 2 * bytes@.len(),
{
    let mut text = String::new();
    let mut i: usize = 0;
    assert(bytes@.take(0) =~= Seq::<u8>::empty());
    while i < bytes.len()
        invariant
            i <= bytes.len(),
            text@ == hex_of(bytes@.take(i as int)),
        decreases bytes.len() - i,
    {
        let b = bytes[i];
        proof {
            let prefix = bytes@.take(i + 1);
            assert(prefix.drop_last() =~= bytes@.take(i as int));
            assert(prefix.last() == b);
        }
        text.push(to_hex_digit(b / 16));
        text.push(to_hex_digit(b % 16));
        i += 1;
    }
    proof {
        assert(bytes@.take(bytes@.len() as int) =~= bytes@);
        lemma_hex_of_len(bytes@);
    }
    text
}

/// The content hash of a file: its SHA-256 digest in lower-case
/// hexadecimal digits.
pub open spec fn file_hash_of(content: Seq<u8>) -> Seq<char> {
    hex_of(sha256_of(content))
}

/// Computes the content hash of a file, sixty-four hexadecimal digits.
pub fn hash_content(content: &[u8]) -> (hash: String)
    ensures
        hash@ == file_hash_of(content@),
        hash@.len() == 64,
{
    let digest = sha256(content);
    to_hex(&digest)
}

} // verus!
