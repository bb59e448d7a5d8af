use drone_logbook::hashing::{hash_content, to_hex};
use drone_logbook::parser::{compute_file_hash, FileRead, LogParser};

#[test]
fn the_hash_of_a_file_is_its_sha256_in_hexadecimal_digits() {
    assert_eq!(
        hash_content(b"abc"),
        "ba7816bf8f01cfea414140de5dae2223b00361a396177a9cb410ff61f20015ad"
    );
    assert_eq!(
        hash_content(b""),
        "e3b0c44298fc1c149afbf4c8996fb92427ae41e4649b934ca495991b7852b855"
    );
    assert_eq!(
        LogParser::calculate_file_hash(b"The quick brown fox jumps over the lazy dog"),
        "d7a8fbb307d7809469ca9abcb0082e4f8d5651e46d3cdb762d02d0bf37c9e592"
    );
    // More than one block of the hash function.
    let long = vec![b'a'; 1_000_000];
    assert_eq!(
        hash_content(&long),
        "cdc76e5c9914fb9281a1c7e284d73e67f1809a48a497200e046d39ccc7112cd0"
    );
}

#[test]
fn bytes_are_written_as_two_lower_case_digits_each() {
    assert_eq!(to_hex(&vec![0x00, 0x0f, 0xa0, 0xff, 0x5c]), "000fa0ff5c");
    assert_eq!(to_hex(&Vec::new()), "");
}

#[test]
fn a_file_that_was_not_read_has_no_hash() {
    assert_eq!(compute_file_hash(&FileRead::Missing), Err("File not found".to_string()));
    assert_eq!(
        compute_file_hash(&FileRead::Failed("permission denied".to_string())),
        Err("Failed to compute hash: IO error: permission denied".to_string())
    );
    assert_eq!(
        compute_file_hash(&FileRead::Content(b"abc".to_vec())),
        Ok("ba7816bf8f01cfea414140de5dae2223b00361a396177a9cb410ff61f20015ad".to_string())
    );
}
