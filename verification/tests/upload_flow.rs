use server_test_csharp::factory::RoleFactory;
use server_test_csharp::ids::NIL_ID;
use server_test_csharp::repository::identifier_condition;
use server_test_csharp::assembly::{after_chunk_stored, Assembly, StoreOutcome};
use server_test_csharp::upload::{
    check_chunk_size, check_first_chunk, hash_file_name, check_upload_size, generate_chunk_dir_id, chunk_file_name, completion_message,
    relative_output_path, temp_dir_name, upload_file_name, waiting_message, ChunkHasher,
    STATUS_PAYLOAD_TOO_LARGE, STATUS_UNSUPPORTED_MEDIA_TYPE,
};

const PNG: [u8; 8] = [0x89, 0x50, 0x4E, 0x47, 0x0D, 0x0A, 0x1A, 0x0A];
const SAMPLE_ID: u128 = 0x550e8400_e29b_41d4_a716_446655440000;

#[test]
fn uploads_up_to_fifty_mebibytes_are_accepted() {
    assert!(check_upload_size(0).is_ok());
    assert!(check_upload_size(25).is_ok());
}

#[test]
fn uploads_over_fifty_mebibytes_are_refused() {
    let f = check_upload_size(26).unwrap_err();
    assert_eq!(f.status, STATUS_PAYLOAD_TOO_LARGE);
    assert_eq!(f.status, 413);
    assert_eq!(f.message, "File exceeds limit");
}

#[test]
fn temp_dir_is_named_by_the_upload_id() {
    assert_eq!(temp_dir_name(SAMPLE_ID), "temp/550e8400-e29b-41d4-a716-446655440000");
    assert_eq!(temp_dir_name(NIL_ID), "temp/00000000-0000-0000-0000-000000000000");
}

#[test]
fn only_the_first_chunk_is_checked_for_its_type() {
    assert!(check_first_chunk(0, &PNG).is_ok());
    assert!(check_first_chunk(1, b"hello").is_ok());
    let f = check_first_chunk(0, b"hi").unwrap_err();
    assert_eq!(f.status, STATUS_UNSUPPORTED_MEDIA_TYPE);
    assert_eq!(f.status, 415);
    assert_eq!(f.message, "Unknown mime type: [104, 105]");
}

#[test]
fn chunk_names_and_messages() {
    assert_eq!(chunk_file_name(7), "7");
    assert_eq!(chunk_file_name(0), "0");
    assert_eq!(waiting_message(3), "Chunk 3 stored. Waiting for more...");
}

#[test]
fn output_paths() {
    assert_eq!(relative_output_path(Some("books"), "a.pdf"), "uploads/books/a.pdf");
    assert_eq!(relative_output_path(None, "a.pdf"), "uploads/a.pdf");
}

#[test]
fn completion_reports_path_and_hash() {
    assert_eq!(
        completion_message("uploads/a.pdf", "abc"),
        "File berhasil dibuat: uploads/a.pdf (Hash: abc)"
    );
}

#[test]
fn upload_file_name_is_timestamp_then_sanitized_name() {
    let s = upload_file_name("My Doc.PDF");
    assert!(s.ends_with("_my-doc.pdf"), "{s}");
    let ts = &s[..19];
    let b = ts.as_bytes();
    assert_eq!(b[4], b'-');
    assert_eq!(b[7], b'-');
    assert_eq!(b[10], b'_');
    assert_eq!(b[13], b'-');
    assert_eq!(b[16], b'-');
}

#[test]
fn fingerprint_of_chunks_is_sha3_of_their_concatenation() {
    let mut h = ChunkHasher::new();
    h.update(b"ab");
    h.update(b"c");
    assert_eq!(
        h.finish_hex(),
        "3a985da74fe225b2045c172d6bd390bd855f086e3e9d525b46bfe24511431532"
    );
    let mut whole = ChunkHasher::new();
    whole.update(b"abc");
    assert_eq!(
        whole.finish_hex(),
        "3a985da74fe225b2045c172d6bd390bd855f086e3e9d525b46bfe24511431532"
    );
}

#[test]
fn fingerprint_of_nothing() {
    assert_eq!(
        ChunkHasher::new().finish_hex(),
        "a7ffc6f8bf1ed76651c14756a061d662f580ff4de43b49fa82d80a4b80f8434a"
    );
}

#[test]
fn uuid_text_round_trip() {
    let dir = temp_dir_name(SAMPLE_ID);
    let text = dir.strip_prefix("temp/").unwrap();
    assert_eq!(text, "550e8400-e29b-41d4-a716-446655440000");
    assert_eq!(identifier_condition(text).id, Some(SAMPLE_ID));
    assert_eq!(identifier_condition("550e8400e29b41d4a716446655440000").id, Some(SAMPLE_ID));
    assert_eq!(identifier_condition("john").id, None);
}

#[test]
fn fresh_ids_are_version_four() {
    let id = RoleFactory::new().build().id;
    assert_eq!((id >> 76) & 0xf, 4);
    assert_eq!((id >> 62) & 0x3, 2);
    assert_ne!(RoleFactory::new().build().id, RoleFactory::new().build().id);
}

#[test]
fn chunk_dir_ids_are_hyphenated_v4() {
    let s = generate_chunk_dir_id();
    assert_eq!(s.len(), 36);
    let b = s.as_bytes();
    for i in [8, 13, 18, 23] {
        assert_eq!(b[i], b'-');
    }
    assert_eq!(b[14], b'4');
    assert!(identifier_condition(&s).id.is_some());
}

#[test]
fn chunks_up_to_two_mebibytes_are_accepted() {
    assert!(check_chunk_size(&[]).is_ok());
    assert!(check_chunk_size(&vec![0u8; 2 * 1024 * 1024]).is_ok());
}

#[test]
fn chunks_over_two_mebibytes_are_refused() {
    let f = check_chunk_size(&vec![0u8; 2 * 1024 * 1024 + 1]).unwrap_err();
    assert_eq!(f.status, STATUS_PAYLOAD_TOO_LARGE);
    assert_eq!(f.message, "File too large (max 2 MB)");
}

#[test]
fn a_stored_chunk_waits_until_all_are_there() {
    match after_chunk_stored(Some(2), 3, 7) {
        StoreOutcome::Waiting(m) => assert_eq!(m, "Chunk 7 stored. Waiting for more..."),
        StoreOutcome::Assemble => panic!("assembled too early"),
    }
    match after_chunk_stored(None, 3, 0) {
        StoreOutcome::Waiting(m) => assert_eq!(m, "Chunk 0 stored. Waiting for more..."),
        StoreOutcome::Assemble => panic!("assembled without a directory"),
    }
    assert!(matches!(after_chunk_stored(Some(3), 3, 1), StoreOutcome::Assemble));
}

#[test]
fn assembly_asks_for_chunks_in_number_order() {
    let mut a = Assembly::start(3);
    let stored: [&[u8]; 3] = [b"a", b"b", b"c"];
    let mut asked = Vec::new();
    while let Some(i) = a.next_chunk() {
        asked.push(i);
        a.feed(stored[i]);
    }
    assert_eq!(asked, vec![0, 1, 2]);
    assert_eq!(
        a.finish(),
        "3a985da74fe225b2045c172d6bd390bd855f086e3e9d525b46bfe24511431532"
    );
}

#[test]
fn assembly_of_no_chunks() {
    let a = Assembly::start(0);
    assert_eq!(a.next_chunk(), None);
    assert_eq!(
        a.finish(),
        "a7ffc6f8bf1ed76651c14756a061d662f580ff4de43b49fa82d80a4b80f8434a"
    );
}

#[test]
fn hash_file_sits_beside_the_assembled_file() {
    assert_eq!(hash_file_name("20240101_report.pdf"), "20240101_report.hash");
    assert_eq!(hash_file_name("20240101_notes"), "20240101_notes.hash");
    assert_eq!(hash_file_name("a.b.c"), "a.b.hash");
}

#[test]
fn upload_file_name_is_one_path_component() {
    let s = upload_file_name("../../etc/Pass Wd.TXT");
    assert!(!s.contains('/'), "{s}");
    assert!(s.ends_with("_pass-wd.txt"), "{s}");
    let ts = &s[..s.len() - "_pass-wd.txt".len()];
    assert!(ts.chars().all(|c| c.is_ascii_digit() || c == '-' || c == '_' || c == '+'), "{ts}");
}
