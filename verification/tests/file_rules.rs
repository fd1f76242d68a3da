use server_test_csharp::validator::{
    is_upload_complete, path_is_valid, sanitize_filename, stamp_file_name, timestamped_filename,
    validate_book_mime, validate_chunk_size, MAX_CHUNK_SIZE, MAX_UPLOAD_SIZE,
};

const PNG: [u8; 8] = [0x89, 0x50, 0x4E, 0x47, 0x0D, 0x0A, 0x1A, 0x0A];

#[test]
fn limits() {
    assert_eq!(MAX_CHUNK_SIZE, 2 * 1024 * 1024);
    assert_eq!(MAX_UPLOAD_SIZE, 50 * 1024 * 1024);
}

#[test]
fn chunk_size_up_to_the_limit_is_accepted() {
    let data = vec![0u8; 1024 * 1024];
    assert!(validate_chunk_size(&data, 1).is_ok());
    assert!(validate_chunk_size(&[], 0).is_ok());
}

#[test]
fn chunk_size_over_the_limit_is_refused() {
    let data = vec![0u8; 1024 * 1024 + 1];
    assert_eq!(validate_chunk_size(&data, 1), Err("File too large (max 1 MB)".to_string()));
    assert_eq!(validate_chunk_size(&[1], 0), Err("File too large (max 0 MB)".to_string()));
}

#[test]
fn allowed_content_types_pass() {
    assert!(validate_book_mime(&PNG).is_ok());
    assert!(validate_book_mime(b"%PDF-1.7\n").is_ok());
    assert!(validate_book_mime(b"GIF89a....").is_ok());
}

#[test]
fn unknown_content_lists_its_bytes() {
    assert_eq!(
        validate_book_mime(b"hello"),
        Err("Unknown mime type: [104, 101, 108, 108, 111]".to_string())
    );
    assert_eq!(validate_book_mime(&[]), Err("Unknown mime type: []".to_string()));
}

#[test]
fn recognised_but_refused_content_names_its_type() {
    let bmp = [0x42u8, 0x4D, 0x00, 0x00, 0x00, 0x00, 0x00, 0x00];
    assert_eq!(validate_book_mime(&bmp), Err("Unknown mime type: image/bmp".to_string()));
}

#[test]
fn sanitize_keeps_slug_and_lowercased_extension() {
    assert_eq!(sanitize_filename("My Photo.PNG"), "my-photo.png");
    assert_eq!(sanitize_filename("archive.tar.gz"), "archivetar.gz");
}

#[test]
fn sanitize_gives_missing_parts_the_name_file() {
    assert_eq!(sanitize_filename("README"), "readme.file");
    assert_eq!(sanitize_filename(""), "file.file");
    assert_eq!(sanitize_filename(".."), "file.file");
    assert_eq!(sanitize_filename("/"), "file.file");
    assert_eq!(sanitize_filename(".bashrc"), "bashrc.file");
}

#[test]
fn sanitize_uses_only_the_last_component() {
    assert_eq!(sanitize_filename("../../etc/passwd"), "passwd.file");
    assert_eq!(sanitize_filename("dir/sub/"), "sub.file");
    assert_eq!(sanitize_filename("a/."), "a.file");
    assert_eq!(sanitize_filename("x/Report 2024.Pdf"), "report-2024.pdf");
}

#[test]
fn sanitize_drops_an_empty_extension() {
    assert_eq!(sanitize_filename("photo."), "photo");
}

#[test]
fn sanitized_ascii_names_are_safe_single_components() {
    for name in ["../../etc/passwd", "..", ".x.Y", "a b/c d.e f", "/.../..", "..%2f.png", ". .", ""] {
        let s = sanitize_filename(name);
        assert!(!s.contains('/'), "{name:?} -> {s:?}");
        assert!(path_is_valid(&s), "{name:?} -> {s:?}");
        assert!(s.matches('.').count() <= 1, "{name:?} -> {s:?}");
    }
}

#[test]
fn valid_paths() {
    for p in ["uploads/a.png", "a/./b", "", "a..b", ".hidden", "a//b", "a/b/"] {
        assert!(path_is_valid(p), "{p:?}");
    }
}

#[test]
fn invalid_paths() {
    for p in ["../x", "a/../b", "/etc", "./a", "a/..", ".", ".."] {
        assert!(!path_is_valid(p), "{p:?}");
    }
}

#[test]
fn joining_valid_paths_stays_valid() {
    let a = "uploads/books";
    let b = "chapter.one/page.pdf";
    assert!(path_is_valid(a) && path_is_valid(b));
    assert!(path_is_valid(&format!("{a}/{b}")));
}

#[test]
fn stamped_name_puts_time_first() {
    assert_eq!(stamp_file_name("20240101000000", "My File.TXT"), "20240101000000_my-file.txt");
}

#[test]
fn timestamped_name_has_fourteen_digits_then_the_name() {
    let s = timestamped_filename("x.txt");
    assert_eq!(s.len(), 14 + 1 + 5);
    assert!(s[..14].chars().all(|c| c.is_ascii_digit()));
    assert!(s.ends_with("_x.txt"));
}

#[test]
fn upload_completeness() {
    assert!(is_upload_complete(Some(3), 3));
    assert!(!is_upload_complete(Some(2), 3));
    assert!(!is_upload_complete(None, 0));
    assert!(is_upload_complete(Some(0), 0));
}

#[test]
fn sanitize_lowers_non_ascii_names_to_one_safe_component() {
    let name = sanitize_filename("\u{dc}BER Datei.PDF");
    assert_eq!(name, "\u{fc}ber-datei.pdf");
    let nested = sanitize_filename("../../\u{c4}rger/Bericht V2.TXT");
    assert_eq!(nested, "bericht-v2.txt");
    for n in [name, nested] {
        assert!(!n.contains('/'));
        assert!(n.matches('.').count() <= 1);
        assert!(!n.chars().any(|c| c.is_ascii_uppercase()));
    }
}
