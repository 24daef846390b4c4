//! Tests for path handling: file names, hidden files, validation,
//! sanitization and numeric extraction.

use hozon::path_utils::{
    get_file_name_lossy, get_file_name_safe, is_hidden_file, normalize_path, path_to_string_lossy,
    path_to_string_safe, prepare_long_path, sanitize_filename, validate_path,
};
use hozon::pattern::{default_number_pattern, NamePattern};
use hozon::sortkey::{compare_paths_by_number_safe, extract_number_from_filename_safe, SortKey};
use std::cmp::Ordering;
use hozon::sortkey::parse_capture;

fn key(int_digits: &str, frac_digits: &str) -> SortKey {
    SortKey {
        int_digits: int_digits.chars().collect(),
        frac_digits: frac_digits.chars().collect(),
    }
}

#[test]
fn test_path_to_string_safe() {
    let result = path_to_string_safe("test/normal/path.jpg");
    assert!(result.is_ok());
}

#[test]
fn test_get_file_name_safe() {
    let result = get_file_name_safe("folder/test_file.jpg").unwrap();
    assert_eq!(result, "test_file.jpg");
}

#[test]
fn test_get_file_name_lossy() {
    let result = get_file_name_lossy("test/file.txt");
    assert_eq!(result, "file.txt");
}

#[test]
fn path_handling_test_test_get_file_name_lossy() {
    let result = get_file_name_lossy("folder/test_file.jpg");
    assert_eq!(result, "test_file.jpg");

    // Test with empty path
    let result = get_file_name_lossy("");
    assert_eq!(result, "unknown");
}

#[test]
fn test_path_to_string_lossy() {
    let result = path_to_string_lossy("test/path");
    assert!(result.contains("test"));
    assert!(result.contains("path"));
}

#[test]
fn path_handling_test_test_path_to_string_lossy() {
    let result = path_to_string_lossy("test/path/file.jpg");
    assert!(result.contains("test"));
    assert!(result.contains("path"));
    assert!(result.contains("file.jpg"));
}

#[test]
fn test_is_hidden_file() {
    assert!(is_hidden_file(".hidden"));
    assert!(!is_hidden_file("normal.txt"));
}

#[test]
fn path_handling_test_test_is_hidden_file() {
    // Hidden files (starting with dot)
    assert!(is_hidden_file(".hidden"));
    assert!(is_hidden_file(".gitignore"));
    assert!(is_hidden_file("folder/.hidden_file"));

    // Non-hidden files
    assert!(!is_hidden_file("normal_file.jpg"));
    assert!(!is_hidden_file("folder/normal_file.jpg"));
    assert!(!is_hidden_file("file.with.dots.jpg")); // Only starting dot counts
}

#[test]
fn test_extract_number_from_filename_safe() {
    let regex = NamePattern::compile("(\\d+)").unwrap();
    let result = extract_number_from_filename_safe("chapter_123.jpg", &regex);
    assert_eq!(result, Some(key("123", "")));
}

#[test]
fn test_validate_path_with_invalid_chars() {
    let result = validate_path("test<invalid>path");
    assert!(result.is_err());
    // The error carries the path and the reason, joined in its text.
    let e = result.unwrap_err();
    assert!(matches!(e, hozon::error::Error::InvalidPath(_, _)));
    assert_eq!(
        e.message(),
        "test<invalid>path: Path contains invalid characters"
    );
}

#[test]
fn test_get_file_name_safe_error() {
    // A path without a final segment names no file.
    let result = get_file_name_safe("");
    assert!(matches!(result, Err(hozon::error::Error::PathUtf8Error(_))));
    let result = get_file_name_safe("a/..");
    assert!(result.is_err());
}

#[test]
fn test_validate_path_with_invalid_characters() {
    let invalid_chars = ["<", ">", "\"", "|", "?", "*"];
    for invalid_char in &invalid_chars {
        let invalid_path = format!("test{}file.jpg", invalid_char);
        assert!(
            validate_path(invalid_path.as_str()).is_err(),
            "Path with '{}' should be invalid",
            invalid_char
        );
    }
}

#[test]
fn test_validate_path_with_valid_characters() {
    let valid_paths = [
        "normal_file.jpg",
        "file with spaces.jpg",
        "file-with-dashes.jpg",
        "file_with_underscores.jpg",
        "file123.jpg",
        "ファイル.jpg",   // Japanese characters
        "тест.jpg",       // Cyrillic characters
        "file~tilde.jpg", // Tilde character (should be valid)
        "file:colon.jpg", // Colon should still work for drive letters
    ];
    for valid_path in &valid_paths {
        let result = validate_path(valid_path);
        if result.is_err() {
            println!("Path '{}' failed validation: {:?}", valid_path, result);
        }
        assert!(result.is_ok());
    }
}

#[test]
fn test_sanitize_filename() {
    assert_eq!(sanitize_filename("test<file>"), "test-file-");
    assert_eq!(sanitize_filename("test|file"), "test-file");
    assert_eq!(sanitize_filename("test?file"), "test-file");
    assert_eq!(sanitize_filename("test*file"), "test-file");
    assert_eq!(sanitize_filename("test\"file"), "test-file");
    assert_eq!(sanitize_filename("test:file"), "test-file");
    assert_eq!(sanitize_filename("test/file"), "test-file");
    assert_eq!(sanitize_filename("test\\file"), "test-file");
    assert_eq!(sanitize_filename("normal_file.txt"), "normal_file.txt");
}

#[test]
fn test_extract_number_from_filename() {
    let regex = NamePattern::compile("(\\d+)").unwrap();

    let test_cases = [
        ("chapter_01.jpg", Some(key("1", ""))),
        ("page_123.png", Some(key("123", ""))),
        ("file_with_no_numbers.jpg", None),
        ("multiple_123_456_numbers.jpg", Some(key("456", ""))), // Should get the last match
        ("001_leading_zeros.jpg", Some(key("1", ""))),          // Should trim leading zeros
    ];

    for (filename, expected) in &test_cases {
        let result = extract_number_from_filename_safe(filename, &regex);
        assert_eq!(result, *expected, "Failed for filename: {}", filename);
    }
}

#[test]
fn test_compare_paths_by_number() {

    let regex = NamePattern::compile("(\\d+)").unwrap();

    assert_eq!(
        compare_paths_by_number_safe("chapter_01.jpg", "chapter_02.jpg", &regex),
        Ordering::Less
    );
    assert_eq!(
        compare_paths_by_number_safe("chapter_02.jpg", "chapter_01.jpg", &regex),
        Ordering::Greater
    );
    assert_eq!(
        compare_paths_by_number_safe("chapter_01.jpg", "chapter_01.jpg", &regex),
        Ordering::Equal
    );
    assert_eq!(
        compare_paths_by_number_safe("chapter_02.jpg", "chapter_10.jpg", &regex),
        Ordering::Less
    );
}

#[test]
fn test_windows_long_path_handling() {
    // A very long path without refused characters stays valid; the length
    // budget is the platform's concern, handled outside the library.
    let mut long_path = String::new();
    for i in 0..20 {
        long_path.push_str(&format!("very_long_directory_name_that_exceeds_limits_{}/", i));
    }
    long_path.push_str("final_file.jpg");
    let validation_result = validate_path(long_path.as_str());
    match validation_result {
        Ok(_) => {
            println!("Long path validation passed, checking normalization...");
            assert!(prepare_long_path(long_path.as_str()).is_ok());
        }
        Err(e) => {
            println!("Long path validation failed as expected: {:?}", e);
        }
    }
}

#[test]
fn test_normalize_path_with_nonexistent_file() {
    // Paths that do not exist yet (output files) are allowed
    let result = normalize_path("nonexistent_directory/output_file.cbz");
    assert!(result.is_ok(), "Non-existent paths should be allowed for output");
}

#[test]
fn test_japanese_manga_path() {
    let manga_path = "C:\\Users\\test\\Documents\\Mangas\\Akuyaku Reijou no Naka no Hito ~Danzai sareta Tenseisha no Tame Usotsuki Heroine ni Fukushuu Itashimasu~";

    let path_str = path_to_string_lossy(manga_path);
    assert!(path_str.contains("Akuyaku Reijou"));
    assert!(path_str.contains("~")); // Tilde should be preserved

    let validation = validate_path(manga_path);
    match validation {
        Ok(_) => println!("Japanese manga path validated successfully"),
        Err(e) => {
            println!("Japanese manga path validation result: {:?}", e);
            assert!(!format!("{:?}", e).contains("invalid characters"));
        }
    }
}

#[test]
fn test_extract_number_with_default_pattern() {
    let p = default_number_pattern();
    // The last digit run wins, with leading zeros stripped.
    assert_eq!(
        extract_number_from_filename_safe("001-caption-042.jpg", &p),
        Some(key("42", ""))
    );
    // A fraction is kept verbatim.
    assert_eq!(
        extract_number_from_filename_safe("chapter_2.5.png", &p),
        Some(key("2", "5"))
    );
}

#[test]
fn test_parse_capture_quirks() {

    // A run of zeros without a dot yields no key.
    assert_eq!(parse_capture(&"0".chars().collect()), None);
    assert_eq!(parse_capture(&"000".chars().collect()), None);
    // With a dot, zero parses.
    assert_eq!(parse_capture(&"0.0".chars().collect()), Some(key("", "")));
    // Leading zeros are stripped, fractions kept canonically.
    assert_eq!(parse_capture(&"042".chars().collect()), Some(key("42", "")));
    assert_eq!(parse_capture(&"2.50".chars().collect()), Some(key("2", "5")));
    assert_eq!(parse_capture(&"123.".chars().collect()), Some(key("123", "")));
    assert_eq!(parse_capture(&".5".chars().collect()), Some(key("", "5")));
    // Non-decimals yield no key.
    assert_eq!(parse_capture(&"1.2.3".chars().collect()), None);
    assert_eq!(parse_capture(&"abc".chars().collect()), None);
}
