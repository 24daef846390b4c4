//! Unit tests for the collector, the configuration builder, the preflight
//! check, metadata defaults and the file-type helper.

use hozon::collector::Collector;
use hozon::error::Error;
use hozon::hozon::HozonConfig;
use hozon::pattern::NamePattern;
use hozon::sortkey::SortKey;
use hozon::types::{
    CollectionDepth, EbookMetadata, FsEntry, HozonExecutionMode, SourceStatus,
    VolumeGroupingStrategy,
};
use std::cmp::Ordering;
use hozon::types::get_file_info;
use hozon::types::Direction;

fn key(int_digits: &str, frac_digits: &str) -> SortKey {
    SortKey {
        int_digits: int_digits.chars().collect(),
        frac_digits: frac_digits.chars().collect(),
    }
}

fn entry(path: &str, is_dir: bool) -> FsEntry {
    FsEntry {
        path: String::from(path),
        is_dir,
        size: 0,
        size_known: false,
        permission_denied: false,
    }
}

#[test]
fn test_collector_regex_parser() {
    let default_collector = Collector::new("", CollectionDepth::Deep, None, None, 75);

    // Default numeric pattern
    assert_eq!(
        default_collector.regex_parser("001-test.jpg", false),
        Some(key("1", ""))
    );
    assert_eq!(
        default_collector.regex_parser("chapter_2.5.png", false),
        Some(key("2", "5"))
    );
    assert_eq!(
        default_collector.regex_parser("volume 123.cbz", false),
        Some(key("123", ""))
    );
    assert_eq!(default_collector.regex_parser("no_number.txt", false), None);

    // The default volume/chapter sorter
    assert_eq!(
        default_collector
            .sort_by_name_volume_chapter_default("001-005 Chapter Title", "001-010 Another Chapter"),
        Ordering::Less
    );
    assert_eq!(
        default_collector
            .sort_by_name_volume_chapter_default("001-010 Another Chapter", "001-005 Chapter Title"),
        Ordering::Greater
    );
    assert_eq!(
        default_collector
            .sort_by_name_volume_chapter_default("001-010 Another Chapter", "002-001 New Volume"),
        Ordering::Less
    );
    // A name without a volume-chapter token, or with an unparseable volume
    // number, is a no-op for ordering: it compares equal to everything.
    assert_eq!(
        default_collector.sort_by_name_volume_chapter_default("no token here", "001-005 Chapter"),
        Ordering::Equal
    );
    assert_eq!(
        default_collector.sort_by_name_volume_chapter_default("00-002", "001-005"),
        Ordering::Equal
    );

    // Custom pattern
    let custom_re = NamePattern::compile("PAGE_(\\d+)").unwrap();
    let custom_collector =
        Collector::new("", CollectionDepth::Deep, None, Some(&custom_re), 75);
    assert_eq!(
        custom_collector.regex_parser("MyBook_PAGE_007.webp", false),
        Some(key("7", ""))
    );
    assert_eq!(custom_collector.regex_parser("MyBook_PAGE_XYZ.webp", false), None);
}

#[test]
fn test_collector_calculate_volume_sizes() {
    let collector = Collector::new("", CollectionDepth::Deep, None, None, 75);

    // Standard case
    let sizes = collector.calculate_volume_sizes(vec![0, 5, 10], 15).unwrap();
    assert_eq!(sizes, vec![5, 5, 5]);

    // Last volume has fewer chapters
    let sizes = collector.calculate_volume_sizes(vec![0, 10], 12).unwrap();
    assert_eq!(sizes, vec![10, 2]);

    // Only one volume
    let sizes = collector.calculate_volume_sizes(vec![0], 20).unwrap();
    assert_eq!(sizes, vec![20]);

    // Empty starts, should be one volume
    let sizes = collector.calculate_volume_sizes(vec![], 15).unwrap();
    assert_eq!(sizes, vec![15]);

    // Empty everything
    let sizes = collector.calculate_volume_sizes(vec![], 0).unwrap();
    assert_eq!(sizes, Vec::<usize>::new());

    // Non-zero start: gaps first, then the remainder
    let sizes = collector.calculate_volume_sizes(vec![2, 8], 15).unwrap();
    assert_eq!(sizes, vec![6, 7]); // 8-2=6, 15-8=7
}

#[test]
fn test_collector_collection_depth() {
    let base = vec![
        entry("source/chapter_2", true),
        entry("source/chapter_1", true),
        entry("source/flat_page_a.jpg", false),
        entry("source/flat_page_b.png", false),
        entry("source/.hidden_dir", true),
    ];

    // Deep collection: the subdirectories become chapters, sorted by number
    let deep = Collector::new("source", CollectionDepth::Deep, None, None, 75);
    let chapters = deep.collect_chapters(&base);
    assert_eq!(chapters, vec!["source/chapter_1", "source/chapter_2"]);

    // Shallow collection: the base directory is the single chapter
    let shallow = Collector::new("source", CollectionDepth::Shallow, None, None, 75);
    let chapters = shallow.collect_chapters(&base);
    assert_eq!(chapters, vec!["source"]);

    // Page collection filters to supported images and sorts by number
    let listings = vec![vec![
        entry("source/chapter_1/page_002.png", false),
        entry("source/chapter_1/page_001.jpg", false),
        entry("source/chapter_1/readme.txt", false),
        entry("source/chapter_1/.hidden.jpg", false),
        entry("source/chapter_1/subdir", true),
    ]];
    let pages = deep.collect_pages(&listings);
    assert_eq!(pages.len(), 1);
    assert_eq!(
        pages[0],
        vec!["source/chapter_1/page_001.jpg", "source/chapter_1/page_002.png"]
    );
}

#[test]
fn test_collector_analysis_findings() {
    let base = vec![
        entry("source/01-001_First_Chapter", true),
        entry("source/01-002_Second_Chapter", true),
    ];
    let listings = vec![
        vec![
            entry("source/01-001_First_Chapter/page_001.jpg", false),
            entry("source/01-001_First_Chapter/page_002.jpg", false),
            entry("source/01-001_First_Chapter/readme.txt", false),
        ],
        vec![
            entry("source/01-002_Second_Chapter/page_001.jpg", false),
            entry("source/01-002_Second_Chapter/page_002.jpg", false),
        ],
    ];
    let collector = Collector::new("source", CollectionDepth::Deep, None, None, 75);
    let result = collector.analyze_source_content(&base, &listings);

    // Consistent volume-chapter naming is detected and recommends Name
    assert_eq!(
        result.report.recommended_strategy,
        VolumeGroupingStrategy::Name
    );
    assert_eq!(result.grouping_strategy_recommended, VolumeGroupingStrategy::Name);
    assert!(result
        .report
        .findings
        .iter()
        .any(|f| matches!(f, hozon::types::AnalyzeFinding::Positive(_))));

    // The unsupported text file is flagged, exactly once
    let unsupported: Vec<_> = result
        .report
        .findings
        .iter()
        .filter(|f| matches!(
            f,
            hozon::types::AnalyzeFinding::UnsupportedImageFormat(p, _) if p.contains("readme.txt")
        ))
        .collect();
    assert_eq!(unsupported.len(), 1);

    // The pages came through, filtered and sorted
    assert_eq!(result.chapters_with_pages.len(), 2);
    assert_eq!(result.chapters_with_pages[0].len(), 2);
}

#[test]
fn test_collector_analysis_inconsistent_page_count() {
    let base = vec![
        entry("source/Chapter_1", true),
        entry("source/Chapter_2", true),
        entry("source/Chapter_3", true),
    ];
    let mut listings = Vec::new();
    // Chapter 1: 1 page (significantly below the average)
    listings.push(vec![entry("source/Chapter_1/page_001.jpg", false)]);
    // Chapters 2 and 3: 10 and 9 pages
    let mut chapter2 = Vec::new();
    for i in 1..=10 {
        chapter2.push(entry(&format!("source/Chapter_2/page_{:03}.jpg", i), false));
    }
    listings.push(chapter2);
    let mut chapter3 = Vec::new();
    for i in 1..=9 {
        chapter3.push(entry(&format!("source/Chapter_3/page_{:03}.jpg", i), false));
    }
    listings.push(chapter3);

    let collector = Collector::new("source", CollectionDepth::Deep, None, None, 75);
    let result = collector.analyze_source_content(&base, &listings);

    let inconsistent: Vec<_> = result
        .report
        .findings
        .iter()
        .filter_map(|f| match f {
            hozon::types::AnalyzeFinding::InconsistentPageCount(path, expected, found) => {
                Some((path, *expected, *found))
            }
            _ => None,
        })
        .collect();
    assert!(!inconsistent.is_empty());
    let chapter1_flagged = inconsistent
        .iter()
        .any(|(path, _expected, found)| path.contains("Chapter_1") && *found == 1);
    assert!(chapter1_flagged);
}

#[test]
fn test_collector_analysis_permissions_and_sizes() {
    let base = vec![entry("source/Chapter_1", true)];
    let denied = FsEntry {
        path: String::from("source/Chapter_1/locked.jpg"),
        is_dir: false,
        size: 0,
        size_known: false,
        permission_denied: true,
    };
    let small = FsEntry {
        path: String::from("source/Chapter_1/page_001.jpg"),
        is_dir: false,
        size: 200 * 1024,
        size_known: true,
        permission_denied: false,
    };
    let huge = FsEntry {
        path: String::from("source/Chapter_1/page_002.jpg"),
        is_dir: false,
        size: 5000 * 1024,
        size_known: true,
        permission_denied: false,
    };
    let listings = vec![vec![denied, small, huge]];
    let collector = Collector::new("source", CollectionDepth::Deep, None, None, 75);
    let result = collector.analyze_source_content(&base, &listings);

    assert!(result.report.findings.iter().any(|f| matches!(
        f,
        hozon::types::AnalyzeFinding::PermissionDenied(p) if p.contains("locked.jpg")
    )));
    // The 200 KiB page is less than a third of the 2600 KiB average.
    assert!(result.report.findings.iter().any(|f| matches!(
        f,
        hozon::types::AnalyzeFinding::UnusualFileSize(p, _, _) if p.contains("page_001")
    )));
}

#[test]
fn test_collector_analysis_special_characters() {
    let base = vec![entry("source/Chapter_1", true)];
    let listings = vec![vec![
        entry("source/Chapter_1/page<001>.jpg", false),
        entry("source/Chapter_1/normal_page.jpg", false),
    ]];
    let collector = Collector::new("source", CollectionDepth::Deep, None, None, 75);
    let result = collector.analyze_source_content(&base, &listings);
    assert!(result.report.findings.iter().any(|f| matches!(
        f,
        hozon::types::AnalyzeFinding::SpecialCharactersInPath(p) if p.contains("page<001>")
    )));
}

#[test]
fn test_collector_analysis_empty_source() {
    let collector = Collector::new("source", CollectionDepth::Deep, None, None, 75);
    let result = collector.analyze_source_content(&vec![], &vec![]);
    assert_eq!(result.chapters_with_pages.len(), 0);
    assert!(matches!(
        result.report.findings[0],
        hozon::types::AnalyzeFinding::NoSubdirectoriesFound
    ));
}

#[test]
fn test_check_path() {
    let paths = vec![
        String::from("good_one.jpg"),
        String::from("bad<one>.jpg"),
        String::from("good_two.jpg"),
        String::from("bad|two.jpg"),
    ];
    // Keep the paths that fail validation.
    let failing = Collector::check_path(&paths, &|p: &String| {
        hozon::path_utils::validate_path(p.as_str()).is_ok()
    })
    .unwrap();
    assert_eq!(failing, vec!["bad<one>.jpg".to_string(), "bad|two.jpg".to_string()]);

    // A test that always passes keeps nothing.
    let none = Collector::check_path(&paths, &|_p: &String| true).unwrap();
    assert!(none.is_empty());
}

#[test]
fn test_ebook_metadata_default_with_title() {
    let metadata = EbookMetadata::default_with_title("My Book".to_string());
    assert_eq!(metadata.title, "My Book");
    assert_eq!(metadata.language, "en"); // Default language
    assert!(metadata.authors.is_empty());
}

#[test]
fn test_get_file_info_utility() {

    // Supported formats
    assert_eq!(get_file_info("test.jpg").unwrap(), ("jpg", "image/jpeg"));
    assert_eq!(get_file_info("test.jpeg").unwrap(), ("jpg", "image/jpeg"));
    assert_eq!(get_file_info("test.png").unwrap(), ("png", "image/png"));
    assert_eq!(get_file_info("test.webp").unwrap(), ("webp", "image/webp"));

    // Case insensitivity
    assert_eq!(get_file_info("test.JPG").unwrap(), ("jpg", "image/jpeg"));
    assert_eq!(get_file_info("test.PNG").unwrap(), ("png", "image/png"));

    // Unsupported format
    let result = get_file_info("test.txt");
    assert!(result.is_err());
    assert!(matches!(result.unwrap_err(), Error::Unsupported(_)));

    // File without extension
    let result = get_file_info("test");
    assert!(result.is_err());
}

#[test]
fn test_direction_to_string() {
    assert_eq!(Direction::Ltr.to_string(), "ltr");
    assert_eq!(Direction::Rtl.to_string(), "rtl");
}

#[test]
fn test_hozon_config_builder_validation() {
    // Invalid pattern - should fail at build time
    let result = HozonConfig::builder()
        .metadata(EbookMetadata::default_with_title("Test".to_string()))
        .source_path(String::from("/tmp"))
        .target_path(String::from("/tmp"))
        .chapter_name_regex_str("(".to_string())
        .build();
    assert!(result.is_err());
    assert!(result
        .unwrap_err()
        .message()
        .contains("Invalid chapter_name_regex"));
}

#[test]
fn test_hozon_config_preflight_check() {
    let present = SourceStatus { exists: true, is_directory: true };

    // Valid for FromSource
    let config = HozonConfig::builder()
        .metadata(EbookMetadata::default_with_title("Test".to_string()))
        .source_path(String::from("source"))
        .target_path(String::from("target"))
        .build()
        .unwrap();
    assert!(config
        .preflight_check(HozonExecutionMode::FromSource, &present)
        .is_ok());

    // Invalid for FromSource (missing source_path)
    let config = HozonConfig::builder()
        .metadata(EbookMetadata::default_with_title("Test".to_string()))
        .target_path(String::from("target"))
        .build()
        .unwrap();
    let result = config.preflight_check(HozonExecutionMode::FromSource, &present);
    assert!(result.is_err());
    assert!(result
        .unwrap_err()
        .message()
        .contains("`source_path` must be set for `FromSource` execution mode"));

    // Invalid for FromSource (source path does not exist)
    let config = HozonConfig::builder()
        .metadata(EbookMetadata::default_with_title("Test".to_string()))
        .source_path(String::from("source/nonexistent"))
        .target_path(String::from("target"))
        .build()
        .unwrap();
    let absent = SourceStatus { exists: false, is_directory: false };
    let result = config.preflight_check(HozonExecutionMode::FromSource, &absent);
    assert!(result.is_err());
    assert!(result
        .unwrap_err()
        .message()
        .contains("Source path does not exist"));
}

#[test]
fn test_volume_separator_default_value() {
    let config = HozonConfig::builder()
        .metadata(EbookMetadata::default_with_title("Test".to_string()))
        .source_path(String::from("./test_source"))
        .target_path(String::from("./test_target"))
        .build()
        .unwrap();
    assert_eq!(config.volume_separator, " - ");
}

#[test]
fn test_error_on_empty_collected_data() {
    let collected: Vec<Vec<String>> = Vec::new();
    let result = hozon::hozon::check_collected_data(&collected);
    assert!(result.is_err());
    assert!(result
        .unwrap_err()
        .message()
        .contains("Provided collected data is empty"));
}

#[test]
fn test_error_on_empty_structured_data() {
    let structured: Vec<Vec<Vec<String>>> = Vec::new();
    let result = hozon::hozon::check_structured_data(&structured);
    assert!(result.is_err());
    assert!(result
        .unwrap_err()
        .message()
        .contains("Provided structured data is empty"));
}
