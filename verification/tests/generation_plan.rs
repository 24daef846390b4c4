//! Tests for generation planning: file names, metadata documents, page
//! names and the plan itself.

use hozon::generation::{
    comic_info_xml, cover_entry_name, cover_for, epub_image_name, epub_metadata_pairs,
    epub_page_title, epub_xhtml_name, generate_xhtml, page_entry_name, plan_generation,
    volume_file_name, CoverOptions,
};
use hozon::types::{Direction, EbookMetadata, ReleaseDate};

fn today() -> ReleaseDate {
    ReleaseDate { year: 2001, month: 1, day: 1 }
}

fn chapter(paths: &[&str]) -> Vec<String> {
    paths.iter().map(|p| String::from(*p)).collect()
}

#[test]
fn test_volume_file_names_with_separators() {
    // The pipe separator is sanitized to a dash in file names.
    assert_eq!(
        volume_file_name("Pipe Separator Series", " | ", 1, true),
        "Pipe Separator Series - Volume 1"
    );
    assert_eq!(
        volume_file_name("Underscore Series", "_", 2, true),
        "Underscore Series_Volume 2"
    );
    assert_eq!(
        volume_file_name("Space Series", " ", 1, true),
        "Space Series Volume 1"
    );
    assert_eq!(
        volume_file_name("Default Series", " - ", 2, true),
        "Default Series - Volume 2"
    );
    // A single volume gets no separator and no number at all.
    assert_eq!(volume_file_name("Single Volume", " | ", 1, false), "Single Volume");
}

#[test]
fn test_page_and_cover_entry_names() {
    assert_eq!(page_entry_name(1, "jpg"), "page_001.jpg");
    assert_eq!(page_entry_name(42, "png"), "page_042.png");
    assert_eq!(page_entry_name(1234, "webp"), "page_1234.webp");
    assert_eq!(cover_entry_name("jpg"), "000_cover.jpg");
}

#[test]
fn test_epub_names() {
    assert_eq!(epub_image_name(1, 2, "jpg"), "chapters/chapter_001/page_002.jpg");
    assert_eq!(epub_xhtml_name(12, 3), "chapters/chapter_012/page_003.xhtml");
    assert_eq!(epub_page_title("Chapter 1", 2), "Chapter 1 - Page 2");
}

#[test]
fn test_generate_xhtml() {
    let xhtml = generate_xhtml("chapters/chapter_001/page_001.jpg", "Chapter 1 - Page 1").unwrap();
    assert!(xhtml.contains("src=\"chapters/chapter_001/page_001.jpg\""));
    assert!(xhtml.contains("<title>Chapter 1 - Page 1</title>"));
    assert!(xhtml.contains("alt=\"Chapter 1 - Page 1\""));
}

#[test]
fn test_metadata_propagation_and_custom_fields_cbz() {
    let metadata = EbookMetadata {
        title: "Metadata Test Comic".to_string(),
        series: Some("The Metadata Saga".to_string()),
        authors: vec!["Author McAuthorface".to_string()],
        description: Some("This is a test comic.".to_string()),
        publisher: Some("Test Publisher".to_string()),
        language: "es".to_string(),
        genre: Some("Comedy".to_string()),
        web: Some("https://example.com/web".to_string()),
        tags: vec!["test".to_string(), "metadata".to_string()],
        release_date: Some(ReleaseDate { year: 2025, month: 8, day: 23 }),
        custom_fields: vec![("CustomTag".to_string(), "Custom Value".to_string())],
        rights: None,
        identifier: None,
    };

    let comic_info = comic_info_xml(&metadata, 1, 1, &vec!["Chapter 1".to_string()], today());

    assert!(comic_info.contains("<Title>Metadata Test Comic</Title>"));
    assert!(comic_info.contains("<Series>The Metadata Saga</Series>"));
    assert!(comic_info.contains("<Writer>Author McAuthorface</Writer>"));
    assert!(comic_info.contains("<Publisher>Test Publisher</Publisher>"));
    assert!(comic_info.contains("<Genre>Comedy</Genre>"));
    assert!(comic_info.contains("<Web>https://example.com/web</Web>"));
    assert!(comic_info.contains("<PageCount>1</PageCount>"));
    assert!(comic_info.contains("<Language>es</Language>"));
    assert!(comic_info.contains("<Summary>This is a test comic.</Summary>"));
    assert!(comic_info.contains("Tags: test, metadata"));
    assert!(comic_info.contains("<Year>2025</Year>"));
    assert!(comic_info.contains("<Month>8</Month>"));
    assert!(comic_info.contains("<Day>23</Day>"));
    assert!(comic_info.contains("CustomTag: Custom Value"));
    assert!(comic_info.contains("<Number>1</Number>"));
}

#[test]
fn test_metadata_xml_escaping_cbz() {
    let metadata = EbookMetadata {
        title: "XML Escaping Test".to_string(),
        description: Some("Description with <html> & \"quotes\"".to_string()),
        custom_fields: vec![
            ("Tag<WithBrackets>".to_string(), "Value & \"quoted\"".to_string()),
            ("Another'Tag".to_string(), "<script>alert('xss')</script>".to_string()),
        ],
        ..EbookMetadata::default()
    };

    let comic_info = comic_info_xml(&metadata, 1, 1, &vec!["Chapter 1".to_string()], today());

    // Escaping in the description
    assert!(comic_info
        .contains("<Summary>Description with &lt;html&gt; &amp; &quot;quotes&quot;</Summary>"));
    // Custom fields are escaped in the notes block
    assert!(comic_info.contains("Tag&lt;WithBrackets&gt;: Value &amp; &quot;quoted&quot;"));
    assert!(comic_info
        .contains("Another&apos;Tag: &lt;script&gt;alert(&apos;xss&apos;)&lt;/script&gt;"));
}

#[test]
fn test_comic_info_uses_today_when_no_release_date() {
    let metadata = EbookMetadata::default_with_title("T".to_string());
    let comic_info = comic_info_xml(
        &metadata,
        1,
        0,
        &Vec::new(),
        ReleaseDate { year: 1999, month: 12, day: 31 },
    );
    assert!(comic_info.contains("<Year>1999</Year>"));
    assert!(comic_info.contains("<Month>12</Month>"));
    assert!(comic_info.contains("<Day>31</Day>"));
}

#[test]
fn test_epub_metadata_pairs() {
    let metadata = EbookMetadata {
        title: "Title".to_string(),
        series: Some("Series".to_string()),
        authors: vec!["A1".to_string(), "A2".to_string()],
        tags: vec!["t1".to_string()],
        release_date: Some(ReleaseDate { year: 2025, month: 8, day: 3 }),
        custom_fields: vec![("K".to_string(), "V".to_string())],
        ..EbookMetadata::default_with_title("Title".to_string())
    };
    let pairs = epub_metadata_pairs(&metadata, Some(2), Direction::Rtl);

    assert_eq!(pairs[0], ("title".to_string(), "Series - Title Vol 2".to_string()));
    assert!(pairs.contains(&("series".to_string(), "Series".to_string())));
    assert!(pairs.contains(&("creator".to_string(), "A1".to_string())));
    assert!(pairs.contains(&("creator".to_string(), "A2".to_string())));
    assert!(pairs.contains(&("direction".to_string(), "rtl".to_string())));
    assert!(pairs.contains(&("date".to_string(), "2025-08-03".to_string())));
    assert!(pairs.contains(&("subject".to_string(), "t1".to_string())));
    assert!(pairs.contains(&("K".to_string(), "V".to_string())));
}

#[test]
fn test_plan_generation_two_volumes() {
    let volumes = vec![
        vec![chapter(&["src/ch1/p1.jpg", "src/ch1/p2.jpg"]), chapter(&["src/ch2/p1.jpg"])],
        vec![chapter(&["src/ch3/p1.jpg"])],
    ];
    let plans = plan_generation(volumes, "My Series", " | ", &CoverOptions::NoCover).unwrap();
    assert_eq!(plans.len(), 2);
    assert_eq!(plans[0].file_name_base, "My Series - Volume 1");
    assert_eq!(plans[1].file_name_base, "My Series - Volume 2");
    assert_eq!(plans[0].volume_number, 1);
    assert_eq!(plans[1].volume_number, 2);
    assert_eq!(plans[0].total_pages, 3);
    assert_eq!(plans[1].total_pages, 1);
    assert_eq!(plans[0].chapter_titles, vec!["ch1", "ch2"]);
    assert_eq!(plans[1].chapter_titles, vec!["ch3"]);
    assert!(plans[0].cover_path.is_none());
}

#[test]
fn test_plan_generation_single_volume_name() {
    let volumes = vec![vec![chapter(&["src/chapter/img1.jpg", "src/chapter/img2.jpg"])]];
    let plans = plan_generation(volumes, "Single Volume", " | ", &CoverOptions::NoCover).unwrap();
    assert_eq!(plans.len(), 1);
    assert_eq!(plans[0].file_name_base, "Single Volume");
}

#[test]
fn test_plan_generation_covers() {
    let volumes = vec![
        vec![chapter(&["a/p1.jpg"])],
        vec![chapter(&["b/p1.jpg"])],
    ];
    let covers = CoverOptions::PerVolume(vec![(1, "covers/two.jpg".to_string())]);
    let plans = plan_generation(volumes, "T", " - ", &covers).unwrap();
    assert!(plans[0].cover_path.is_none());
    assert_eq!(plans[1].cover_path, Some("covers/two.jpg".to_string()));

    let single = CoverOptions::Single("covers/all.jpg".to_string());
    assert_eq!(cover_for(&single, 5), Some("covers/all.jpg".to_string()));
}

#[test]
fn test_today_utc_ranges() {
    let d = hozon::generation::today_utc();
    assert!((1..=12).contains(&d.month));
    assert!((1..=31).contains(&d.day));
}

#[test]
fn test_generation_on_empty_volume_list_is_fatal() {
    // No volumes at all
    let result = plan_generation(Vec::new(), "Error Test", " - ", &CoverOptions::NoCover);
    assert!(result.is_err());

    // Volumes whose chapters are all empty are just as doomed
    let empty_volumes = vec![vec![Vec::<String>::new()], Vec::new()];
    let result = plan_generation(empty_volumes, "Error Test", " - ", &CoverOptions::NoCover);
    assert!(result.is_err());
}
