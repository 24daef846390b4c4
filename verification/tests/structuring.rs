//! Tests for the volume-structuring strategies.

use hozon::hozon::HozonConfig;
use hozon::types::{EbookMetadata, VolumeGroupingStrategy};

fn config_with(strategy: VolumeGroupingStrategy) -> HozonConfig {
    HozonConfig::builder()
        .metadata(EbookMetadata::default_with_title("Test".to_string()))
        .target_path(String::from("target"))
        .volume_grouping_strategy(strategy)
        .build()
        .unwrap()
}

fn chapter(paths: &[&str]) -> Vec<String> {
    paths.iter().map(|p| String::from(*p)).collect()
}

#[test]
fn test_flat_strategy_single_volume_single_chapter() {
    let config = config_with(VolumeGroupingStrategy::Flat);
    let collected = vec![
        chapter(&["a/1.jpg", "a/2.jpg"]),
        chapter(&["b/1.jpg"]),
    ];
    let st = config.structure_from_collected_data(collected).unwrap();

    // Exactly one volume containing exactly one chapter
    assert_eq!(st.volumes_with_chapters_and_pages.len(), 1);
    assert_eq!(st.volumes_with_chapters_and_pages[0].len(), 1);
    // Its page count equals the sum of all input chapters' page counts
    assert_eq!(st.volumes_with_chapters_and_pages[0][0].len(), 3);
    assert_eq!(
        st.volumes_with_chapters_and_pages[0][0],
        chapter(&["a/1.jpg", "a/2.jpg", "b/1.jpg"])
    );
    assert_eq!(st.report.total_chapters_processed, 2);
    assert_eq!(st.report.total_volumes_created, 1);
    assert_eq!(st.report.chapter_counts_per_volume, vec![2]);
    assert_eq!(st.grouping_strategy_applied, VolumeGroupingStrategy::Flat);
}

#[test]
fn test_flat_strategy_empty_input() {
    let config = config_with(VolumeGroupingStrategy::Flat);
    let st = config.structure_from_collected_data(Vec::new()).unwrap();
    assert_eq!(st.volumes_with_chapters_and_pages.len(), 0);
    assert_eq!(st.report.total_volumes_created, 0);
}

#[test]
fn test_manual_default_round_trip() {
    let config = config_with(VolumeGroupingStrategy::Manual);
    let collected = vec![
        chapter(&["c1/p1.jpg", "c1/p2.jpg"]),
        chapter(&["c2/p1.jpg"]),
        chapter(&["c3/p1.jpg", "c3/p2.jpg", "c3/p3.jpg"]),
    ];
    let st = config.structure_from_collected_data(collected.clone()).unwrap();

    // One volume carrying the chapters unchanged
    assert_eq!(st.volumes_with_chapters_and_pages.len(), 1);
    assert_eq!(st.volumes_with_chapters_and_pages[0], collected);

    // Concatenating all pages of all chapters reproduces the original flat
    // chapter list unchanged, in order
    let round_trip: Vec<String> = st
        .volumes_with_chapters_and_pages
        .iter()
        .flatten()
        .flatten()
        .cloned()
        .collect();
    let original: Vec<String> = collected.into_iter().flatten().collect();
    assert_eq!(round_trip, original);

    assert_eq!(st.report.total_volumes_created, 1);
    assert_eq!(st.report.chapter_counts_per_volume, vec![3]);
}

#[test]
fn test_manual_grouping_with_override() {
    let config = HozonConfig::builder()
        .metadata(EbookMetadata::default_with_title("Manual Grouping Book".to_string()))
        .target_path(String::from("target"))
        .volume_grouping_strategy(VolumeGroupingStrategy::Manual)
        .volume_sizes_override(vec![2, 2])
        .build()
        .unwrap();
    let collected = vec![
        chapter(&["Chapter_1/p1.jpg"]),
        chapter(&["Chapter_2/p1.jpg"]),
        chapter(&["Chapter_3/p1.jpg"]),
        chapter(&["Chapter_4/p1.jpg"]),
    ];
    let st = config.structure_from_collected_data(collected).unwrap();

    // 2 volumes, each with 2 chapters, 2 pages total each
    assert_eq!(st.volumes_with_chapters_and_pages.len(), 2);
    assert_eq!(st.volumes_with_chapters_and_pages[0].len(), 2);
    assert_eq!(st.volumes_with_chapters_and_pages[1].len(), 2);
    let pages0: usize = st.volumes_with_chapters_and_pages[0].iter().map(|c| c.len()).sum();
    let pages1: usize = st.volumes_with_chapters_and_pages[1].iter().map(|c| c.len()).sum();
    assert_eq!(pages0, 2);
    assert_eq!(pages1, 2);
    assert_eq!(st.report.chapter_counts_per_volume, vec![2, 2]);
    assert_eq!(st.report.total_volumes_created, 2);
}

#[test]
fn test_manual_override_overrun_is_error() {
    let config = HozonConfig::builder()
        .metadata(EbookMetadata::default_with_title("Test".to_string()))
        .target_path(String::from("target"))
        .volume_grouping_strategy(VolumeGroupingStrategy::Manual)
        .volume_sizes_override(vec![3, 3])
        .build()
        .unwrap();
    let collected = vec![
        chapter(&["Chapter_1/p1.jpg"]),
        chapter(&["Chapter_2/p1.jpg"]),
        chapter(&["Chapter_3/p1.jpg"]),
        chapter(&["Chapter_4/p1.jpg"]),
    ];
    let result = config.structure_from_collected_data(collected);
    assert!(result.is_err());
}

#[test]
fn test_name_grouping_strategy() {
    let config = config_with(VolumeGroupingStrategy::Name);
    // Chapters 01-001, 01-002, 02-001 with one image each
    let collected = vec![
        chapter(&["source/01-001/img.jpg"]),
        chapter(&["source/01-002/img.jpg"]),
        chapter(&["source/02-001/img.jpg"]),
    ];
    let st = config.structure_from_collected_data(collected).unwrap();

    // Structuring produces 2 volumes with chapter counts [2, 1]
    assert_eq!(st.report.total_volumes_created, 2);
    assert_eq!(st.report.chapter_counts_per_volume, vec![2, 1]);
    assert_eq!(st.volumes_with_chapters_and_pages.len(), 2);
    assert_eq!(
        st.volumes_with_chapters_and_pages[0],
        vec![
            chapter(&["source/01-001/img.jpg"]),
            chapter(&["source/01-002/img.jpg"]),
        ]
    );
    assert_eq!(
        st.volumes_with_chapters_and_pages[1],
        vec![chapter(&["source/02-001/img.jpg"])]
    );
}

#[test]
fn test_name_grouping_sorts_out_of_order_chapters() {
    let config = config_with(VolumeGroupingStrategy::Name);
    let collected = vec![
        chapter(&["source/02-001/img.jpg"]),
        chapter(&["source/01-002/img.jpg"]),
        chapter(&["source/01-001/img.jpg"]),
    ];
    let st = config.structure_from_collected_data(collected).unwrap();
    assert_eq!(st.report.chapter_counts_per_volume, vec![2, 1]);
    assert_eq!(
        st.volumes_with_chapters_and_pages[0],
        vec![
            chapter(&["source/01-001/img.jpg"]),
            chapter(&["source/01-002/img.jpg"]),
        ]
    );
}

#[test]
fn test_name_grouping_presorted_keeps_caller_order() {
    // The caller's order stands: chapters arrive volume 2 before volume 1
    // and stay that way, so each volume number change opens a volume.
    let config = config_with(VolumeGroupingStrategy::Manual);
    let collected = vec![
        chapter(&["source/02-001/img.jpg"]),
        chapter(&["source/01-001/img.jpg"]),
        chapter(&["source/01-002/img.jpg"]),
    ];
    let st = config
        .structure_from_collected_data_presorted(collected)
        .unwrap();
    assert_eq!(st.grouping_strategy_applied, VolumeGroupingStrategy::Name);
    assert_eq!(st.report.chapter_counts_per_volume, vec![1, 2]);
    assert_eq!(
        st.volumes_with_chapters_and_pages[0],
        vec![chapter(&["source/02-001/img.jpg"])]
    );
    assert_eq!(
        st.volumes_with_chapters_and_pages[1],
        vec![
            chapter(&["source/01-001/img.jpg"]),
            chapter(&["source/01-002/img.jpg"]),
        ]
    );
}

#[test]
fn test_name_grouping_tokenless_chapter_stays_in_place() {
    // A chapter whose folder name has no volume-chapter token is a no-op
    // for ordering: the stable sort leaves it where it arrived, and the
    // volume number change at the next tokened chapter opens volume 2.
    let config = config_with(VolumeGroupingStrategy::Name);
    let collected = vec![
        chapter(&["source/01-001/img.jpg"]),
        chapter(&["source/notes/img.jpg"]),
        chapter(&["source/02-001/img.jpg"]),
    ];
    let st = config.structure_from_collected_data(collected).unwrap();
    assert_eq!(st.report.chapter_counts_per_volume, vec![2, 1]);
    assert_eq!(
        st.volumes_with_chapters_and_pages[0],
        vec![
            chapter(&["source/01-001/img.jpg"]),
            chapter(&["source/notes/img.jpg"]),
        ]
    );
    assert_eq!(
        st.volumes_with_chapters_and_pages[1],
        vec![chapter(&["source/02-001/img.jpg"])]
    );
}

#[test]
fn test_name_grouping_zero_volume_never_opens() {
    // A volume token of zero is a "no volume" sentinel: it never starts a
    // new volume even when it differs from its neighbour's number.
    let config = config_with(VolumeGroupingStrategy::Name);
    let collected = vec![
        chapter(&["source/00-001/img.jpg"]),
        chapter(&["source/00-002/img.jpg"]),
    ];
    let st = config.structure_from_collected_data(collected).unwrap();
    assert_eq!(st.report.total_volumes_created, 1);
    assert_eq!(st.report.chapter_counts_per_volume, vec![2]);
}
