//! The conversion configuration and the volume-structuring engine.
//!
//! A [`HozonConfig`] is built once through its validating builder and then
//! drives the pipeline.  The structuring stage implemented here turns a
//! flat chapter list into volumes under one of the four grouping
//! strategies; its contracts pin the output exactly for `Flat` and
//! `Manual`, and for `Name` through the sorting and boundary-detection
//! specs.  Image analysis depends on what is on disk, so its contract
//! bounds the result instead.

use vstd::prelude::*;

use crate::collector::{
    spec_gap_list, spec_vc_key, spec_volume_sizes, Collector,
};
use crate::error::Error;
use crate::path_utils::file_name_start;
use crate::path_utils::file_name_start_exec;
use crate::pattern::NamePattern;
use crate::sorting::{
    counts_fit, flatten_chapters, lemma_counts_fit_of_sum, pair_key_view, pairs_view,
    partition_by_counts, seq_usize_sum, sort_pairs, spec_partition, spec_sort_pairs, KeyOrder,
    KeyView, SortPairKey,
};
use crate::sortkey::{opt_key_view, SortKey};
use crate::strutil::{char_range, chars_to_string, str_chars};
use crate::types::{
    CollectionDepth, Direction, EbookMetadata, FileFormat, HozonExecutionMode, SourceStatus,
    StructuredContent, VolumeGroupingStrategy, VolumeStructureReport,
};

verus! {

/// The directory part of a page path: everything before the separator in
/// front of the final segment; empty when the path has no separator.
pub open spec fn spec_parent(p: Seq<char>) -> Seq<char> {
    if file_name_start(p) == 0 {
        Seq::empty()
    } else {
        p.take(file_name_start(p) - 1)
    }
}

/// The sort key of a chapter under name grouping: the volume-chapter key of
/// the folder that holds its first page.
pub open spec fn spec_chapter_sort_key(chapter: Vec<String>) -> (KeyView, KeyView) {
    spec_vc_key(spec_parent(chapter@[0]@))
}

/// The key/chapter pairs that name grouping sorts: every chapter that has
/// at least one page, keyed by its folder name, in collection order.
pub open spec fn spec_name_pairs(collected: Seq<Vec<String>>) -> Seq<
    ((KeyView, KeyView), Vec<String>),
>
    decreases collected.len(),
{
    if collected.len() == 0 {
        Seq::empty()
    } else {
        let prev = spec_name_pairs(collected.drop_last());
        if collected.last()@.len() > 0 {
            prev.push((spec_chapter_sort_key(collected.last()), collected.last()))
        } else {
            prev
        }
    }
}

/// The numeric value zero as a canonical key.
pub open spec fn zero_key() -> (Seq<char>, Seq<char>) {
    (Seq::empty(), Seq::empty())
}

/// The volume number a chapter contributes to boundary detection: its
/// parsed volume key, or zero where none parses.
pub open spec fn vol_or_zero(kv: KeyView) -> (Seq<char>, Seq<char>) {
    match kv {
        Option::Some(k) => k,
        Option::None => zero_key(),
    }
}

/// Whether sorted chapter `i` starts a new volume: its volume number is
/// positive and differs from its predecessor's.  (A volume number of zero
/// stands for "no volume token" and never opens a volume.)
pub open spec fn name_boundary(s: Seq<((KeyView, KeyView), Vec<String>)>, i: int) -> bool {
    vol_or_zero(s[i].0.0) != zero_key() && vol_or_zero(s[i].0.0) != vol_or_zero(s[i - 1].0.0)
}

/// The boundary indices found at positions `i` and beyond.
pub open spec fn spec_name_starts_from(s: Seq<((KeyView, KeyView), Vec<String>)>, i: int) -> Seq<
    usize,
>
    decreases s.len() - i,
{
    if i < 1 || i >= s.len() {
        Seq::empty()
    } else {
        let rest = spec_name_starts_from(s, i + 1);
        if name_boundary(s, i) {
            seq![i as usize] + rest
        } else {
            rest
        }
    }
}

/// The volume-start indices of name grouping: chapter 0 always starts
/// volume 1; after it, every boundary chapter starts one.
pub open spec fn spec_name_starts(s: Seq<((KeyView, KeyView), Vec<String>)>) -> Seq<usize> {
    if s.len() == 0 {
        Seq::empty()
    } else {
        seq![0usize] + spec_name_starts_from(s, 1)
    }
}

/// For strictly increasing starts, every gap is positive, so there is one
/// gap per pair of neighbours.
proof fn lemma_gap_list_len(starts: Seq<usize>)
    requires
        forall|i: int, j: int|
            0 <= i < j < starts.len() ==> #[trigger] starts[i] < #[trigger] starts[j],
    ensures
        starts.len() >= 1 ==> spec_gap_list(starts).len() == starts.len() - 1,
        starts.len() == 0 ==> spec_gap_list(starts).len() == 0,
    decreases starts.len(),
{
    if starts.len() > 1 {
        lemma_gap_list_len(starts.drop_last());
    }
}

/// For strictly increasing starts that begin at 0 and stay below the
/// total, there is exactly one volume size per start index.
pub proof fn lemma_volume_sizes_len(starts: Seq<usize>, total: usize)
    requires
        forall|i: int, j: int|
            0 <= i < j < starts.len() ==> #[trigger] starts[i] < #[trigger] starts[j],
        forall|i: int| 0 <= i < starts.len() ==> #[trigger] starts[i] < total,
        starts.len() > 0 ==> starts[0] == 0,
        starts.len() == 0 ==> total == 0,
    ensures
        spec_volume_sizes(starts, total).len() == starts.len(),
{
    lemma_gap_list_len(starts);
}

/// The flat page list of a chapter sequence.
pub open spec fn spec_pages_flat(collected: Seq<Vec<String>>) -> Seq<String> {
    collected.map_values(|c: Vec<String>| c@).flatten()
}

/// The total page count of a chapter sequence.
pub open spec fn spec_page_total(collected: Seq<Vec<String>>) -> int
    decreases collected.len(),
{
    if collected.len() == 0 {
        0
    } else {
        spec_page_total(collected.drop_last()) + collected.last()@.len()
    }
}

/// A prefix of the chapters counts no more pages than all of them.
pub proof fn lemma_page_total_prefix(s: Seq<Vec<String>>, k: int)
    requires
        0 <= k <= s.len(),
    ensures
        spec_page_total(s.take(k)) <= spec_page_total(s),
    decreases s.len() - k,
{
    if k == s.len() {
        assert(s.take(k) =~= s);
    } else {
        assert(s.take(k + 1).drop_last() =~= s.take(k));
        assert(s.take(k + 1).last() == s[k]);
        lemma_page_total_prefix(s, k + 1);
    }
}

/// Concatenating chapters concatenates their page counts.
pub proof fn lemma_pages_flat_len(collected: Seq<Vec<String>>)
    ensures
        spec_pages_flat(collected).len() == spec_page_total(collected),
    decreases collected.len(),
{
    let mapped = collected.map_values(|c: Vec<String>| c@);
    if collected.len() == 0 {
        assert(mapped =~= Seq::<Seq<String>>::empty());
    } else {
        lemma_pages_flat_len(collected.drop_last());
        assert(mapped.drop_last() =~= collected.drop_last().map_values(|c: Vec<String>| c@));
        mapped.drop_last().lemma_flatten_push(mapped.last());
        assert(mapped =~= mapped.drop_last().push(mapped.last()));
    }
}

/// The `Flat` strategy law: its single volume holds a single chapter whose
/// page count is the sum of every input chapter's page count.
pub proof fn lemma_flat_page_count(volume: Seq<Vec<String>>, collected: Seq<Vec<String>>)
    requires
        volume.len() == 1,
        volume[0]@ == spec_pages_flat(collected),
    ensures
        volume[0]@.len() == spec_page_total(collected),
{
    lemma_pages_flat_len(collected);
}

/// The `Manual`-without-override round trip: the single volume carries the
/// collected chapters unchanged, so concatenating all of its chapters — and
/// hence all of their pages, in order — reproduces the input exactly.
pub proof fn lemma_manual_default_round_trip(
    volumes: Seq<Vec<Vec<String>>>,
    collected: Seq<Vec<String>>,
)
    requires
        volumes.len() == 1,
        volumes[0]@ == collected,
    ensures
        volumes.map_values(|g: Vec<Vec<String>>| g@).flatten() == collected,
        volumes.map_values(|g: Vec<Vec<String>>| g@).flatten().map_values(
            |c: Vec<String>| c@,
        ).flatten() == spec_pages_flat(collected),
{
    let mapped = volumes.map_values(|g: Vec<Vec<String>>| g@);
    assert(mapped.len() == 1);
    mapped.lemma_flatten_one_element();
    assert(mapped.flatten() == mapped.first());
    assert(mapped.first() == collected);
}

/// The main conversion configuration, built through [`HozonConfigBuilder`].
/// Field meanings follow the builder's setters; the compiled patterns are
/// produced by the builder from the pattern strings.
#[derive(Debug)]
pub struct HozonConfig {
    /// Complete ebook metadata embedded into the generated files.
    pub metadata: EbookMetadata,
    /// Source directory with the image files to convert.
    pub source_path: String,
    /// Target directory for the generated ebook files.
    pub target_path: String,
    /// Output file format.
    pub output_format: FileFormat,
    /// Reading direction, honoured by the reflowable format.
    pub reading_direction: Direction,
    /// Whether a subdirectory named after the title is created under the
    /// target path.
    pub create_output_directory: bool,
    /// Directory scanning depth.
    pub collection_depth: CollectionDepth,
    /// Sensitivity of the grayscale cover heuristic, 0 to 100 percent.
    pub image_analysis_sensibility: u8,
    /// Strategy for grouping chapters into volumes.
    pub volume_grouping_strategy: VolumeGroupingStrategy,
    /// Separator between the series title and `Volume N` in file names.
    pub volume_separator: String,
    /// Custom pattern text for chapter numbers, where one was supplied.
    pub chapter_name_regex_str: Option<String>,
    /// Custom pattern text for page numbers, where one was supplied.
    pub page_name_regex_str: Option<String>,
    /// Explicit chapter counts per volume for the `Manual` strategy.
    pub volume_sizes_override: Vec<usize>,
    /// Compiled form of `chapter_name_regex_str`.
    pub compiled_chapter_name_regex: Option<NamePattern>,
    /// Compiled form of `page_name_regex_str`.
    pub compiled_page_name_regex: Option<NamePattern>,
}

/// What the structuring stage promises for each strategy, beyond the
/// clauses shared by all of them.
pub open spec fn spec_structuring_ok(
    config: HozonConfig,
    collected: Seq<Vec<String>>,
    st: StructuredContent,
) -> bool {
    let n = collected.len();
    let volumes = st.volumes_with_chapters_and_pages@.map_values(|g: Vec<Vec<String>>| g@);
    let counts = st.report.chapter_counts_per_volume@;
    match config.volume_grouping_strategy {
        VolumeGroupingStrategy::Flat => {
            if n > 0 {
                &&& volumes.len() == 1
                &&& volumes[0].len() == 1
                &&& volumes[0][0]@ == spec_pages_flat(collected)
                &&& counts == seq![n as usize]
                &&& st.report.total_volumes_created == 1
            } else {
                volumes.len() == 0 && counts.len() == 0 && st.report.total_volumes_created == 0
            }
        },
        VolumeGroupingStrategy::Manual => {
            if config.volume_sizes_override@.len() > 0 {
                &&& counts == config.volume_sizes_override@
                &&& st.report.total_volumes_created == counts.len()
                &&& volumes == spec_partition(collected, counts)
            } else if n > 0 {
                &&& volumes.len() == 1
                &&& volumes[0] == collected
                &&& counts == seq![n as usize]
                &&& st.report.total_volumes_created == 1
            } else {
                volumes.len() == 0 && counts.len() == 0 && st.report.total_volumes_created == 0
            }
        },
        VolumeGroupingStrategy::Name => {
            let sorted = spec_sort_pairs(KeyOrder::VolumeChapter, spec_name_pairs(collected));
            let starts = spec_name_starts(sorted);
            let m = sorted.len();
            &&& counts == spec_volume_sizes(starts, m as usize)
            &&& st.report.total_volumes_created == starts.len()
            &&& volumes == spec_partition(
                sorted.map_values(|pr: ((KeyView, KeyView), Vec<String>)| pr.1),
                counts,
            )
            &&& seq_usize_sum(counts) == m
        },
        VolumeGroupingStrategy::ImageAnalysis => {
            &&& volumes == spec_partition(collected, counts)
            &&& seq_usize_sum(counts) == n
            &&& st.report.total_volumes_created == counts.len()
        },
    }
}

impl HozonConfig {
    /// Creates a new builder with nothing set.
    pub fn builder() -> (r: HozonConfigBuilder)
        ensures
            r.metadata is None,
            r.source_path is None,
            r.target_path is None,
            r.output_format is None,
            r.reading_direction is None,
            r.create_output_directory is None,
            r.collection_depth is None,
            r.image_analysis_sensibility is None,
            r.volume_grouping_strategy is None,
            r.volume_separator is None,
            r.chapter_name_regex_str is None,
            r.page_name_regex_str is None,
            r.volume_sizes_override is None,
    {
        HozonConfigBuilder {
            metadata: None,
            source_path: None,
            target_path: None,
            output_format: None,
            reading_direction: None,
            create_output_directory: None,
            collection_depth: None,
            image_analysis_sensibility: None,
            volume_grouping_strategy: None,
            volume_separator: None,
            chapter_name_regex_str: None,
            page_name_regex_str: None,
            volume_sizes_override: None,
        }
    }

    /// Validates the configuration for an execution mode, without touching
    /// any file.  What the file system would say about the source path comes
    /// in as a [`SourceStatus`] observation.
    ///
    /// Succeeds exactly when the title and target path are set, the
    /// sensitivity is within 0 to 100 percent, and — for a run that starts
    /// from the source directory — the source path is set, exists, and is a
    /// directory.
    pub fn preflight_check(&self, mode: HozonExecutionMode, source: &SourceStatus) -> (r: Result<
        (),
        Error,
    >)
        ensures
            r is Ok <==> self.metadata.title@.len() > 0 && self.target_path@.len() > 0
                && self.image_analysis_sensibility <= 100 && (mode
                == HozonExecutionMode::FromSource ==> self.source_path@.len() > 0 && source.exists
                && source.is_directory),
            r matches Err(e) ==> e is Other || e is NotFound || e is InvalidPath,
    {
        if self.metadata.title.as_str().is_empty() {
            return Err(Error::Other("Ebook title is required".to_owned()));
        }
        if self.target_path.as_str().is_empty() {
            return Err(Error::Other("Target path is required".to_owned()));
        }
        if self.image_analysis_sensibility > 100 {
            return Err(Error::Other(
                "Image analysis sensibility must be between 0 and 100.".to_owned(),
            ));
        }
        match mode {
            HozonExecutionMode::FromSource => {
                if self.source_path.as_str().is_empty() {
                    return Err(Error::Other(
                        "`source_path` must be set for `FromSource` execution mode.".to_owned(),
                    ));
                }
                if !source.exists {
                    let mut m = "Source path does not exist: ".to_owned();
                    m.append(self.source_path.as_str());
                    return Err(Error::NotFound(m));
                }
                if !source.is_directory {
                    return Err(Error::InvalidPath(
                        self.source_path.clone(),
                        "Source path is not a directory.".to_owned(),
                    ));
                }
            },
            HozonExecutionMode::FromCollectedData => {},
            HozonExecutionMode::FromStructuredData => {},
        }
        Ok(())
    }

    /// Groups pre-collected chapters into volumes under the configured
    /// strategy.
    ///
    /// `Flat` merges every page into one chapter of one volume; `Manual`
    /// partitions by the explicit sizes — failing exactly when they overrun
    /// the available chapters — or keeps everything in one volume; `Name`
    /// sorts chapters by the volume-chapter numbers in their folder names
    /// and opens a volume wherever the volume number changes to a new
    /// positive value; `ImageAnalysis` opens volumes at chapters whose
    /// first page classifies as color.  All strategies preserve page order
    /// within chapters and chapter order within volumes.
    pub fn structure_from_collected_data(&self, collected_data: Vec<Vec<String>>) -> (r: Result<
        StructuredContent,
        Error,
    >)
        ensures
            r matches Ok(st) ==> st.grouping_strategy_applied == self.volume_grouping_strategy
                && st.report.total_chapters_processed == collected_data@.len()
                && spec_structuring_ok(*self, collected_data@, st),
            r is Err <==> self.volume_grouping_strategy == VolumeGroupingStrategy::Manual
                && self.volume_sizes_override@.len() > 0 && !counts_fit(
                self.volume_sizes_override@,
                collected_data@.len() as int,
            ),
            r matches Err(e) ==> e matches Error::Other(m) && m@
                == "volume sizes exceed available chapters"@,
    {
        let n = collected_data.len();
        match self.volume_grouping_strategy {
            VolumeGroupingStrategy::Flat => {
                let mut volumes: Vec<Vec<Vec<String>>> = Vec::new();
                let mut counts: Vec<usize> = Vec::new();
                let mut created: usize = 0;
                if n > 0 {
                    let all_pages = flatten_chapters(collected_data);
                    let mut chapters: Vec<Vec<String>> = Vec::new();
                    chapters.push(all_pages);
                    volumes.push(chapters);
                    counts.push(n);
                    created = 1;
                }
                proof {
                    if n > 0 {
                        assert(counts@ =~= seq![n as usize]);
                    }
                }
                Ok(StructuredContent {
                    volumes_with_chapters_and_pages: volumes,
                    report: VolumeStructureReport {
                        total_chapters_processed: n,
                        total_volumes_created: created,
                        chapter_counts_per_volume: counts,
                    },
                    grouping_strategy_applied: VolumeGroupingStrategy::Flat,
                })
            },
            VolumeGroupingStrategy::Manual => {
                if self.volume_sizes_override.len() > 0 {
                    let counts = copy_counts(&self.volume_sizes_override);
                    let volumes = match partition_by_counts(collected_data, &counts) {
                        Ok(v) => v,
                        Err(e) => {
                            return Err(e);
                        },
                    };
                    let created = counts.len();
                    Ok(StructuredContent {
                        volumes_with_chapters_and_pages: volumes,
                        report: VolumeStructureReport {
                            total_chapters_processed: n,
                            total_volumes_created: created,
                            chapter_counts_per_volume: counts,
                        },
                        grouping_strategy_applied: VolumeGroupingStrategy::Manual,
                    })
                } else {
                    let mut volumes: Vec<Vec<Vec<String>>> = Vec::new();
                    let mut counts: Vec<usize> = Vec::new();
                    let mut created: usize = 0;
                    if n > 0 {
                        volumes.push(collected_data);
                        counts.push(n);
                        created = 1;
                    }
                    proof {
                        if n > 0 {
                            assert(counts@ =~= seq![n as usize]);
                        }
                    }
                    Ok(StructuredContent {
                        volumes_with_chapters_and_pages: volumes,
                        report: VolumeStructureReport {
                            total_chapters_processed: n,
                            total_volumes_created: created,
                            chapter_counts_per_volume: counts,
                        },
                        grouping_strategy_applied: VolumeGroupingStrategy::Manual,
                    })
                }
            },
            VolumeGroupingStrategy::Name => self.structure_by_name(collected_data),
            VolumeGroupingStrategy::ImageAnalysis => self.structure_by_image_analysis(
                collected_data,
            ),
        }
    }
}

/// Whether a volume key is the zero sentinel: absent, or canonically zero.
fn vol_is_zero(a: &Option<SortKey>) -> (r: bool)
    ensures
        r == (vol_or_zero(opt_key_view(*a)) == zero_key()),
{
    match a {
        None => true,
        Some(k) => {
            let z = k.int_digits.len() == 0 && k.frac_digits.len() == 0;
            proof {
                if z {
                    assert(k.int_digits@ =~= Seq::<char>::empty());
                    assert(k.frac_digits@ =~= Seq::<char>::empty());
                } else {
                    assert(k@ != zero_key());
                }
            }
            z
        },
    }
}

/// Whether two volume keys stand for the same number, treating an absent
/// key as zero.
fn vol_eq(a: &Option<SortKey>, b: &Option<SortKey>) -> (r: bool)
    ensures
        r == (vol_or_zero(opt_key_view(*a)) == vol_or_zero(opt_key_view(*b))),
{
    match (a, b) {
        (None, None) => true,
        (None, Some(_)) => vol_is_zero(b),
        (Some(_), None) => vol_is_zero(a),
        (Some(x), Some(y)) => {
            let e = crate::strutil::chars_eq(&x.int_digits, &y.int_digits)
                && crate::strutil::chars_eq(&x.frac_digits, &y.frac_digits);
            proof {
                if x.int_digits@ == y.int_digits@ && x.frac_digits@ == y.frac_digits@ {
                    assert(x@ == y@);
                }
            }
            e
        },
    }
}

impl HozonConfig {
    /// Builds the collector this configuration drives.
    fn make_collector(&self) -> (r: Collector)
        ensures
            r.spec_sensibility() == if self.image_analysis_sensibility > 100 {
                100u8
            } else {
                self.image_analysis_sensibility
            },
    {
        Collector::new(
            self.source_path.as_str(),
            self.collection_depth,
            self.compiled_chapter_name_regex.as_ref(),
            self.compiled_page_name_regex.as_ref(),
            self.image_analysis_sensibility,
        )
    }

    /// Structures chapters by cover-color analysis: a volume opens at every
    /// chapter whose first page decodes and classifies as color, and at
    /// chapter 0.  Decode failures cost nothing but their boundary.
    fn structure_by_image_analysis(&self, collected_data: Vec<Vec<String>>) -> (r: Result<
        StructuredContent,
        Error,
    >)
        requires
            self.volume_grouping_strategy == VolumeGroupingStrategy::ImageAnalysis,
        ensures
            r matches Ok(st) ==> st.grouping_strategy_applied == self.volume_grouping_strategy
                && st.report.total_chapters_processed == collected_data@.len()
                && spec_structuring_ok(*self, collected_data@, st),
            r is Ok,
    {
        let n = collected_data.len();
        let collector = self.make_collector();
        let sens = self.image_analysis_sensibility;
        let starts = match collector.determine_volume_start_chapters(&collected_data, Some(sens)) {
            Ok(s) => s,
            Err(_) => unreached(),
        };
        let created = starts.len();
        let ghost starts_view = starts@;
        let counts = match collector.calculate_volume_sizes(starts, n) {
            Ok(c) => c,
            Err(_) => unreached(),
        };
        proof {
            crate::collector::lemma_volume_sizes_sum(starts_view, n);
            lemma_counts_fit_of_sum(counts@, n as int);
            lemma_volume_sizes_len(starts_view, n);
        }
        let volumes = match partition_by_counts(collected_data, &counts) {
            Ok(v) => v,
            Err(_) => unreached(),
        };
        Ok(StructuredContent {
            volumes_with_chapters_and_pages: volumes,
            report: VolumeStructureReport {
                total_chapters_processed: n,
                total_volumes_created: created,
                chapter_counts_per_volume: counts,
            },
            grouping_strategy_applied: VolumeGroupingStrategy::ImageAnalysis,
        })
    }

    /// Builds the key/chapter pairs of name grouping: every chapter with
    /// pages, keyed by the volume-chapter numbers of its folder name, in
    /// the given order.
    fn name_pairs(&self, collected_data: Vec<Vec<String>>) -> (r: Vec<(SortPairKey, Vec<String>)>)
        ensures
            pairs_view(r@) == spec_name_pairs(collected_data@),
    {
        let collector = self.make_collector();
        let ghost orig = collected_data@;
        let n = collected_data.len();
        let mut rest = collected_data;
        let mut pairs: Vec<(SortPairKey, Vec<String>)> = Vec::new();
        let mut i: usize = 0;
        proof {
            assert(pairs_view(pairs@) =~= spec_name_pairs(orig.take(0)));
            assert(rest@ =~= orig.skip(0));
        }
        while rest.len() > 0
            invariant
                i <= orig.len(),
                orig.len() == n,
                rest@ == orig.skip(i as int),
                pairs_view(pairs@) == spec_name_pairs(orig.take(i as int)),
            decreases rest@.len(),
        {
            let chapter = rest.remove(0);
            proof {
                assert(orig.skip(i as int).remove(0) =~= orig.skip(i as int + 1));
                assert(chapter == orig[i as int]);
            }
            if chapter.len() > 0 {
                let chars = str_chars(chapter[0].as_str());
                let fns = file_name_start_exec(&chars);
                let parent_chars: Vec<char> = if fns == 0 {
                    Vec::new()
                } else {
                    char_range(&chars, 0, fns - 1)
                };
                proof {
                    assert(parent_chars@ =~= spec_parent(chapter@[0]@));
                }
                let parent = chars_to_string(&parent_chars);
                let key = collector.vc_key(parent.as_str());
                pairs.push((key, chapter));
            }
            i = i + 1;
            proof {
                assert(orig.take(i as int).drop_last() =~= orig.take(i as int - 1));
                assert(orig.take(i as int).last() == orig[i as int - 1]);
                assert(pairs_view(pairs@) =~= spec_name_pairs(orig.take(i as int)));
            }
        }
        proof {
            assert(orig.take(orig.len() as int) =~= orig);
        }
        pairs
    }

    /// The back half of name grouping: boundary detection over the given
    /// key/chapter pairs, sizes, and the contiguous partition, with the
    /// pairs' order taken as final.
    fn name_structuring_from_pairs(
        &self,
        n: usize,
        sorted: Vec<(SortPairKey, Vec<String>)>,
    ) -> (r: Result<StructuredContent, Error>)
        ensures
            r is Ok,
            r matches Ok(st) ==> ({
                let sv = pairs_view(sorted@);
                let starts = spec_name_starts(sv);
                let counts = spec_volume_sizes(starts, sv.len() as usize);
                &&& st.grouping_strategy_applied == VolumeGroupingStrategy::Name
                &&& st.report.total_chapters_processed == n
                &&& st.report.chapter_counts_per_volume@ == counts
                &&& st.report.total_volumes_created == starts.len()
                &&& st.volumes_with_chapters_and_pages@.map_values(|g: Vec<Vec<String>>| g@)
                    == spec_partition(
                    sv.map_values(|pr: ((KeyView, KeyView), Vec<String>)| pr.1),
                    counts,
                )
                &&& seq_usize_sum(counts) == sv.len()
            }),
    {
        let collector = self.make_collector();
        let ghost sorted_view = pairs_view(sorted@);
        let m = sorted.len();
        proof {
            assert(sorted_view.len() == m);
        }
        let mut starts: Vec<usize> = Vec::new();
        if m > 0 {
            starts.push(0);
            let mut j: usize = 1;
            proof {
                assert(starts@ =~= seq![0usize]);
                assert(seq![0usize] + spec_name_starts_from(sorted_view, 1) =~= starts@
                    + spec_name_starts_from(sorted_view, 1));
            }
            while j < m
                invariant
                    1 <= j <= m,
                    sorted_view.len() == m,
                    sorted@.len() == m,
                    pairs_view(sorted@) == sorted_view,
                    seq![0usize] + spec_name_starts_from(sorted_view, 1) == starts@
                        + spec_name_starts_from(sorted_view, j as int),
                    starts@.len() > 0,
                    starts@[0] == 0,
                    forall|k: int| 0 <= k < starts@.len() ==> #[trigger] starts@[k] < j,
                    forall|k: int, l: int|
                        0 <= k < l < starts@.len() ==> #[trigger] starts@[k] < #[trigger] starts@[l],
                decreases m - j,
            {
                let curr = &sorted[j].0.0;
                let prev = &sorted[j - 1].0.0;
                let is_boundary = !vol_is_zero(curr) && !vol_eq(curr, prev);
                proof {
                    assert(pair_key_view(sorted@[j as int].0) == sorted_view[j as int].0);
                    assert(pair_key_view(sorted@[j as int - 1].0) == sorted_view[j as int - 1].0);
                    assert(is_boundary == name_boundary(sorted_view, j as int));
                }
                if is_boundary {
                    starts.push(j);
                    proof {
                        assert(starts@.drop_last() + (seq![j as usize] + spec_name_starts_from(
                            sorted_view,
                            j as int + 1,
                        )) =~= starts@ + spec_name_starts_from(sorted_view, j as int + 1));
                        assert(starts@.drop_last() + spec_name_starts_from(sorted_view, j as int)
                            =~= (starts@.drop_last() + seq![j as usize]) + spec_name_starts_from(
                            sorted_view,
                            j as int + 1,
                        ));
                    }
                }
                j = j + 1;
            }
            proof {
                assert(spec_name_starts_from(sorted_view, m as int) =~= Seq::<usize>::empty());
                assert(starts@ + Seq::<usize>::empty() =~= starts@);
                assert(starts@ == spec_name_starts(sorted_view));
            }
        } else {
            proof {
                assert(starts@ =~= spec_name_starts(sorted_view));
            }
        }
        let created = starts.len();
        let ghost starts_view = starts@;
        let counts = match collector.calculate_volume_sizes(starts, m) {
            Ok(c) => c,
            Err(_) => unreached(),
        };
        proof {
            crate::collector::lemma_volume_sizes_sum(starts_view, m);
            lemma_counts_fit_of_sum(counts@, m as int);
            lemma_volume_sizes_len(starts_view, m);
        }
        // Pull the chapters out of the sorted pairs, in order.
        let mut sorted = sorted;
        let mut payloads: Vec<Vec<String>> = Vec::new();
        let mut taken: usize = 0;
        proof {
            assert(pairs_view(sorted@) =~= sorted_view.skip(0));
        }
        while sorted.len() > 0
            invariant
                taken <= m,
                sorted_view.len() == m,
                pairs_view(sorted@) == sorted_view.skip(taken as int),
                payloads@.len() == taken,
                forall|k: int| 0 <= k < taken ==> #[trigger] payloads@[k] == sorted_view[k].1,
            decreases sorted@.len(),
        {
            let ghost before = sorted@;
            proof {
                assert(pairs_view(before).len() == before.len());
                assert(taken < m);
            }
            let x = sorted.remove(0);
            payloads.push(x.1);
            taken = taken + 1;
            proof {
                assert(pairs_view(before)[0] == (pair_key_view(x.0), x.1));
                assert(pairs_view(sorted@) =~= pairs_view(before).drop_first()) by {
                    assert(sorted@ == before.remove(0));
                    assert forall|k: int| 0 <= k < sorted@.len() implies pairs_view(sorted@)[k]
                        == pairs_view(before).drop_first()[k] by {
                        assert(sorted@[k] == before[k + 1]);
                    }
                }
                assert(pairs_view(before).drop_first() =~= sorted_view.skip(taken as int));
                assert(x.1 == sorted_view[taken as int - 1].1);
            }
        }
        proof {
            assert(payloads@ =~= sorted_view.map_values(
                |pr: ((KeyView, KeyView), Vec<String>)| pr.1,
            ));
        }
        let volumes = match partition_by_counts(payloads, &counts) {
            Ok(v) => v,
            Err(_) => unreached(),
        };
        Ok(StructuredContent {
            volumes_with_chapters_and_pages: volumes,
            report: VolumeStructureReport {
                total_chapters_processed: n,
                total_volumes_created: created,
                chapter_counts_per_volume: counts,
            },
            grouping_strategy_applied: VolumeGroupingStrategy::Name,
        })
    }

    /// Groups pre-collected chapters into volumes by the volume-chapter
    /// numbers in their folder names, keeping the caller's chapter order.
    ///
    /// This is the entry point for callers that bring their own chapter
    /// comparator: sort the collected chapters however you wish, then
    /// structure them here — the built-in re-sort of the `Name` strategy is
    /// skipped, and a volume opens wherever, in the given order, the volume
    /// number changes to a new positive value.  As under `Name`, chapters
    /// without pages are dropped.
    pub fn structure_from_collected_data_presorted(
        &self,
        collected_data: Vec<Vec<String>>,
    ) -> (r: Result<StructuredContent, Error>)
        ensures
            r is Ok,
            r matches Ok(st) ==> st.report.total_chapters_processed == collected_data@.len()
                && ({
                let sv = spec_name_pairs(collected_data@);
                let starts = spec_name_starts(sv);
                let counts = spec_volume_sizes(starts, sv.len() as usize);
                &&& st.grouping_strategy_applied == VolumeGroupingStrategy::Name
                &&& st.report.chapter_counts_per_volume@ == counts
                &&& st.report.total_volumes_created == starts.len()
                &&& st.volumes_with_chapters_and_pages@.map_values(|g: Vec<Vec<String>>| g@)
                    == spec_partition(
                    sv.map_values(|pr: ((KeyView, KeyView), Vec<String>)| pr.1),
                    counts,
                )
                &&& seq_usize_sum(counts) == sv.len()
            }),
    {
        let n = collected_data.len();
        let pairs = self.name_pairs(collected_data);
        self.name_structuring_from_pairs(n, pairs)
    }

    /// Structures chapters by the volume-chapter numbers in their folder
    /// names: chapters with pages are sorted by those numbers, and a volume
    /// opens wherever the volume number changes to a new positive value.
    fn structure_by_name(&self, collected_data: Vec<Vec<String>>) -> (r: Result<
        StructuredContent,
        Error,
    >)
        requires
            self.volume_grouping_strategy == VolumeGroupingStrategy::Name,
        ensures
            r matches Ok(st) ==> st.grouping_strategy_applied == self.volume_grouping_strategy
                && st.report.total_chapters_processed == collected_data@.len()
                && spec_structuring_ok(*self, collected_data@, st),
            r is Ok,
    {
        let n = collected_data.len();
        let pairs = self.name_pairs(collected_data);
        let sorted = sort_pairs(KeyOrder::VolumeChapter, pairs);
        self.name_structuring_from_pairs(n, sorted)
    }

}

/// Rejects an empty collected-chapter list before a conversion starts.
pub fn check_collected_data(collected: &Vec<Vec<String>>) -> (r: Result<(), Error>)
    ensures
        r is Ok <==> collected@.len() > 0,
        r matches Err(e) ==> e matches Error::NotFound(m) && m@
            == "Provided collected data is empty"@,
{
    if collected.len() == 0 {
        Err(Error::NotFound("Provided collected data is empty".to_owned()))
    } else {
        Ok(())
    }
}

/// Rejects an empty structured-volume list before a generation starts.
pub fn check_structured_data(structured: &Vec<Vec<Vec<String>>>) -> (r: Result<(), Error>)
    ensures
        r is Ok <==> structured@.len() > 0,
        r matches Err(e) ==> e matches Error::NotFound(m) && m@
            == "Provided structured data is empty"@,
{
    if structured.len() == 0 {
        Err(Error::NotFound("Provided structured data is empty".to_owned()))
    } else {
        Ok(())
    }
}

/// Builder for [`HozonConfig`]: set what should differ from the defaults,
/// then `build`.  Building validates the custom patterns and the
/// sensitivity, so an invalid configuration never exists.
#[derive(Debug)]
pub struct HozonConfigBuilder {
    pub metadata: Option<EbookMetadata>,
    pub source_path: Option<String>,
    pub target_path: Option<String>,
    pub output_format: Option<FileFormat>,
    pub reading_direction: Option<Direction>,
    pub create_output_directory: Option<bool>,
    pub collection_depth: Option<CollectionDepth>,
    pub image_analysis_sensibility: Option<u8>,
    pub volume_grouping_strategy: Option<VolumeGroupingStrategy>,
    pub volume_separator: Option<String>,
    pub chapter_name_regex_str: Option<String>,
    pub page_name_regex_str: Option<String>,
    pub volume_sizes_override: Option<Vec<usize>>,
}

impl HozonConfigBuilder {
    /// Sets the ebook metadata.
    pub fn metadata(self, value: EbookMetadata) -> (r: Self)
        ensures
            r == (HozonConfigBuilder { metadata: Some(value), ..self }),
    {
        let mut s = self;
        s.metadata = Some(value);
        s
    }

    /// Sets the source directory.
    pub fn source_path(self, value: String) -> (r: Self)
        ensures
            r == (HozonConfigBuilder { source_path: Some(value), ..self }),
    {
        let mut s = self;
        s.source_path = Some(value);
        s
    }

    /// Sets the target directory.
    pub fn target_path(self, value: String) -> (r: Self)
        ensures
            r == (HozonConfigBuilder { target_path: Some(value), ..self }),
    {
        let mut s = self;
        s.target_path = Some(value);
        s
    }

    /// Sets the output format.
    pub fn output_format(self, value: FileFormat) -> (r: Self)
        ensures
            r == (HozonConfigBuilder { output_format: Some(value), ..self }),
    {
        let mut s = self;
        s.output_format = Some(value);
        s
    }

    /// Sets the reading direction.
    pub fn reading_direction(self, value: Direction) -> (r: Self)
        ensures
            r == (HozonConfigBuilder { reading_direction: Some(value), ..self }),
    {
        let mut s = self;
        s.reading_direction = Some(value);
        s
    }

    /// Sets whether a title subdirectory is created under the target path.
    pub fn create_output_directory(self, value: bool) -> (r: Self)
        ensures
            r == (HozonConfigBuilder { create_output_directory: Some(value), ..self }),
    {
        let mut s = self;
        s.create_output_directory = Some(value);
        s
    }

    /// Sets the collection depth.
    pub fn collection_depth(self, value: CollectionDepth) -> (r: Self)
        ensures
            r == (HozonConfigBuilder { collection_depth: Some(value), ..self }),
    {
        let mut s = self;
        s.collection_depth = Some(value);
        s
    }

    /// Sets the grayscale sensitivity in percent.
    pub fn image_analysis_sensibility(self, value: u8) -> (r: Self)
        ensures
            r == (HozonConfigBuilder { image_analysis_sensibility: Some(value), ..self }),
    {
        let mut s = self;
        s.image_analysis_sensibility = Some(value);
        s
    }

    /// Sets the volume grouping strategy.
    pub fn volume_grouping_strategy(self, value: VolumeGroupingStrategy) -> (r: Self)
        ensures
            r == (HozonConfigBuilder { volume_grouping_strategy: Some(value), ..self }),
    {
        let mut s = self;
        s.volume_grouping_strategy = Some(value);
        s
    }

    /// Sets the separator between title and volume number in file names.
    pub fn volume_separator(self, value: String) -> (r: Self)
        ensures
            r == (HozonConfigBuilder { volume_separator: Some(value), ..self }),
    {
        let mut s = self;
        s.volume_separator = Some(value);
        s
    }

    /// Sets a custom pattern for chapter numbers.
    pub fn chapter_name_regex_str(self, value: String) -> (r: Self)
        ensures
            r == (HozonConfigBuilder { chapter_name_regex_str: Some(value), ..self }),
    {
        let mut s = self;
        s.chapter_name_regex_str = Some(value);
        s
    }

    /// Sets a custom pattern for page numbers.
    pub fn page_name_regex_str(self, value: String) -> (r: Self)
        ensures
            r == (HozonConfigBuilder { page_name_regex_str: Some(value), ..self }),
    {
        let mut s = self;
        s.page_name_regex_str = Some(value);
        s
    }

    /// Sets explicit chapter counts per volume for the `Manual` strategy.
    pub fn volume_sizes_override(self, value: Vec<usize>) -> (r: Self)
        ensures
            r == (HozonConfigBuilder { volume_sizes_override: Some(value), ..self }),
    {
        let mut s = self;
        s.volume_sizes_override = Some(value);
        s
    }

    /// Validates the settings and builds the configuration.
    ///
    /// Succeeds exactly when both custom patterns (where supplied) compile
    /// and the sensitivity (where supplied) is within 0 to 100; unset fields
    /// take their documented defaults.
    pub fn build(self) -> (r: Result<HozonConfig, Error>)
        ensures
            r is Ok <==> (match self.chapter_name_regex_str {
                Option::Some(s) => crate::pattern::pattern_compiles(s@),
                Option::None => true,
            }) && (match self.page_name_regex_str {
                Option::Some(s) => crate::pattern::pattern_compiles(s@),
                Option::None => true,
            }) && (match self.image_analysis_sensibility {
                Option::Some(v) => v <= 100,
                Option::None => true,
            }),
            r matches Ok(c) ==> ({
                &&& c.metadata == (match self.metadata {
                    Option::Some(m) => m,
                    Option::None => c.metadata,
                })
                &&& self.metadata is None ==> c.metadata.title@ == "Untitled Conversion"@
                    && c.metadata.language@ == "en"@
                &&& c.source_path@ == (match self.source_path {
                    Option::Some(s) => s@,
                    Option::None => Seq::<char>::empty(),
                })
                &&& c.target_path@ == (match self.target_path {
                    Option::Some(s) => s@,
                    Option::None => Seq::<char>::empty(),
                })
                &&& c.output_format == (match self.output_format {
                    Option::Some(v) => v,
                    Option::None => FileFormat::Cbz,
                })
                &&& c.reading_direction == (match self.reading_direction {
                    Option::Some(v) => v,
                    Option::None => Direction::Ltr,
                })
                &&& c.create_output_directory == (match self.create_output_directory {
                    Option::Some(v) => v,
                    Option::None => true,
                })
                &&& c.collection_depth == (match self.collection_depth {
                    Option::Some(v) => v,
                    Option::None => CollectionDepth::Deep,
                })
                &&& c.image_analysis_sensibility == (match self.image_analysis_sensibility {
                    Option::Some(v) => v,
                    Option::None => 75u8,
                })
                &&& c.volume_grouping_strategy == (match self.volume_grouping_strategy {
                    Option::Some(v) => v,
                    Option::None => VolumeGroupingStrategy::Manual,
                })
                &&& c.volume_separator@ == (match self.volume_separator {
                    Option::Some(s) => s@,
                    Option::None => " - "@,
                })
                &&& c.chapter_name_regex_str == self.chapter_name_regex_str
                &&& c.page_name_regex_str == self.page_name_regex_str
                &&& c.volume_sizes_override@ == (match self.volume_sizes_override {
                    Option::Some(v) => v@,
                    Option::None => Seq::<usize>::empty(),
                })
            }),
            r matches Err(e) ==> e is Regex || e is Other,
    {
        let compiled_chapter = match &self.chapter_name_regex_str {
            Some(s) => {
                match NamePattern::compile(s.as_str()) {
                    Ok(p) => Some(p),
                    Err(_) => {
                        let mut m = "Invalid chapter_name_regex: ".to_owned();
                        m.append(s.as_str());
                        return Err(Error::Regex(m));
                    },
                }
            },
            None => None,
        };
        let compiled_page = match &self.page_name_regex_str {
            Some(s) => {
                match NamePattern::compile(s.as_str()) {
                    Ok(p) => Some(p),
                    Err(_) => {
                        let mut m = "Invalid page_name_regex: ".to_owned();
                        m.append(s.as_str());
                        return Err(Error::Regex(m));
                    },
                }
            },
            None => None,
        };
        match self.image_analysis_sensibility {
            Some(v) if v > 100 => {
                return Err(Error::Other(
                    "Image analysis sensibility must be between 0 and 100.".to_owned(),
                ));
            },
            _ => {},
        }
        Ok(HozonConfig {
            metadata: match self.metadata {
                Some(m) => m,
                None => EbookMetadata::default_with_title("Untitled Conversion".to_owned()),
            },
            source_path: match self.source_path {
                Some(s) => s,
                None => String::new(),
            },
            target_path: match self.target_path {
                Some(s) => s,
                None => String::new(),
            },
            output_format: match self.output_format {
                Some(v) => v,
                None => FileFormat::Cbz,
            },
            reading_direction: match self.reading_direction {
                Some(v) => v,
                None => Direction::Ltr,
            },
            create_output_directory: match self.create_output_directory {
                Some(v) => v,
                None => true,
            },
            collection_depth: match self.collection_depth {
                Some(v) => v,
                None => CollectionDepth::Deep,
            },
            image_analysis_sensibility: match self.image_analysis_sensibility {
                Some(v) => v,
                None => 75,
            },
            volume_grouping_strategy: match self.volume_grouping_strategy {
                Some(v) => v,
                None => VolumeGroupingStrategy::Manual,
            },
            volume_separator: match self.volume_separator {
                Some(s) => s,
                None => " - ".to_owned(),
            },
            chapter_name_regex_str: self.chapter_name_regex_str,
            page_name_regex_str: self.page_name_regex_str,
            volume_sizes_override: match self.volume_sizes_override {
                Some(v) => v,
                None => Vec::new(),
            },
            compiled_chapter_name_regex: compiled_chapter,
            compiled_page_name_regex: compiled_page,
        })
    }
}

/// Copies a vector of sizes.
fn copy_counts(v: &Vec<usize>) -> (r: Vec<usize>)
    ensures
        r@ == v@,
{
    let mut out: Vec<usize> = Vec::new();
    let mut i: usize = 0;
    while i < v.len()
        invariant
            i <= v@.len(),
            out@ == v@.take(i as int),
        decreases v@.len() - i,
    {
        out.push(v[i]);
        i = i + 1;
        proof {
            assert(out@ =~= v@.take(i as int));
        }
    }
    proof {
        assert(v@.take(v@.len() as int) =~= v@);
    }
    out
}

} // verus!
