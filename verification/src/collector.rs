//! Collection and organization of page images.
//!
//! The collector filters raw directory listings into chapters and pages,
//! sorts them by the numeric keys in their names, and computes how chapters
//! split into volumes.  Reading directories is the surrounding program's
//! concern: it hands listings in as plain [`FsEntry`] values.

use vstd::prelude::*;

use crate::error::Error;
use crate::path_utils::spec_is_hidden;
use crate::path_utils::is_hidden_file;
use crate::pattern::{
    default_grouping_pattern, default_grouping_pattern_text, default_number_pattern,
    default_number_pattern_text, first_match, NamePattern,
};
use crate::sorting::{
    lemma_sum_push, pair_key_view, pairs_view, seq_usize_sum, sort_pairs, spec_sort_pairs, vc_lt,
    KeyOrder, KeyView, SortPairKey,
};
use crate::sortkey::{
    all_digits, check_all_digits, extract_number_from_filename_safe, opt_key_view,
    spec_extract_number, spec_lossy_name, spec_parse_capture, strip_leading_zeros,
    strip_leading_zeros_exec, strip_trailing_zeros, strip_trailing_zeros_exec, SortKey,
};
use crate::strutil::{char_range, find_char, index_of_char, str_chars};
use crate::types::{
    spec_is_supported_image, is_supported_image, AnalyzeFinding, AnalyzeReport, CollectedContent,
    CollectionDepth, FsEntry, VolumeGroupingStrategy,
};
use crate::path_utils::get_file_name_lossy;
use crate::path_utils::extension_text;

verus! {

/// Whether a listing entry survives the collection filter: hidden entries
/// never do; with `only_dirs` only directories stay, otherwise only
/// supported image files stay.
pub open spec fn keeps_entry(e: FsEntry, only_dirs: bool) -> bool {
    !spec_is_hidden(e.path@) && if only_dirs {
        e.is_dir
    } else {
        !e.is_dir && spec_is_supported_image(e.path@)
    }
}

/// The paths of the entries that survive the collection filter, in listing
/// order.
pub open spec fn spec_filter_listing(entries: Seq<FsEntry>, only_dirs: bool) -> Seq<String>
    decreases entries.len(),
{
    if entries.len() == 0 {
        Seq::empty()
    } else {
        let prev = spec_filter_listing(entries.drop_last(), only_dirs);
        if keeps_entry(entries.last(), only_dirs) {
            prev.push(entries.last().path)
        } else {
            prev
        }
    }
}

/// The paths of the non-hidden files of a listing, in listing order.
pub open spec fn spec_all_files(entries: Seq<FsEntry>) -> Seq<String>
    decreases entries.len(),
{
    if entries.len() == 0 {
        Seq::empty()
    } else {
        let prev = spec_all_files(entries.drop_last());
        if !spec_is_hidden(entries.last().path@) && !entries.last().is_dir {
            prev.push(entries.last().path)
        } else {
            prev
        }
    }
}

/// The sort key a path gets from a numeric pattern: the key of its file
/// name, as the primary key of a pair.
pub open spec fn path_number_key(p: Seq<char>, pattern: Seq<char>) -> (KeyView, KeyView) {
    (spec_extract_number(p, pattern), Option::None)
}

/// Paths sorted stably by the numeric keys in their file names.
pub open spec fn spec_sorted_paths(paths: Seq<String>, pattern: Seq<char>) -> Seq<String> {
    spec_sort_pairs(
        KeyOrder::Numeric,
        paths.map_values(|p: String| (path_number_key(p@, pattern), p)),
    ).map_values(|pr: ((KeyView, KeyView), String)| pr.1)
}

/// Sorts paths stably by the numeric keys in their file names.
fn sort_paths_by_number(paths: &Vec<String>, pattern: &NamePattern) -> (r: Vec<String>)
    ensures
        r@ == spec_sorted_paths(paths@, pattern.source()),
{
    let mut pairs: Vec<(SortPairKey, String)> = Vec::new();
    let mut i: usize = 0;
    while i < paths.len()
        invariant
            i <= paths@.len(),
            pairs@.len() == i,
            forall|j: int|
                0 <= j < i ==> (#[trigger] pairs@[j]).1 == paths@[j] && pair_key_view(
                    pairs@[j].0,
                ) == path_number_key(paths@[j]@, pattern.source()),
        decreases paths@.len() - i,
    {
        let p = paths[i].clone();
        let k = extract_number_from_filename_safe(p.as_str(), pattern);
        pairs.push(((k, None), p));
        i = i + 1;
    }
    proof {
        assert(pairs_view(pairs@) =~= paths@.map_values(
            |p: String| (path_number_key(p@, pattern.source()), p),
        ));
    }
    let sorted = sort_pairs(KeyOrder::Numeric, pairs);
    let ghost sorted_view = pairs_view(sorted@);
    let n = sorted.len();
    let mut sorted = sorted;
    let mut out: Vec<String> = Vec::new();
    let mut taken: usize = 0;
    proof {
        assert(sorted_view.len() == n);
        assert(pairs_view(sorted@) =~= sorted_view.skip(0));
    }
    while sorted.len() > 0
        invariant
            taken <= n,
            sorted_view.len() == n,
            pairs_view(sorted@) == sorted_view.skip(taken as int),
            out@.len() == taken,
            forall|j: int| 0 <= j < taken ==> #[trigger] out@[j] == sorted_view[j].1,
        decreases sorted@.len(),
    {
        let ghost before = sorted@;
        proof {
            assert(pairs_view(before).len() == before.len());
            assert(taken < n);
        }
        let x = sorted.remove(0);
        out.push(x.1);
        taken = taken + 1;
        proof {
            assert(pairs_view(before)[0] == (pair_key_view(x.0), x.1));
            assert(pairs_view(sorted@) =~= pairs_view(before).drop_first()) by {
                assert(sorted@ == before.remove(0));
                assert forall|j: int| 0 <= j < sorted@.len() implies pairs_view(sorted@)[j]
                    == pairs_view(before).drop_first()[j] by {
                    assert(sorted@[j] == before[j + 1]);
                }
            }
            assert(pairs_view(before).drop_first() =~= sorted_view.skip(taken as int));
            assert(x.1 == sorted_view[taken as int - 1].1);
        }
    }
    proof {
        assert(out@ =~= spec_sorted_paths(paths@, pattern.source()));
    }
    out
}

/// The gaps between successive volume-start indices, dropping zero-length
/// gaps.
pub open spec fn spec_gap_list(starts: Seq<usize>) -> Seq<usize>
    decreases starts.len(),
{
    if starts.len() <= 1 {
        Seq::empty()
    } else {
        let prev = spec_gap_list(starts.drop_last());
        let g = starts[starts.len() - 1] - starts[starts.len() - 2];
        if g > 0 {
            prev.push(g as usize)
        } else {
            prev
        }
    }
}

/// The chapter count of each volume, given sorted volume-start indices and
/// the chapter total: the gaps between starts, then what remains after the
/// last start; with no starts, one volume holds everything (none at all
/// when there are no chapters).
pub open spec fn spec_volume_sizes(starts: Seq<usize>, total: usize) -> Seq<usize> {
    if starts.len() == 0 {
        if total > 0 {
            seq![total]
        } else {
            Seq::empty()
        }
    } else {
        let gaps = spec_gap_list(starts);
        let last = starts[starts.len() - 1];
        if total > last {
            gaps.push((total - last) as usize)
        } else if gaps.len() == 0 && total > 0 {
            seq![total]
        } else {
            gaps
        }
    }
}

/// For strictly increasing starts, the gaps sum to the distance from the
/// first start to the last.
proof fn lemma_gap_list_sum(starts: Seq<usize>)
    requires
        starts.len() >= 1,
        forall|i: int, j: int|
            0 <= i < j < starts.len() ==> #[trigger] starts[i] < #[trigger] starts[j],
    ensures
        seq_usize_sum(spec_gap_list(starts)) == starts[starts.len() - 1] - starts[0],
    decreases starts.len(),
{
    if starts.len() > 1 {
        let prev = starts.drop_last();
        lemma_gap_list_sum(prev);
        assert(starts[starts.len() - 2] < starts[starts.len() - 1]);
        lemma_sum_push(
            spec_gap_list(prev),
            (starts[starts.len() - 1] - starts[starts.len() - 2]) as usize,
        );
    }
}

/// The law behind partitioning: for strictly increasing start indices that
/// begin at 0 and stay below the chapter total, the volume sizes sum to
/// exactly the chapter total.
pub proof fn lemma_volume_sizes_sum(starts: Seq<usize>, total: usize)
    requires
        forall|i: int, j: int|
            0 <= i < j < starts.len() ==> #[trigger] starts[i] < #[trigger] starts[j],
        forall|i: int| 0 <= i < starts.len() ==> #[trigger] starts[i] < total,
        starts.len() > 0 ==> starts[0] == 0,
    ensures
        seq_usize_sum(spec_volume_sizes(starts, total)) == total,
{
    if starts.len() == 0 {
        if total > 0 {
            let s = seq![total];
            assert(s.drop_first() =~= Seq::<usize>::empty());
            assert(seq_usize_sum(Seq::<usize>::empty()) == 0);
            assert(s[0] == total);
            assert(seq_usize_sum(s) == total);
        }
    } else {
        lemma_gap_list_sum(starts);
        let last = starts[starts.len() - 1];
        assert(last < total);
        lemma_sum_push(spec_gap_list(starts), (total - last) as usize);
        assert(seq_usize_sum(spec_volume_sizes(starts, total)) == seq_usize_sum(
            spec_gap_list(starts),
        ) + (total - last));
    }
}

/// The volume key that name grouping reads from a matched name: the decimal
/// before the first dash of the match, `None` when that is no plain
/// decimal.
pub open spec fn spec_vc_volume(m: Seq<char>) -> Option<(Seq<char>, Seq<char>)> {
    spec_parse_capture(m.take(index_of_char(m, '-')))
}

/// The chapter key that name grouping reads from a matched name: between
/// the first and second dash, an integer before the first dot — required to
/// be a nonzero-leading decimal on its own — optionally extended by the
/// fraction digits between the first and second dot.
pub open spec fn spec_vc_chapter(m: Seq<char>) -> Option<(Seq<char>, Seq<char>)> {
    let d1 = index_of_char(m, '-');
    if d1 >= m.len() {
        Option::None
    } else {
        let rest = m.subrange(d1 + 1, m.len() as int);
        let chap_raw = rest.take(index_of_char(rest, '-'));
        spec_chapter_key(chap_raw)
    }
}

/// How a chapter token parses: its integer digits before the first dot must
/// make a nonzero canonical number on their own; fraction digits, when a
/// dot follows, must be nonempty digits.
pub open spec fn spec_chapter_key(chap_raw: Seq<char>) -> Option<(Seq<char>, Seq<char>)> {
    let d = index_of_char(chap_raw, '.');
    let ip = chap_raw.take(d);
    if !(all_digits(ip) && strip_leading_zeros(ip).len() > 0) {
        Option::None
    } else if d < chap_raw.len() {
        let rest = chap_raw.subrange(d + 1, chap_raw.len() as int);
        let fp = rest.take(index_of_char(rest, '.'));
        if fp.len() > 0 && all_digits(fp) {
            Option::Some((strip_leading_zeros(ip), strip_trailing_zeros(fp)))
        } else {
            Option::None
        }
    } else {
        Option::Some((strip_leading_zeros(ip), Seq::empty()))
    }
}

/// The sort key pair a path gets from the volume-chapter comparator: the
/// first match of the default grouping pattern in its file name, split into
/// a volume key and a chapter key; no match means no keys.
pub open spec fn spec_vc_key(path: Seq<char>) -> ((KeyView, KeyView)) {
    match first_match(default_grouping_pattern_text(), spec_lossy_name(path)) {
        Option::Some(m) => (spec_vc_volume(m), spec_vc_chapter(m)),
        Option::None => (Option::None, Option::None),
    }
}

/// Parses a chapter token, as `spec_chapter_key` says.
fn chapter_key_exec(chap_raw: &Vec<char>) -> (r: Option<SortKey>)
    ensures
        opt_key_view(r) == spec_chapter_key(chap_raw@),
{
    let d = find_char(chap_raw, '.');
    let ip = char_range(chap_raw, 0, d);
    proof {
        assert(ip@ =~= chap_raw@.take(d as int));
    }
    let int_digits = strip_leading_zeros_exec(&ip);
    if !(check_all_digits(&ip) && int_digits.len() > 0) {
        None
    } else if d < chap_raw.len() {
        let rest = char_range(chap_raw, d + 1, chap_raw.len());
        let d2 = find_char(&rest, '.');
        let fp = char_range(&rest, 0, d2);
        proof {
            assert(fp@ =~= rest@.take(d2 as int));
        }
        if fp.len() > 0 && check_all_digits(&fp) {
            let frac_digits = strip_trailing_zeros_exec(&fp);
            Some(SortKey { int_digits, frac_digits })
        } else {
            None
        }
    } else {
        Some(SortKey { int_digits, frac_digits: Vec::new() })
    }
}

/// Reads the volume and chapter keys from a matched name.
fn vc_keys_of_match(m: &Vec<char>) -> (r: (Option<SortKey>, Option<SortKey>))
    ensures
        opt_key_view(r.0) == spec_vc_volume(m@),
        opt_key_view(r.1) == spec_vc_chapter(m@),
{
    let d1 = find_char(m, '-');
    let vol_raw = char_range(m, 0, d1);
    proof {
        assert(vol_raw@ =~= m@.take(d1 as int));
    }
    let vol = crate::sortkey::parse_capture(&vol_raw);
    let chap = if d1 < m.len() {
        let rest = char_range(m, d1 + 1, m.len());
        let d2 = find_char(&rest, '-');
        let chap_raw = char_range(&rest, 0, d2);
        proof {
            assert(chap_raw@ =~= rest@.take(d2 as int));
        }
        chapter_key_exec(&chap_raw)
    } else {
        None
    };
    (vol, chap)
}

/// The extension text of a path, empty where it has none.
pub open spec fn spec_extension_text(p: Seq<char>) -> Seq<char> {
    match crate::path_utils::spec_extension(p) {
        Option::Some(e) => e,
        Option::None => Seq::empty(),
    }
}

/// The paths, in order, of a file list's entries that are no supported
/// image.
pub open spec fn spec_offending_paths(files: Seq<String>) -> Seq<Seq<char>>
    decreases files.len(),
{
    if files.len() == 0 {
        Seq::empty()
    } else {
        let prev = spec_offending_paths(files.drop_last());
        if !spec_is_supported_image(files.last()@) {
            prev.push(files.last()@)
        } else {
            prev
        }
    }
}

/// The offending paths of every listing's non-hidden files, in listing
/// order.
pub open spec fn spec_offending_all(listings: Seq<Vec<FsEntry>>) -> Seq<Seq<char>>
    decreases listings.len(),
{
    if listings.len() == 0 {
        Seq::empty()
    } else {
        spec_offending_all(listings.drop_last()) + spec_offending_paths(
            spec_all_files(listings.last()@),
        )
    }
}

/// How far chapter `k`'s scaled page count lies from the scaled mean:
/// the absolute difference between `count * chapters` and the page total.
pub open spec fn spec_count_dev(pages: Seq<Vec<String>>, k: int) -> int {
    let n = pages.len() as int;
    let s = crate::hozon::spec_page_total(pages);
    let c = pages[k]@.len() as int;
    if c * n >= s {
        c * n - s
    } else {
        s - c * n
    }
}

/// Whether chapter `k`'s page count deviates from the mean by more than
/// the larger of 30 percent of the mean and one page — scaled to exact
/// integers: ten times the deviation against the larger of three times the
/// page total and ten times the chapter count.
pub open spec fn spec_page_count_outlier(pages: Seq<Vec<String>>, k: int) -> bool {
    let n = pages.len() as int;
    let s = crate::hozon::spec_page_total(pages);
    10 * spec_count_dev(pages, k) > (if 3 * s > 10 * n {
        3 * s
    } else {
        10 * n
    })
}

/// Whether a finding flags chapter `path` with an inconsistent page count
/// of `found`.
pub open spec fn flags_page_count(f: AnalyzeFinding, path: String, found: int) -> bool {
    f matches AnalyzeFinding::InconsistentPageCount(p, _, c) && p == path && c == found
}

/// Whether a listing entry counts toward the size average: a non-hidden
/// supported image file whose size is known.
pub open spec fn counts_for_size(e: FsEntry) -> bool {
    keeps_entry(e, false) && e.size_known
}

/// The entries of one listing that count toward the size average, in
/// order.
pub open spec fn spec_counted_of(listing: Seq<FsEntry>) -> Seq<FsEntry>
    decreases listing.len(),
{
    if listing.len() == 0 {
        Seq::empty()
    } else {
        let prev = spec_counted_of(listing.drop_last());
        if counts_for_size(listing.last()) {
            prev.push(listing.last())
        } else {
            prev
        }
    }
}

/// The counted entries of every listing, in listing order.
pub open spec fn spec_counted_all(listings: Seq<Vec<FsEntry>>) -> Seq<FsEntry>
    decreases listings.len(),
{
    if listings.len() == 0 {
        Seq::empty()
    } else {
        spec_counted_all(listings.drop_last()) + spec_counted_of(listings.last()@)
    }
}

/// The byte total of a run of counted entries.
pub open spec fn spec_counted_sum(entries: Seq<FsEntry>) -> int
    decreases entries.len(),
{
    if entries.len() == 0 {
        0
    } else {
        spec_counted_sum(entries.drop_last()) + entries.last().size
    }
}

/// A run of counted entries never weighs less than nothing.
proof fn lemma_counted_sum_nonneg(entries: Seq<FsEntry>)
    ensures
        spec_counted_sum(entries) >= 0,
    decreases entries.len(),
{
    if entries.len() > 0 {
        lemma_counted_sum_nonneg(entries.drop_last());
    }
}

/// A prefix of the counted entries weighs no more than all of them.
proof fn lemma_counted_sum_prefix(entries: Seq<FsEntry>, k: int)
    requires
        0 <= k <= entries.len(),
    ensures
        spec_counted_sum(entries.take(k)) <= spec_counted_sum(entries),
    decreases entries.len() - k,
{
    if k == entries.len() {
        assert(entries.take(k) =~= entries);
    } else {
        assert(entries.take(k + 1).drop_last() =~= entries.take(k));
        assert(entries.take(k + 1).last() == entries[k]);
        lemma_counted_sum_prefix(entries, k + 1);
    }
}

/// Whether counted entry `k` is of unusual size, against the average in
/// KiB over all counted entries: larger than three times the average —
/// where that product fits the machine's widest integer — or, with the
/// average above 10 KiB, smaller than a third of it.
pub open spec fn spec_size_outlier(entries: Seq<FsEntry>, k: int) -> bool {
    let avg_kb = (spec_counted_sum(entries) / entries.len() as int) / 1024;
    let skb = (entries[k].size as int) / 1024;
    (skb > 3 * avg_kb && 3 * avg_kb <= u128::MAX) || (avg_kb > 10 && skb < avg_kb / 3)
}

/// Whether a finding flags `path` as a file of unusual size.
pub open spec fn flags_unusual_size(f: AnalyzeFinding, path: String) -> bool {
    f matches AnalyzeFinding::UnusualFileSize(p, _, _) && p == path
}

/// Whether a finding is the positive consistent-naming observation.
pub open spec fn flags_consistent_naming(f: AnalyzeFinding) -> bool {
    f matches AnalyzeFinding::Positive(m) && m@ == "Consistent volume-chapter naming found"@
}

/// Whether a finding flags `path` as a file the image filter ignored.
pub open spec fn flags_unsupported(f: AnalyzeFinding, path: String) -> bool {
    f matches AnalyzeFinding::UnsupportedImageFormat(p, _) && p == path
}

/// Whether a finding flags a denied read of `path`.
pub open spec fn flags_permission_denied(f: AnalyzeFinding, path: String) -> bool {
    f matches AnalyzeFinding::PermissionDenied(p) && p == path
}

/// Whether a finding flags refused characters in `path`.
pub open spec fn flags_special_characters(f: AnalyzeFinding, path: String) -> bool {
    f matches AnalyzeFinding::SpecialCharactersInPath(p) && p == path
}

/// Every non-hidden file of a listing appears among its collected files.
proof fn lemma_all_files_membership(entries: Seq<FsEntry>, e: int)
    requires
        0 <= e < entries.len(),
        !spec_is_hidden(entries[e].path@),
        !entries[e].is_dir,
    ensures
        exists|j: int|
            0 <= j < spec_all_files(entries).len() && #[trigger] spec_all_files(entries)[j]
                == entries[e].path,
    decreases entries.len(),
{
    if e == entries.len() - 1 {
        let r = spec_all_files(entries);
        assert(entries.last() == entries[e]);
        assert(r[r.len() - 1] == entries[e].path);
    } else {
        let prev = entries.drop_last();
        assert(prev[e] == entries[e]);
        lemma_all_files_membership(prev, e);
        let j = choose|j: int|
            0 <= j < spec_all_files(prev).len() && #[trigger] spec_all_files(prev)[j]
                == prev[e].path;
        assert(spec_all_files(entries)[j] == entries[e].path);
    }
}

/// Appends every finding of `src` to `dst`, in order.
fn append_findings(dst: &mut Vec<AnalyzeFinding>, src: Vec<AnalyzeFinding>)
    ensures
        final(dst)@ == old(dst)@ + src@,
{
    let ghost src_view = src@;
    let total = src.len();
    let mut rest = src;
    let mut taken: usize = 0;
    proof {
        assert(dst@ =~= old(dst)@ + src_view.take(0));
        assert(rest@ =~= src_view.skip(0));
    }
    while rest.len() > 0
        invariant
            taken <= total,
            src_view.len() == total,
            rest@ == src_view.skip(taken as int),
            dst@ == old(dst)@ + src_view.take(taken as int),
        decreases rest@.len(),
    {
        let x = rest.remove(0);
        proof {
            assert(src_view.skip(taken as int).remove(0) =~= src_view.skip(taken as int + 1));
            assert(x == src_view[taken as int]);
        }
        dst.push(x);
        taken = taken + 1;
        proof {
            assert(dst@ =~= old(dst)@ + src_view.take(taken as int));
        }
    }
    proof {
        assert(src_view.take(src_view.len() as int) =~= src_view);
    }
}

/// Manages collection and organization of image files from directory
/// listings.  It owns the compiled default patterns — nothing in the library
/// is a lazily-initialized global — next to the caller's optional custom
/// patterns.
pub struct Collector {
    base_directory: String,
    collection_depth: CollectionDepth,
    chapter_name_pattern: Option<NamePattern>,
    page_name_pattern: Option<NamePattern>,
    image_analysis_sensibility: u8,
    number_pattern: NamePattern,
    grouping_pattern: NamePattern,
}

impl Collector {
    /// The compiled default patterns carry exactly the default pattern
    /// texts.
    #[verifier::type_invariant]
    spec fn patterns_wf(&self) -> bool {
        self.number_pattern.source() == default_number_pattern_text()
            && self.grouping_pattern.source() == default_grouping_pattern_text()
    }

    /// The configured base directory.
    pub closed spec fn spec_base(&self) -> Seq<char> {
        self.base_directory@
    }

    /// The configured collection depth.
    pub closed spec fn spec_depth(&self) -> CollectionDepth {
        self.collection_depth
    }

    /// The source text of the custom chapter-name pattern, if one is set.
    pub closed spec fn spec_chapter_pattern(&self) -> Option<Seq<char>> {
        match self.chapter_name_pattern {
            Option::Some(p) => Option::Some(p.source()),
            Option::None => Option::None,
        }
    }

    /// The source text of the custom page-name pattern, if one is set.
    pub closed spec fn spec_page_pattern(&self) -> Option<Seq<char>> {
        match self.page_name_pattern {
            Option::Some(p) => Option::Some(p.source()),
            Option::None => Option::None,
        }
    }

    /// The configured grayscale sensitivity, in percent.
    pub closed spec fn spec_sensibility(&self) -> u8 {
        self.image_analysis_sensibility
    }

    /// The pattern text `regex_parser` uses: the custom chapter or page
    /// pattern where one is set, else the default numeric pattern.
    pub open spec fn spec_active_pattern(&self, for_chapter_name: bool) -> Seq<char> {
        if for_chapter_name {
            match self.spec_chapter_pattern() {
                Option::Some(p) => p,
                Option::None => default_number_pattern_text(),
            }
        } else {
            match self.spec_page_pattern() {
                Option::Some(p) => p,
                Option::None => default_number_pattern_text(),
            }
        }
    }

    /// Creates a new collector for the given directory and settings.  A
    /// sensitivity above 100 percent is clamped to 100.
    pub fn new(
        base_directory: &str,
        collection_depth: CollectionDepth,
        chapter_name_pattern: Option<&NamePattern>,
        page_name_pattern: Option<&NamePattern>,
        image_analysis_sensibility: u8,
    ) -> (r: Collector)
        ensures
            r.spec_base() == base_directory@,
            r.spec_depth() == collection_depth,
            r.spec_chapter_pattern() == match chapter_name_pattern {
                Option::Some(p) => Option::Some(p.source()),
                Option::None => Option::None::<Seq<char>>,
            },
            r.spec_page_pattern() == match page_name_pattern {
                Option::Some(p) => Option::Some(p.source()),
                Option::None => Option::None::<Seq<char>>,
            },
            r.spec_sensibility() == if image_analysis_sensibility > 100 {
                100u8
            } else {
                image_analysis_sensibility
            },
    {
        let chapter = match chapter_name_pattern {
            Some(p) => Some(p.duplicate()),
            None => None,
        };
        let page = match page_name_pattern {
            Some(p) => Some(p.duplicate()),
            None => None,
        };
        let sens = if image_analysis_sensibility > 100 {
            100
        } else {
            image_analysis_sensibility
        };
        Collector {
            base_directory: base_directory.to_owned(),
            collection_depth,
            chapter_name_pattern: chapter,
            page_name_pattern: page,
            image_analysis_sensibility: sens,
            number_pattern: default_number_pattern(),
            grouping_pattern: default_grouping_pattern(),
        }
    }

    /// Filters one directory listing: hidden entries are skipped; with
    /// `only_dirs` only directories are kept, otherwise only supported
    /// image files are kept.
    pub fn collect_parallel(entries: &Vec<FsEntry>, only_dirs: bool) -> (r: Vec<String>)
        ensures
            r@ == spec_filter_listing(entries@, only_dirs),
    {
        let mut out: Vec<String> = Vec::new();
        let mut i: usize = 0;
        proof {
            assert(entries@.take(0) =~= Seq::<FsEntry>::empty());
        }
        while i < entries.len()
            invariant
                i <= entries@.len(),
                out@ == spec_filter_listing(entries@.take(i as int), only_dirs),
            decreases entries@.len() - i,
        {
            let e = &entries[i];
            let keep = if is_hidden_file(e.path.as_str()) {
                false
            } else if only_dirs {
                e.is_dir
            } else {
                !e.is_dir && is_supported_image(e.path.as_str())
            };
            if keep {
                out.push(e.path.clone());
            }
            i = i + 1;
            proof {
                assert(entries@.take(i as int).drop_last() =~= entries@.take(i as int - 1));
                assert(entries@.take(i as int).last() == entries@[i as int - 1]);
            }
        }
        proof {
            assert(entries@.take(entries@.len() as int) =~= entries@);
        }
        out
    }

    /// Lists every non-hidden file of a listing, with no image filter; the
    /// analysis pass uses this to find what the image filter excluded.
    pub fn collect_all_files(entries: &Vec<FsEntry>) -> (r: Vec<String>)
        ensures
            r@ == spec_all_files(entries@),
    {
        let mut out: Vec<String> = Vec::new();
        let mut i: usize = 0;
        proof {
            assert(entries@.take(0) =~= Seq::<FsEntry>::empty());
        }
        while i < entries.len()
            invariant
                i <= entries@.len(),
                out@ == spec_all_files(entries@.take(i as int)),
            decreases entries@.len() - i,
        {
            let e = &entries[i];
            if !is_hidden_file(e.path.as_str()) && !e.is_dir {
                out.push(e.path.clone());
            }
            i = i + 1;
            proof {
                assert(entries@.take(i as int).drop_last() =~= entries@.take(i as int - 1));
                assert(entries@.take(i as int).last() == entries@[i as int - 1]);
            }
        }
        proof {
            assert(entries@.take(entries@.len() as int) =~= entries@);
        }
        out
    }

    /// Collects chapter directories.  In shallow mode the base directory
    /// itself is the single chapter; in deep mode the subdirectories of the
    /// given base listing become chapters, sorted by the numbers in their
    /// names.
    pub fn collect_chapters(&self, base_entries: &Vec<FsEntry>) -> (r: Vec<String>)
        ensures
            self.spec_depth() == CollectionDepth::Shallow ==> r@.len() == 1 && r@[0]@
                == self.spec_base(),
            self.spec_depth() == CollectionDepth::Deep ==> r@ == spec_sorted_paths(
                spec_filter_listing(base_entries@, true),
                default_number_pattern_text(),
            ),
    {
        proof {
            use_type_invariant(self);
        }
        match self.collection_depth {
            CollectionDepth::Shallow => {
                let mut out: Vec<String> = Vec::new();
                out.push(self.base_directory.clone());
                out
            },
            CollectionDepth::Deep => {
                let dirs = Self::collect_parallel(base_entries, true);
                sort_paths_by_number(&dirs, &self.number_pattern)
            },
        }
    }

    /// Collects the pages of each chapter: the supported image files of
    /// each chapter's listing, sorted by the numbers in their names.  The
    /// result keeps the chapters' order: entry `i` comes from listing `i`.
    pub fn collect_pages(&self, chapter_listings: &Vec<Vec<FsEntry>>) -> (r: Vec<Vec<String>>)
        ensures
            r@.len() == chapter_listings@.len(),
            forall|i: int|
                0 <= i < r@.len() ==> (#[trigger] r@[i])@ == spec_sorted_paths(
                    spec_filter_listing(chapter_listings@[i]@, false),
                    default_number_pattern_text(),
                ),
    {
        proof {
            use_type_invariant(self);
        }
        let mut out: Vec<Vec<String>> = Vec::new();
        let mut i: usize = 0;
        while i < chapter_listings.len()
            invariant
                i <= chapter_listings@.len(),
                out@.len() == i,
                self.patterns_wf(),
                forall|j: int|
                    0 <= j < i ==> (#[trigger] out@[j])@ == spec_sorted_paths(
                        spec_filter_listing(chapter_listings@[j]@, false),
                        default_number_pattern_text(),
                    ),
            decreases chapter_listings@.len() - i,
        {
            let pages = Self::collect_parallel(&chapter_listings[i], false);
            let sorted = sort_paths_by_number(&pages, &self.number_pattern);
            out.push(sorted);
            i = i + 1;
        }
        out
    }

    /// Filters paths by a caller-supplied test, returning the paths that
    /// fail it.
    ///
    /// Every returned path is one of the given paths, and one on which the
    /// test returned `false`; paths passing the test are dropped.  What the
    /// test returns on which path is the caller's own contract, carried
    /// here through `call_ensures`.
    pub fn check_path<F: Fn(&String) -> bool>(paths: &Vec<String>, test_case: &F) -> (r: Result<
        Vec<String>,
        Error,
    >)
        requires
            forall|i: int| 0 <= i < paths@.len() ==> call_requires(*test_case, (&paths@[i],)),
        ensures
            r is Ok,
            (r->Ok_0)@.len() <= paths@.len(),
            forall|k: int|
                0 <= k < (r->Ok_0)@.len() ==> paths@.contains(#[trigger] (r->Ok_0)@[k]),
            forall|k: int|
                0 <= k < (r->Ok_0)@.len() ==> call_ensures(
                    *test_case,
                    (&(#[trigger] (r->Ok_0)@[k]),),
                    false,
                ),
    {
        let mut invalid: Vec<String> = Vec::new();
        let mut i: usize = 0;
        while i < paths.len()
            invariant
                i <= paths@.len(),
                invalid@.len() <= i,
                forall|ii: int| 0 <= ii < paths@.len() ==> call_requires(*test_case, (&paths@[ii],)),
                forall|k: int|
                    0 <= k < invalid@.len() ==> paths@.contains(#[trigger] invalid@[k]),
                forall|k: int|
                    0 <= k < invalid@.len() ==> call_ensures(
                        *test_case,
                        (&(#[trigger] invalid@[k]),),
                        false,
                    ),
            decreases paths@.len() - i,
        {
            let passes = test_case(&paths[i]);
            if !passes {
                invalid.push(paths[i].clone());
                proof {
                    assert(invalid@[invalid@.len() - 1] == paths@[i as int]);
                    assert(paths@.contains(paths@[i as int]));
                    assert(call_ensures(*test_case, (&paths@[i as int],), false));
                }
            }
            i = i + 1;
        }
        Ok(invalid)
    }

    /// Extracts a numeric key from a path with the active pattern: the
    /// custom chapter or page pattern where one is configured, else the
    /// default numeric pattern.
    pub fn regex_parser(&self, s: &str, for_chapter_name: bool) -> (r: Option<SortKey>)
        ensures
            opt_key_view(r) == spec_extract_number(s@, self.spec_active_pattern(for_chapter_name)),
    {
        proof {
            use_type_invariant(self);
        }
        let active: &NamePattern = if for_chapter_name {
            match &self.chapter_name_pattern {
                Some(p) => p,
                None => &self.number_pattern,
            }
        } else {
            match &self.page_name_pattern {
                Some(p) => p,
                None => &self.number_pattern,
            }
        };
        extract_number_from_filename_safe(s, active)
    }

    /// Compares two paths by the numeric keys of their file names under the
    /// default numeric pattern.
    pub fn sort_name_by_number_default(&self, a: &str, b: &str) -> (r: core::cmp::Ordering)
        ensures
            (r == core::cmp::Ordering::Less) == crate::sortkey::opt_key_lt(
                spec_extract_number(a@, default_number_pattern_text()),
                spec_extract_number(b@, default_number_pattern_text()),
            ),
            (r == core::cmp::Ordering::Greater) == crate::sortkey::opt_key_lt(
                spec_extract_number(b@, default_number_pattern_text()),
                spec_extract_number(a@, default_number_pattern_text()),
            ),
            (r == core::cmp::Ordering::Equal) == (spec_extract_number(
                a@,
                default_number_pattern_text(),
            ) == spec_extract_number(b@, default_number_pattern_text())),
    {
        proof {
            use_type_invariant(self);
        }
        crate::sortkey::compare_paths_by_number_safe(a, b, &self.number_pattern)
    }

    /// Whether a chapter path's name carries a volume-chapter token.
    pub open spec fn spec_name_matches(path: Seq<char>) -> bool {
        match crate::path_utils::spec_file_name(path) {
            Option::Some(name) => first_match(default_grouping_pattern_text(), name) is Some,
            Option::None => false,
        }
    }

    /// Whether any collected chapter carries a volume-chapter name.
    pub open spec fn spec_has_name_pattern(chapter_paths: Seq<Seq<char>>) -> bool {
        exists|i: int| 0 <= i < chapter_paths.len() && Self::spec_name_matches(
            #[trigger] chapter_paths[i],
        )
    }

    /// The chapter paths that `collect_chapters` yields from a base
    /// listing, as text.
    pub open spec fn spec_collected_chapter_paths(&self, base_entries: Seq<FsEntry>) -> Seq<
        Seq<char>,
    > {
        if self.spec_depth() == CollectionDepth::Shallow {
            seq![self.spec_base()]
        } else {
            spec_sorted_paths(
                spec_filter_listing(base_entries, true),
                default_number_pattern_text(),
            ).map_values(|s: String| s@)
        }
    }

    /// Whether one chapter path carries a volume-chapter name.
    fn chapter_name_matches(&self, path: &str) -> (r: bool)
        ensures
            r == Self::spec_name_matches(path@),
    {
        proof {
            use_type_invariant(self);
        }
        match crate::path_utils::get_file_name_safe(path) {
            Ok(name) => self.grouping_pattern.matches(name.as_str()),
            Err(_) => false,
        }
    }

    /// Accumulates the page-count consistency findings: a chapter is
    /// flagged, in exact integer arithmetic, when its count deviates from
    /// the average by more than the larger of 30 percent of the average and
    /// one page.  Every such chapter yields a finding, as long as the
    /// scaled deviation and threshold fit the machine's widest integers.
    fn count_findings(chapters: &Vec<String>, pages: &Vec<Vec<String>>) -> (r: Vec<
        AnalyzeFinding,
    >)
        ensures
            forall|k: int|
                0 <= k < pages@.len() && pages@.len() > 1 && k < chapters@.len()
                    && spec_page_count_outlier(pages@, k) && 10 * spec_count_dev(pages@, k)
                    <= u128::MAX && 3 * crate::hozon::spec_page_total(pages@) <= u128::MAX
                    ==> exists|idx: int|
                    0 <= idx < r@.len() && flags_page_count(
                        #[trigger] r@[idx],
                        chapters@[k],
                        pages@[k]@.len() as int,
                    ),
    {
        let mut out: Vec<AnalyzeFinding> = Vec::new();
        if pages.len() > 1 {
            let n: u64 = pages.len() as u64;
            let mut sum: u128 = 0;
            let mut k: usize = 0;
            proof {
                assert(sum == crate::hozon::spec_page_total(pages@.take(0)));
            }
            while k < pages.len()
                invariant
                    k <= pages@.len(),
                    sum <= (k as u128) * 0xFFFF_FFFF_FFFF_FFFFu128,
                    sum == crate::hozon::spec_page_total(pages@.take(k as int)),
                decreases pages@.len() - k,
            {
                let c: usize = pages[k].len();
                proof {
                    assert(sum + c <= (k as u128 + 1) * 0xFFFF_FFFF_FFFF_FFFFu128)
                        by (nonlinear_arith)
                        requires
                            sum <= (k as u128) * 0xFFFF_FFFF_FFFF_FFFFu128,
                            c <= 0xFFFF_FFFF_FFFF_FFFFu128,
                    ;
                    assert((k as u128 + 1) * 0xFFFF_FFFF_FFFF_FFFFu128 <= u128::MAX)
                        by (nonlinear_arith)
                        requires
                            k as u128 + 1 <= 0xFFFF_FFFF_FFFF_FFFFu128,
                    ;
                    assert(pages@.take(k as int + 1).drop_last() =~= pages@.take(k as int));
                    assert(pages@.take(k as int + 1).last() == pages@[k as int]);
                }
                sum = sum + (c as u128);
                k = k + 1;
            }
            proof {
                assert(pages@.take(pages@.len() as int) =~= pages@);
            }
            let mut k: usize = 0;
            while k < pages.len()
                invariant
                    k <= pages@.len(),
                    n >= 2,
                    n as int == pages@.len(),
                    sum == crate::hozon::spec_page_total(pages@),
                    forall|k2: int|
                        0 <= k2 < k && pages@.len() > 1 && k2 < chapters@.len()
                            && spec_page_count_outlier(pages@, k2) && 10 * spec_count_dev(
                            pages@,
                            k2,
                        ) <= u128::MAX && 3 * crate::hozon::spec_page_total(pages@) <= u128::MAX
                            ==> exists|idx: int|
                            0 <= idx < out@.len() && flags_page_count(
                                #[trigger] out@[idx],
                                chapters@[k2],
                                pages@[k2]@.len() as int,
                            ),
                decreases pages@.len() - k,
            {
                let ghost out_before = out@;
                let c: u128 = pages[k].len() as u128;
                proof {
                    assert(c * (n as u128) <= u128::MAX) by (nonlinear_arith)
                        requires
                            c <= 0xFFFF_FFFF_FFFF_FFFFu128,
                            n <= 0xFFFF_FFFF_FFFF_FFFFu64,
                    ;
                    assert((n as u128) * 10 <= u128::MAX) by (nonlinear_arith)
                        requires
                            n <= 0xFFFF_FFFF_FFFF_FFFFu64,
                    ;
                }
                let deviation_scaled = match c.checked_mul(n as u128) {
                    Some(cn) => {
                        let diff = if cn >= sum {
                            cn - sum
                        } else {
                            sum - cn
                        };
                        proof {
                            assert(diff == spec_count_dev(pages@, k as int));
                        }
                        diff.checked_mul(10)
                    },
                    None => None,
                };
                let threshold_a = sum.checked_mul(3);
                let threshold_b = (n as u128).checked_mul(10);
                match (deviation_scaled, threshold_a, threshold_b) {
                    (Some(dev), Some(ta), Some(tb)) => {
                        let threshold = if ta > tb {
                            ta
                        } else {
                            tb
                        };
                        if dev > threshold && k < chapters.len() {
                            let expected: usize = match sum.checked_mul(2) {
                                Some(s2) => match s2.checked_add(n as u128) {
                                    Some(t) => (t / (2 * (n as u128))) as usize,
                                    None => 0,
                                },
                                None => 0,
                            };
                            out.push(
                                AnalyzeFinding::InconsistentPageCount(
                                    chapters[k].clone(),
                                    expected,
                                    pages[k].len(),
                                ),
                            );
                            proof {
                                assert(flags_page_count(
                                    out@[out@.len() - 1],
                                    chapters@[k as int],
                                    pages@[k as int]@.len() as int,
                                ));
                            }
                        }
                    },
                    _ => {},
                }
                k = k + 1;
                proof {
                    assert forall|k2: int|
                        0 <= k2 < k && pages@.len() > 1 && k2 < chapters@.len()
                            && spec_page_count_outlier(pages@, k2) && 10 * spec_count_dev(
                            pages@,
                            k2,
                        ) <= u128::MAX && 3 * crate::hozon::spec_page_total(pages@) <= u128::MAX
                            implies exists|idx: int|
                        0 <= idx < out@.len() && flags_page_count(
                            #[trigger] out@[idx],
                            chapters@[k2],
                            pages@[k2]@.len() as int,
                        ) by {
                        if k2 < k - 1 {
                            let i0 = choose|i0: int|
                                0 <= i0 < out_before.len() && flags_page_count(
                                    #[trigger] out_before[i0],
                                    chapters@[k2],
                                    pages@[k2]@.len() as int,
                                );
                            assert(out@[i0] == out_before[i0]);
                        } else {
                            assert(flags_page_count(
                                out@[out@.len() - 1],
                                chapters@[k2],
                                pages@[k2]@.len() as int,
                            ));
                        }
                    }
                }
            }
        }
        out
    }


    /// Collects the entries that count toward the size average, across all
    /// listings, in order.
    fn collect_counted(chapter_listings: &Vec<Vec<FsEntry>>) -> (r: Vec<FsEntry>)
        ensures
            r@ == spec_counted_all(chapter_listings@),
    {
        let mut out: Vec<FsEntry> = Vec::new();
        let mut i: usize = 0;
        proof {
            assert(out@ =~= spec_counted_all(chapter_listings@.take(0)));
        }
        while i < chapter_listings.len()
            invariant
                i <= chapter_listings@.len(),
                out@ == spec_counted_all(chapter_listings@.take(i as int)),
            decreases chapter_listings@.len() - i,
        {
            let listing = &chapter_listings[i];
            let mut e: usize = 0;
            let ghost done = out@;
            while e < listing.len()
                invariant
                    e <= listing@.len(),
                    i < chapter_listings@.len(),
                    listing == chapter_listings@[i as int],
                    out@ == done + spec_counted_of(listing@.take(e as int)),
                decreases listing@.len() - e,
            {
                let entry = &listing[e];
                if !is_hidden_file(entry.path.as_str()) && !entry.is_dir && is_supported_image(
                    entry.path.as_str(),
                ) && entry.size_known {
                    let copy = FsEntry {
                        path: entry.path.clone(),
                        is_dir: entry.is_dir,
                        size: entry.size,
                        size_known: entry.size_known,
                        permission_denied: entry.permission_denied,
                    };
                    proof {
                        assert(copy == listing@[e as int]);
                    }
                    out.push(copy);
                }
                e = e + 1;
                proof {
                    assert(listing@.take(e as int).drop_last() =~= listing@.take(e as int - 1));
                    assert(listing@.take(e as int).last() == listing@[e as int - 1]);
                    assert(out@ =~= done + spec_counted_of(listing@.take(e as int)));
                }
            }
            i = i + 1;
            proof {
                assert(listing@.take(listing@.len() as int) =~= listing@);
                assert(chapter_listings@.take(i as int).drop_last() =~= chapter_listings@.take(
                    i as int - 1,
                ));
                assert(chapter_listings@.take(i as int).last()
                    == chapter_listings@[i as int - 1]);
                assert(out@ =~= spec_counted_all(chapter_listings@.take(i as int)));
            }
        }
        proof {
            assert(chapter_listings@.take(chapter_listings@.len() as int) =~= chapter_listings@);
        }
        out
    }

    /// Accumulates the unusual-size findings: counted pages more than three
    /// times the average size in KiB, or — where the average is above 10
    /// KiB — smaller than a third of it.  Every such page yields a finding,
    /// as long as the byte total fits the machine's widest integer.
    fn size_findings(chapter_listings: &Vec<Vec<FsEntry>>) -> (r: Vec<AnalyzeFinding>)
        ensures
            forall|k: int|
                0 <= k < spec_counted_all(chapter_listings@).len() && spec_counted_sum(
                    spec_counted_all(chapter_listings@),
                ) <= u128::MAX && spec_size_outlier(spec_counted_all(chapter_listings@), k)
                    ==> exists|idx: int|
                    0 <= idx < r@.len() && flags_unusual_size(
                        #[trigger] r@[idx],
                        spec_counted_all(chapter_listings@)[k].path,
                    ),
    {
        let counted = Self::collect_counted(chapter_listings);
        let mut out: Vec<AnalyzeFinding> = Vec::new();
        if counted.len() > 0 {
            let mut sum: u128 = 0;
            let mut j: usize = 0;
            proof {
                assert(sum == spec_counted_sum(counted@.take(0)));
            }
            while j < counted.len()
                invariant
                    j <= counted@.len(),
                    spec_counted_sum(counted@) <= u128::MAX ==> sum == spec_counted_sum(
                        counted@.take(j as int),
                    ),
                decreases counted@.len() - j,
            {
                proof {
                    assert(counted@.take(j as int + 1).drop_last() =~= counted@.take(j as int));
                    assert(counted@.take(j as int + 1).last() == counted@[j as int]);
                    if spec_counted_sum(counted@) <= u128::MAX {
                        lemma_counted_sum_prefix(counted@, j as int + 1);
                        assert(spec_counted_sum(counted@.take(j as int + 1)) >= 0) by {
                            lemma_counted_sum_nonneg(counted@.take(j as int + 1));
                        }
                    }
                }
                sum = match sum.checked_add(counted[j].size as u128) {
                    Some(next) => next,
                    None => sum,
                };
                j = j + 1;
            }
            proof {
                assert(counted@.take(counted@.len() as int) =~= counted@);
            }
            let avg_kb: u128 = (sum / (counted.len() as u128)) / 1024;
            proof {
                if spec_counted_sum(counted@) <= u128::MAX {
                    assert(avg_kb as int == (spec_counted_sum(counted@) / counted@.len() as int)
                        / 1024);
                }
            }
            let mut k: usize = 0;
            while k < counted.len()
                invariant
                    k <= counted@.len(),
                    counted@.len() > 0,
                    spec_counted_sum(counted@) <= u128::MAX ==> avg_kb as int == (
                    spec_counted_sum(counted@) / counted@.len() as int) / 1024,
                    forall|k2: int|
                        0 <= k2 < k && spec_counted_sum(counted@) <= u128::MAX
                            && spec_size_outlier(counted@, k2) ==> exists|idx: int|
                            0 <= idx < out@.len() && flags_unusual_size(
                                #[trigger] out@[idx],
                                counted@[k2].path,
                            ),
                decreases counted@.len() - k,
            {
                let ghost out_before = out@;
                let entry = &counted[k];
                let size_kb: u128 = (entry.size as u128) / 1024;
                let too_large = match avg_kb.checked_mul(3) {
                    Some(t) => size_kb > t,
                    None => false,
                };
                let too_small = avg_kb > 10 && size_kb < avg_kb / 3;
                if too_large || too_small {
                    out.push(
                        AnalyzeFinding::UnusualFileSize(
                            entry.path.clone(),
                            (size_kb as u64),
                            (avg_kb as u64),
                        ),
                    );
                    proof {
                        assert(flags_unusual_size(out@[out@.len() - 1], counted@[k as int].path));
                    }
                }
                k = k + 1;
                proof {
                    assert forall|k2: int|
                        0 <= k2 < k && spec_counted_sum(counted@) <= u128::MAX
                            && spec_size_outlier(counted@, k2) implies exists|idx: int|
                        0 <= idx < out@.len() && flags_unusual_size(
                            #[trigger] out@[idx],
                            counted@[k2].path,
                        ) by {
                        if k2 < k - 1 {
                            let i0 = choose|i0: int|
                                0 <= i0 < out_before.len() && flags_unusual_size(
                                    #[trigger] out_before[i0],
                                    counted@[k2].path,
                                );
                            assert(out@[i0] == out_before[i0]);
                        } else {
                            assert(flags_unusual_size(
                                out@[out@.len() - 1],
                                counted@[k2].path,
                            ));
                        }
                    }
                }
            }
        }
        out
    }


    /// Accumulates exactly one finding per file the image filter ignored —
    /// every non-hidden file of a listing whose path is no supported image
    /// — in listing order, each carrying that file's path and extension.
    fn unsupported_findings(chapter_listings: &Vec<Vec<FsEntry>>) -> (r: Vec<AnalyzeFinding>)
        ensures
            r@.len() == spec_offending_all(chapter_listings@).len(),
            forall|k: int|
                0 <= k < r@.len() ==> ((#[trigger] r@[k]) matches
                    AnalyzeFinding::UnsupportedImageFormat(p, e) && p@ == spec_offending_all(
                    chapter_listings@,
                )[k] && e@ == spec_extension_text(spec_offending_all(chapter_listings@)[k])),
            forall|i: int, e: int|
                0 <= i < chapter_listings@.len() && 0 <= e < chapter_listings@[i]@.len() && {
                    let entry = #[trigger] chapter_listings@[i]@[e];
                    !spec_is_hidden(entry.path@) && !entry.is_dir && !spec_is_supported_image(
                        entry.path@,
                    )
                } ==> exists|k: int|
                    0 <= k < r@.len() && flags_unsupported(
                        #[trigger] r@[k],
                        chapter_listings@[i]@[e].path,
                    ),
    {
        let mut out: Vec<AnalyzeFinding> = Vec::new();
        let mut i: usize = 0;
        proof {
            assert(out@.len() == spec_offending_all(chapter_listings@.take(0)).len());
        }
        while i < chapter_listings.len()
            invariant
                i <= chapter_listings@.len(),
                out@.len() == spec_offending_all(chapter_listings@.take(i as int)).len(),
                forall|k: int|
                    0 <= k < out@.len() ==> ((#[trigger] out@[k]) matches
                        AnalyzeFinding::UnsupportedImageFormat(p, e) && p@ == spec_offending_all(
                        chapter_listings@.take(i as int),
                    )[k] && e@ == spec_extension_text(
                        spec_offending_all(chapter_listings@.take(i as int))[k],
                    )),
                forall|i2: int, e: int|
                    0 <= i2 < i && 0 <= e < chapter_listings@[i2]@.len() && {
                        let entry = #[trigger] chapter_listings@[i2]@[e];
                        !spec_is_hidden(entry.path@) && !entry.is_dir && !spec_is_supported_image(
                            entry.path@,
                        )
                    } ==> exists|k: int|
                        0 <= k < out@.len() && flags_unsupported(
                            #[trigger] out@[k],
                            chapter_listings@[i2]@[e].path,
                        ),
            decreases chapter_listings@.len() - i,
        {
            let all_files = Self::collect_all_files(&chapter_listings[i]);
            let ghost done = spec_offending_all(chapter_listings@.take(i as int));
            let mut f: usize = 0;
            while f < all_files.len()
                invariant
                    f <= all_files@.len(),
                    i < chapter_listings@.len(),
                    all_files@ == spec_all_files(chapter_listings@[i as int]@),
                    done == spec_offending_all(chapter_listings@.take(i as int)),
                    out@.len() == done.len() + spec_offending_paths(
                        all_files@.take(f as int),
                    ).len(),
                    forall|k: int|
                        0 <= k < done.len() ==> ((#[trigger] out@[k]) matches
                            AnalyzeFinding::UnsupportedImageFormat(p, e) && p@ == done[k] && e@
                            == spec_extension_text(done[k])),
                    forall|k: int|
                        done.len() <= k < out@.len() ==> ((#[trigger] out@[k]) matches
                            AnalyzeFinding::UnsupportedImageFormat(p, e) && p@
                            == spec_offending_paths(all_files@.take(f as int))[k - done.len()]
                            && e@ == spec_extension_text(
                            spec_offending_paths(all_files@.take(f as int))[k - done.len()],
                        )),
                    forall|i2: int, e: int|
                        0 <= i2 < i && 0 <= e < chapter_listings@[i2]@.len() && {
                            let entry = #[trigger] chapter_listings@[i2]@[e];
                            !spec_is_hidden(entry.path@) && !entry.is_dir
                                && !spec_is_supported_image(entry.path@)
                        } ==> exists|k: int|
                            0 <= k < out@.len() && flags_unsupported(
                                #[trigger] out@[k],
                                chapter_listings@[i2]@[e].path,
                            ),
                    forall|j: int|
                        0 <= j < f && !spec_is_supported_image(
                            (#[trigger] all_files@[j])@,
                        ) ==> exists|k: int|
                            0 <= k < out@.len() && flags_unsupported(
                                #[trigger] out@[k],
                                all_files@[j],
                            ),
                decreases all_files@.len() - f,
            {
                let ghost out_before = out@;
                if !is_supported_image(all_files[f].as_str()) {
                    let ext = extension_text(all_files[f].as_str());
                    out.push(
                        AnalyzeFinding::UnsupportedImageFormat(all_files[f].clone(), ext),
                    );
                    proof {
                        assert(flags_unsupported(
                            out@[out@.len() - 1],
                            all_files@[f as int],
                        ));
                    }
                }
                f = f + 1;
                proof {
                    assert(all_files@.take(f as int).drop_last() =~= all_files@.take(
                        f as int - 1,
                    ));
                    assert(all_files@.take(f as int).last() == all_files@[f as int - 1]);
                }
                proof {
                    assert forall|i2: int, e: int|
                        0 <= i2 < i && 0 <= e < chapter_listings@[i2]@.len() && {
                            let entry = #[trigger] chapter_listings@[i2]@[e];
                            !spec_is_hidden(entry.path@) && !entry.is_dir
                                && !spec_is_supported_image(entry.path@)
                        } implies exists|k: int|
                        0 <= k < out@.len() && flags_unsupported(
                            #[trigger] out@[k],
                            chapter_listings@[i2]@[e].path,
                        ) by {
                        let k0 = choose|k0: int|
                            0 <= k0 < out_before.len() && flags_unsupported(
                                #[trigger] out_before[k0],
                                chapter_listings@[i2]@[e].path,
                            );
                        assert(out@[k0] == out_before[k0]);
                    }
                    assert forall|j: int|
                        0 <= j < f && !spec_is_supported_image(
                            (#[trigger] all_files@[j])@,
                        ) implies exists|k: int|
                        0 <= k < out@.len() && flags_unsupported(
                            #[trigger] out@[k],
                            all_files@[j],
                        ) by {
                        if j < f - 1 {
                            let k0 = choose|k0: int|
                                0 <= k0 < out_before.len() && flags_unsupported(
                                    #[trigger] out_before[k0],
                                    all_files@[j],
                                );
                            assert(out@[k0] == out_before[k0]);
                        } else {
                            assert(flags_unsupported(out@[out@.len() - 1], all_files@[j]));
                        }
                    }
                }
            }
            proof {
                assert(all_files@.take(all_files@.len() as int) =~= all_files@);
                assert(chapter_listings@.take(i as int + 1).drop_last() =~= chapter_listings@.take(
                    i as int,
                ));
                assert(chapter_listings@.take(i as int + 1).last()
                    == chapter_listings@[i as int]);
                assert(spec_offending_all(chapter_listings@.take(i as int + 1)) == done
                    + spec_offending_paths(all_files@));
                assert forall|k: int|
                    0 <= k < out@.len() implies ((#[trigger] out@[k]) matches
                    AnalyzeFinding::UnsupportedImageFormat(p, e) && p@ == spec_offending_all(
                    chapter_listings@.take(i as int + 1),
                )[k] && e@ == spec_extension_text(
                    spec_offending_all(chapter_listings@.take(i as int + 1))[k],
                )) by {
                    if k < done.len() {
                        assert(spec_offending_all(chapter_listings@.take(i as int + 1))[k]
                            == done[k]);
                    } else {
                        assert(spec_offending_all(chapter_listings@.take(i as int + 1))[k]
                            == spec_offending_paths(all_files@)[k - done.len()]);
                    }
                }
            }
            proof {
                assert forall|e: int|
                    0 <= e < chapter_listings@[i as int]@.len() && {
                        let entry = #[trigger] chapter_listings@[i as int]@[e];
                        !spec_is_hidden(entry.path@) && !entry.is_dir
                            && !spec_is_supported_image(entry.path@)
                    } implies exists|k: int|
                    0 <= k < out@.len() && flags_unsupported(
                        #[trigger] out@[k],
                        chapter_listings@[i as int]@[e].path,
                    ) by {
                    lemma_all_files_membership(chapter_listings@[i as int]@, e);
                    let j = choose|j: int|
                        0 <= j < spec_all_files(chapter_listings@[i as int]@).len()
                            && spec_all_files(chapter_listings@[i as int]@)[j]
                            == chapter_listings@[i as int]@[e].path;
                    assert(!spec_is_supported_image((all_files@[j])@));
                }
            }
            i = i + 1;
        }
        proof {
            assert(chapter_listings@.take(chapter_listings@.len() as int) =~= chapter_listings@);
        }
        out
    }

    /// Accumulates one finding per access problem: a denied read yields a
    /// permission finding and refused path characters yield a
    /// special-characters finding, for every collected page entry.
    fn access_findings(chapter_listings: &Vec<Vec<FsEntry>>) -> (r: Vec<AnalyzeFinding>)
        ensures
            forall|i: int, e: int|
                0 <= i < chapter_listings@.len() && 0 <= e < chapter_listings@[i]@.len() && {
                    let entry = #[trigger] chapter_listings@[i]@[e];
                    keeps_entry(entry, false) && entry.permission_denied
                } ==> exists|k: int|
                    0 <= k < r@.len() && flags_permission_denied(
                        #[trigger] r@[k],
                        chapter_listings@[i]@[e].path,
                    ),
            forall|i: int, e: int|
                0 <= i < chapter_listings@.len() && 0 <= e < chapter_listings@[i]@.len() && {
                    let entry = #[trigger] chapter_listings@[i]@[e];
                    keeps_entry(entry, false) && !crate::path_utils::spec_path_valid(entry.path@)
                } ==> exists|k: int|
                    0 <= k < r@.len() && flags_special_characters(
                        #[trigger] r@[k],
                        chapter_listings@[i]@[e].path,
                    ),
    {
        let mut out: Vec<AnalyzeFinding> = Vec::new();
        let mut i: usize = 0;
        while i < chapter_listings.len()
            invariant
                i <= chapter_listings@.len(),
                forall|i2: int, e: int|
                    0 <= i2 < i && 0 <= e < chapter_listings@[i2]@.len() && {
                        let entry = #[trigger] chapter_listings@[i2]@[e];
                        keeps_entry(entry, false) && entry.permission_denied
                    } ==> exists|k: int|
                        0 <= k < out@.len() && flags_permission_denied(
                            #[trigger] out@[k],
                            chapter_listings@[i2]@[e].path,
                        ),
                forall|i2: int, e: int|
                    0 <= i2 < i && 0 <= e < chapter_listings@[i2]@.len() && {
                        let entry = #[trigger] chapter_listings@[i2]@[e];
                        keeps_entry(entry, false) && !crate::path_utils::spec_path_valid(
                            entry.path@,
                        )
                    } ==> exists|k: int|
                        0 <= k < out@.len() && flags_special_characters(
                            #[trigger] out@[k],
                            chapter_listings@[i2]@[e].path,
                        ),
            decreases chapter_listings@.len() - i,
        {
            let listing = &chapter_listings[i];
            let mut e: usize = 0;
            while e < listing.len()
                invariant
                    e <= listing@.len(),
                    i < chapter_listings@.len(),
                    listing == chapter_listings@[i as int],
                    forall|i2: int, e2: int|
                        0 <= i2 < i && 0 <= e2 < chapter_listings@[i2]@.len() && {
                            let entry = #[trigger] chapter_listings@[i2]@[e2];
                            keeps_entry(entry, false) && entry.permission_denied
                        } ==> exists|k: int|
                            0 <= k < out@.len() && flags_permission_denied(
                                #[trigger] out@[k],
                                chapter_listings@[i2]@[e2].path,
                            ),
                    forall|i2: int, e2: int|
                        0 <= i2 < i && 0 <= e2 < chapter_listings@[i2]@.len() && {
                            let entry = #[trigger] chapter_listings@[i2]@[e2];
                            keeps_entry(entry, false) && !crate::path_utils::spec_path_valid(
                                entry.path@,
                            )
                        } ==> exists|k: int|
                            0 <= k < out@.len() && flags_special_characters(
                                #[trigger] out@[k],
                                chapter_listings@[i2]@[e2].path,
                            ),
                    forall|e2: int|
                        0 <= e2 < e && {
                            let entry = #[trigger] listing@[e2];
                            keeps_entry(entry, false) && entry.permission_denied
                        } ==> exists|k: int|
                            0 <= k < out@.len() && flags_permission_denied(
                                #[trigger] out@[k],
                                listing@[e2].path,
                            ),
                    forall|e2: int|
                        0 <= e2 < e && {
                            let entry = #[trigger] listing@[e2];
                            keeps_entry(entry, false) && !crate::path_utils::spec_path_valid(
                                entry.path@,
                            )
                        } ==> exists|k: int|
                            0 <= k < out@.len() && flags_special_characters(
                                #[trigger] out@[k],
                                listing@[e2].path,
                            ),
                decreases listing@.len() - e,
            {
                let ghost out_before = out@;
                let ghost perm_idx: int = -1;
                let ghost spec_idx: int = -1;
                let entry = &listing[e];
                if !is_hidden_file(entry.path.as_str()) && !entry.is_dir && is_supported_image(
                    entry.path.as_str(),
                ) {
                    if entry.permission_denied {
                        out.push(AnalyzeFinding::PermissionDenied(entry.path.clone()));
                        proof {
                            perm_idx = out@.len() - 1;
                            assert(flags_permission_denied(
                                out@[out@.len() - 1],
                                listing@[e as int].path,
                            ));
                        }
                    }
                    match crate::path_utils::validate_path(entry.path.as_str()) {
                        Ok(_) => {},
                        Err(_) => {
                            out.push(
                                AnalyzeFinding::SpecialCharactersInPath(entry.path.clone()),
                            );
                            proof {
                                spec_idx = out@.len() - 1;
                                assert(flags_special_characters(
                                    out@[out@.len() - 1],
                                    listing@[e as int].path,
                                ));
                            }
                        },
                    }
                }
                e = e + 1;
                proof {
                    assert(forall|k0: int|
                        0 <= k0 < out_before.len() ==> #[trigger] out@[k0] == out_before[k0]);
                    assert forall|i2: int, e2: int|
                        0 <= i2 < i && 0 <= e2 < chapter_listings@[i2]@.len() && {
                            let entry2 = #[trigger] chapter_listings@[i2]@[e2];
                            keeps_entry(entry2, false) && entry2.permission_denied
                        } implies exists|k: int|
                        0 <= k < out@.len() && flags_permission_denied(
                            #[trigger] out@[k],
                            chapter_listings@[i2]@[e2].path,
                        ) by {
                        let k0 = choose|k0: int|
                            0 <= k0 < out_before.len() && flags_permission_denied(
                                #[trigger] out_before[k0],
                                chapter_listings@[i2]@[e2].path,
                            );
                        assert(out@[k0] == out_before[k0]);
                    }
                    assert forall|i2: int, e2: int|
                        0 <= i2 < i && 0 <= e2 < chapter_listings@[i2]@.len() && {
                            let entry2 = #[trigger] chapter_listings@[i2]@[e2];
                            keeps_entry(entry2, false) && !crate::path_utils::spec_path_valid(
                                entry2.path@,
                            )
                        } implies exists|k: int|
                        0 <= k < out@.len() && flags_special_characters(
                            #[trigger] out@[k],
                            chapter_listings@[i2]@[e2].path,
                        ) by {
                        let k0 = choose|k0: int|
                            0 <= k0 < out_before.len() && flags_special_characters(
                                #[trigger] out_before[k0],
                                chapter_listings@[i2]@[e2].path,
                            );
                        assert(out@[k0] == out_before[k0]);
                    }
                    assert forall|e2: int|
                        0 <= e2 < e && {
                            let entry2 = #[trigger] listing@[e2];
                            keeps_entry(entry2, false) && entry2.permission_denied
                        } implies exists|k: int|
                        0 <= k < out@.len() && flags_permission_denied(
                            #[trigger] out@[k],
                            listing@[e2].path,
                        ) by {
                        if e2 < e - 1 {
                            let k0 = choose|k0: int|
                                0 <= k0 < out_before.len() && flags_permission_denied(
                                    #[trigger] out_before[k0],
                                    listing@[e2].path,
                                );
                            assert(out@[k0] == out_before[k0]);
                        } else {
                            assert(0 <= perm_idx < out@.len() && flags_permission_denied(
                                out@[perm_idx],
                                listing@[e2].path,
                            ));
                        }
                    }
                    assert forall|e2: int|
                        0 <= e2 < e && {
                            let entry2 = #[trigger] listing@[e2];
                            keeps_entry(entry2, false) && !crate::path_utils::spec_path_valid(
                                entry2.path@,
                            )
                        } implies exists|k: int|
                        0 <= k < out@.len() && flags_special_characters(
                            #[trigger] out@[k],
                            listing@[e2].path,
                        ) by {
                        if e2 < e - 1 {
                            let k0 = choose|k0: int|
                                0 <= k0 < out_before.len() && flags_special_characters(
                                    #[trigger] out_before[k0],
                                    listing@[e2].path,
                                );
                            assert(out@[k0] == out_before[k0]);
                        } else {
                            assert(0 <= spec_idx < out@.len() && flags_special_characters(
                                out@[spec_idx],
                                listing@[e2].path,
                            ));
                        }
                    }
                }
            }
            i = i + 1;
        }
        out
    }

    /// Collects and analyzes the source content, producing a best-effort
    /// report.
    ///
    /// The caller lists the base directory once, runs `collect_chapters`
    /// over it, lists each chapter directory, and hands both in; the pages
    /// come back exactly as `collect_pages` sorts them, one entry per
    /// chapter listing.  The report's strategy recommendation is pinned:
    /// `Name` exactly when some chapter carries a volume-chapter name, else
    /// `ImageAnalysis`; with no chapters or no pages the default `Manual`
    /// stands and the only finding says what was missing.  Of the warning
    /// findings, membership is pinned for ignored files, denied reads and
    /// refused path characters; the page-count and size heuristics stay
    /// informational.
    #[verifier::rlimit(100)]
    #[verifier::spinoff_prover]
    pub fn analyze_source_content(
        &self,
        base_entries: &Vec<FsEntry>,
        chapter_listings: &Vec<Vec<FsEntry>>,
    ) -> (r: CollectedContent)
        ensures
            r.grouping_strategy_recommended == r.report.recommended_strategy,
            self.spec_collected_chapter_paths(base_entries@).len() == 0
                ==> r.chapters_with_pages@.len() == 0 && r.report.findings@ == seq![
                AnalyzeFinding::NoSubdirectoriesFound,
            ] && r.report.recommended_strategy == VolumeGroupingStrategy::Manual,
            self.spec_collected_chapter_paths(base_entries@).len() > 0
                ==> r.chapters_with_pages@.len() == chapter_listings@.len(),
            self.spec_collected_chapter_paths(base_entries@).len() > 0 ==> forall|i: int|
                0 <= i < r.chapters_with_pages@.len()
                    ==> (#[trigger] r.chapters_with_pages@[i])@ == spec_sorted_paths(
                    spec_filter_listing(chapter_listings@[i]@, false),
                    default_number_pattern_text(),
                ),
            self.spec_collected_chapter_paths(base_entries@).len() > 0 && (forall|i: int|
                0 <= i < r.chapters_with_pages@.len()
                    ==> (#[trigger] r.chapters_with_pages@[i])@.len() == 0)
                ==> r.report.findings@ == seq![AnalyzeFinding::NoPagesFoundInSubdirectories]
                && r.report.recommended_strategy == VolumeGroupingStrategy::Manual,
            self.spec_collected_chapter_paths(base_entries@).len() > 0 && !(forall|i: int|
                0 <= i < r.chapters_with_pages@.len()
                    ==> (#[trigger] r.chapters_with_pages@[i])@.len() == 0)
                ==> r.report.recommended_strategy == (if Self::spec_has_name_pattern(
                self.spec_collected_chapter_paths(base_entries@),
            ) {
                VolumeGroupingStrategy::Name
            } else {
                VolumeGroupingStrategy::ImageAnalysis
            }),
            self.spec_collected_chapter_paths(base_entries@).len() > 0 && !(forall|i: int|
                0 <= i < r.chapters_with_pages@.len()
                    ==> (#[trigger] r.chapters_with_pages@[i])@.len() == 0)
                && r.report.recommended_strategy == VolumeGroupingStrategy::Name ==> exists|
                k: int,
            | 0 <= k < r.report.findings@.len() && flags_consistent_naming(
                #[trigger] r.report.findings@[k],
            ),
            self.spec_collected_chapter_paths(base_entries@).len() > 0 && !(forall|i: int|
                0 <= i < r.chapters_with_pages@.len()
                    ==> (#[trigger] r.chapters_with_pages@[i])@.len() == 0) ==> forall|
                i: int,
                e: int,
            |
                0 <= i < chapter_listings@.len() && 0 <= e < chapter_listings@[i]@.len() && {
                    let entry = #[trigger] chapter_listings@[i]@[e];
                    !spec_is_hidden(entry.path@) && !entry.is_dir && !spec_is_supported_image(
                        entry.path@,
                    )
                } ==> exists|k: int|
                    0 <= k < r.report.findings@.len() && flags_unsupported(
                        #[trigger] r.report.findings@[k],
                        chapter_listings@[i]@[e].path,
                    ),
            self.spec_collected_chapter_paths(base_entries@).len() > 0 && !(forall|i: int|
                0 <= i < r.chapters_with_pages@.len()
                    ==> (#[trigger] r.chapters_with_pages@[i])@.len() == 0) ==> forall|
                i: int,
                e: int,
            |
                0 <= i < chapter_listings@.len() && 0 <= e < chapter_listings@[i]@.len() && {
                    let entry = #[trigger] chapter_listings@[i]@[e];
                    keeps_entry(entry, false) && entry.permission_denied
                } ==> exists|k: int|
                    0 <= k < r.report.findings@.len() && flags_permission_denied(
                        #[trigger] r.report.findings@[k],
                        chapter_listings@[i]@[e].path,
                    ),
            self.spec_collected_chapter_paths(base_entries@).len() > 0 && !(forall|i: int|
                0 <= i < r.chapters_with_pages@.len()
                    ==> (#[trigger] r.chapters_with_pages@[i])@.len() == 0) ==> forall|
                i: int,
                e: int,
            |
                0 <= i < chapter_listings@.len() && 0 <= e < chapter_listings@[i]@.len() && {
                    let entry = #[trigger] chapter_listings@[i]@[e];
                    keeps_entry(entry, false) && !crate::path_utils::spec_path_valid(entry.path@)
                } ==> exists|k: int|
                    0 <= k < r.report.findings@.len() && flags_special_characters(
                        #[trigger] r.report.findings@[k],
                        chapter_listings@[i]@[e].path,
                    ),
            self.spec_collected_chapter_paths(base_entries@).len() > 0 && !(forall|i: int|
                0 <= i < r.chapters_with_pages@.len()
                    ==> (#[trigger] r.chapters_with_pages@[i])@.len() == 0) ==> forall|k: int|
                0 <= k < r.chapters_with_pages@.len() && r.chapters_with_pages@.len() > 1 && k
                    < self.spec_collected_chapter_paths(base_entries@).len()
                    && spec_page_count_outlier(r.chapters_with_pages@, k) && 10 * spec_count_dev(
                    r.chapters_with_pages@,
                    k,
                ) <= u128::MAX && 3 * crate::hozon::spec_page_total(r.chapters_with_pages@)
                    <= u128::MAX ==> exists|idx: int|
                    0 <= idx < r.report.findings@.len() && ((#[trigger] r.report.findings@[idx])
                        matches AnalyzeFinding::InconsistentPageCount(p, _, c) && p@
                        == self.spec_collected_chapter_paths(base_entries@)[k] && c
                        == r.chapters_with_pages@[k]@.len() as int),
            self.spec_collected_chapter_paths(base_entries@).len() > 0 && !(forall|i: int|
                0 <= i < r.chapters_with_pages@.len()
                    ==> (#[trigger] r.chapters_with_pages@[i])@.len() == 0) ==> forall|k: int|
                0 <= k < spec_counted_all(chapter_listings@).len() && spec_counted_sum(
                    spec_counted_all(chapter_listings@),
                ) <= u128::MAX && spec_size_outlier(spec_counted_all(chapter_listings@), k)
                    ==> exists|idx: int|
                    0 <= idx < r.report.findings@.len() && flags_unusual_size(
                        #[trigger] r.report.findings@[idx],
                        spec_counted_all(chapter_listings@)[k].path,
                    ),
    {
        let chapters = self.collect_chapters(base_entries);
        let ghost cpaths = self.spec_collected_chapter_paths(base_entries@);
        proof {
            assert(chapters@.map_values(|s: String| s@) =~= cpaths);
        }
        let mut findings: Vec<AnalyzeFinding> = Vec::new();
        if chapters.len() == 0 {
            findings.push(AnalyzeFinding::NoSubdirectoriesFound);
            proof {
                assert(findings@ =~= seq![AnalyzeFinding::NoSubdirectoriesFound]);
            }
            return CollectedContent {
                chapters_with_pages: Vec::new(),
                report: AnalyzeReport {
                    findings,
                    recommended_strategy: VolumeGroupingStrategy::Manual,
                },
                grouping_strategy_recommended: VolumeGroupingStrategy::Manual,
            };
        }
        let pages = self.collect_pages(chapter_listings);
        let mut all_empty = true;
        let mut i: usize = 0;
        while i < pages.len()
            invariant
                i <= pages@.len(),
                all_empty == (forall|j: int|
                    0 <= j < i ==> (#[trigger] pages@[j])@.len() == 0),
            decreases pages@.len() - i,
        {
            if pages[i].len() > 0 {
                all_empty = false;
            }
            proof {
                if all_empty {
                    assert(forall|j: int| 0 <= j < i + 1 ==> (#[trigger] pages@[j])@.len() == 0);
                } else {
                    assert(!(forall|j: int|
                        0 <= j < i + 1 ==> (#[trigger] pages@[j])@.len() == 0));
                }
            }
            i = i + 1;
        }
        if all_empty {
            findings.push(AnalyzeFinding::NoPagesFoundInSubdirectories);
            proof {
                assert(findings@ =~= seq![AnalyzeFinding::NoPagesFoundInSubdirectories]);
            }
            return CollectedContent {
                chapters_with_pages: pages,
                report: AnalyzeReport {
                    findings,
                    recommended_strategy: VolumeGroupingStrategy::Manual,
                },
                grouping_strategy_recommended: VolumeGroupingStrategy::Manual,
            };
        }
        // Naming-pattern recommendation.
        let mut has_pattern = false;
        let mut i: usize = 0;
        while i < chapters.len()
            invariant
                i <= chapters@.len(),
                chapters@.map_values(|s: String| s@) == cpaths,
                has_pattern ==> Self::spec_has_name_pattern(cpaths),
                !has_pattern ==> forall|j: int|
                    0 <= j < i ==> !Self::spec_name_matches(
                        (#[trigger] chapters@[j])@,
                    ),
            decreases chapters@.len() - i,
        {
            if self.chapter_name_matches(chapters[i].as_str()) {
                has_pattern = true;
                proof {
                    assert(cpaths[i as int] == chapters@[i as int]@);
                    assert(Self::spec_has_name_pattern(cpaths));
                }
            }
            i = i + 1;
        }
        proof {
            if !has_pattern {
                assert forall|ii: int| 0 <= ii < cpaths.len() implies !Self::spec_name_matches(
                    #[trigger] cpaths[ii],
                ) by {
                    assert(cpaths[ii] == chapters@[ii]@);
                }
                assert(!Self::spec_has_name_pattern(cpaths));
            }
        }
        let recommended = if has_pattern {
            findings.push(
                AnalyzeFinding::Positive("Consistent volume-chapter naming found".to_owned()),
            );
            proof {
                assert(flags_consistent_naming(findings@[0]));
            }
            VolumeGroupingStrategy::Name
        } else {
            VolumeGroupingStrategy::ImageAnalysis
        };
        let ghost base_view = findings@;
        let warn_unsupported = Self::unsupported_findings(chapter_listings);
        let ghost unsupported_view = warn_unsupported@;
        let warn_counts = Self::count_findings(&chapters, &pages);
        let ghost counts_view = warn_counts@;
        let warn_access = Self::access_findings(chapter_listings);
        let ghost access_view = warn_access@;
        let warn_sizes = Self::size_findings(chapter_listings);
        let ghost sizes_view = warn_sizes@;
        append_findings(&mut findings, warn_unsupported);
        append_findings(&mut findings, warn_counts);
        append_findings(&mut findings, warn_access);
        append_findings(&mut findings, warn_sizes);
        proof {
            assert(findings@ == base_view + unsupported_view + counts_view + access_view
                + sizes_view);
        }
        let result = CollectedContent {
            chapters_with_pages: pages,
            report: AnalyzeReport { findings, recommended_strategy: recommended },
            grouping_strategy_recommended: recommended,
        };
        proof {
            assert(!(forall|i: int|
                0 <= i < result.chapters_with_pages@.len()
                    ==> (#[trigger] result.chapters_with_pages@[i])@.len() == 0)) by {
                assert(!all_empty);
                let w = choose|j: int|
                    0 <= j < pages@.len() && (#[trigger] pages@[j])@.len() != 0;
                assert((result.chapters_with_pages@[w])@.len() != 0);
            }
            let all = result.report.findings@;
            assert(all == base_view + unsupported_view + counts_view + access_view + sizes_view);
            if recommended == VolumeGroupingStrategy::Name {
                assert(flags_consistent_naming(all[0]));
            }
            let u_off = base_view.len() as int;
            let a_off = base_view.len() + unsupported_view.len() + counts_view.len();
            assert forall|i: int, e: int|
                0 <= i < chapter_listings@.len() && 0 <= e < chapter_listings@[i]@.len() && {
                    let entry = #[trigger] chapter_listings@[i]@[e];
                    !spec_is_hidden(entry.path@) && !entry.is_dir && !spec_is_supported_image(
                        entry.path@,
                    )
                } implies exists|k: int|
                0 <= k < all.len() && flags_unsupported(
                    #[trigger] all[k],
                    chapter_listings@[i]@[e].path,
                ) by {
                let k0 = choose|k0: int|
                    0 <= k0 < unsupported_view.len() && flags_unsupported(
                        #[trigger] unsupported_view[k0],
                        chapter_listings@[i]@[e].path,
                    );
                assert(all[u_off + k0] == unsupported_view[k0]);
            }
            assert forall|i: int, e: int|
                0 <= i < chapter_listings@.len() && 0 <= e < chapter_listings@[i]@.len() && {
                    let entry = #[trigger] chapter_listings@[i]@[e];
                    keeps_entry(entry, false) && entry.permission_denied
                } implies exists|k: int|
                0 <= k < all.len() && flags_permission_denied(
                    #[trigger] all[k],
                    chapter_listings@[i]@[e].path,
                ) by {
                let k0 = choose|k0: int|
                    0 <= k0 < access_view.len() && flags_permission_denied(
                        #[trigger] access_view[k0],
                        chapter_listings@[i]@[e].path,
                    );
                assert(all[a_off as int + k0] == access_view[k0]);
            }
            assert forall|i: int, e: int|
                0 <= i < chapter_listings@.len() && 0 <= e < chapter_listings@[i]@.len() && {
                    let entry = #[trigger] chapter_listings@[i]@[e];
                    keeps_entry(entry, false) && !crate::path_utils::spec_path_valid(entry.path@)
                } implies exists|k: int|
                0 <= k < all.len() && flags_special_characters(
                    #[trigger] all[k],
                    chapter_listings@[i]@[e].path,
                ) by {
                let k0 = choose|k0: int|
                    0 <= k0 < access_view.len() && flags_special_characters(
                        #[trigger] access_view[k0],
                        chapter_listings@[i]@[e].path,
                    );
                assert(all[a_off as int + k0] == access_view[k0]);
            }
            let c_off = base_view.len() + unsupported_view.len();
            assert(result.chapters_with_pages@ == pages@);
            assert forall|k: int|
                0 <= k < result.chapters_with_pages@.len() && result.chapters_with_pages@.len()
                    > 1 && k < cpaths.len() && spec_page_count_outlier(
                    result.chapters_with_pages@,
                    k,
                ) && 10 * spec_count_dev(result.chapters_with_pages@, k) <= u128::MAX && 3
                    * crate::hozon::spec_page_total(result.chapters_with_pages@) <= u128::MAX
                    implies exists|idx: int|
                0 <= idx < all.len() && ((#[trigger] all[idx]) matches
                    AnalyzeFinding::InconsistentPageCount(p, _, c) && p@ == cpaths[k] && c
                    == result.chapters_with_pages@[k]@.len() as int) by {
                let i0 = choose|i0: int|
                    0 <= i0 < counts_view.len() && flags_page_count(
                        #[trigger] counts_view[i0],
                        chapters@[k],
                        pages@[k]@.len() as int,
                    );
                assert(all[c_off as int + i0] == counts_view[i0]);
                assert(cpaths[k] == chapters@[k]@);
            }
            let s_off = base_view.len() + unsupported_view.len() + counts_view.len()
                + access_view.len();
            assert forall|k: int|
                0 <= k < spec_counted_all(chapter_listings@).len() && spec_counted_sum(
                    spec_counted_all(chapter_listings@),
                ) <= u128::MAX && spec_size_outlier(spec_counted_all(chapter_listings@), k)
                    implies exists|idx: int|
                0 <= idx < all.len() && flags_unusual_size(
                    #[trigger] all[idx],
                    spec_counted_all(chapter_listings@)[k].path,
                ) by {
                let i0 = choose|i0: int|
                    0 <= i0 < sizes_view.len() && flags_unusual_size(
                        #[trigger] sizes_view[i0],
                        spec_counted_all(chapter_listings@)[k].path,
                    );
                assert(all[s_off as int + i0] == sizes_view[i0]);
            }
        }
        result
    }

    /// Identifies chapters that are likely to start a new volume by
    /// classifying each chapter's first page.  A chapter whose cover
    /// decodes and classifies as color is a boundary candidate; chapter 0
    /// is always a boundary; decode failures and empty chapters contribute
    /// nothing.  What the file system returns is not promised, so the
    /// contract bounds the result: the indices are strictly increasing,
    /// start at 0, stay below the chapter count, and every index other
    /// than the forced 0 points at a chapter with at least one page.
    pub fn determine_volume_start_chapters(
        &self,
        images_per_chapter: &Vec<Vec<String>>,
        sensibility: Option<u8>,
    ) -> (r: Result<Vec<usize>, Error>)
        ensures
            r matches Ok(v) && ({
                &&& images_per_chapter@.len() == 0 ==> v@.len() == 0
                &&& images_per_chapter@.len() > 0 ==> v@.len() > 0 && v@[0] == 0
                &&& forall|i: int| 0 <= i < v@.len() ==> #[trigger] v@[i] < images_per_chapter@.len()
                &&& forall|i: int, j: int| 0 <= i < j < v@.len() ==> #[trigger] v@[i] < #[trigger] v@[j]
                &&& forall|k: int|
                    0 <= k < v@.len() && #[trigger] v@[k] != 0 ==> (
                    images_per_chapter@[v@[k] as int])@.len() > 0
            }),
    {
        if images_per_chapter.len() == 0 {
            return Ok(Vec::new());
        }
        let effective: u8 = match sensibility {
            Some(s) => s,
            None => self.image_analysis_sensibility,
        };
        let mut out: Vec<usize> = Vec::new();
        let mut i: usize = 0;
        while i < images_per_chapter.len()
            invariant
                i <= images_per_chapter@.len(),
                forall|k: int| 0 <= k < out@.len() ==> #[trigger] out@[k] < i,
                forall|k: int, l: int| 0 <= k < l < out@.len() ==> #[trigger] out@[k]
                    < #[trigger] out@[l],
                forall|k: int|
                    0 <= k < out@.len() ==> (
                    images_per_chapter@[(#[trigger] out@[k]) as int])@.len() > 0,
            decreases images_per_chapter@.len() - i,
        {
            let chapter = &images_per_chapter[i];
            if chapter.len() > 0 {
                match crate::cover::open_image(chapter[0].as_str()) {
                    Some(img) => {
                        if !crate::cover::is_grayscale(&img, effective) {
                            out.push(i);
                        }
                    },
                    None => {},
                }
            }
            i = i + 1;
        }
        if out.len() == 0 {
            out.push(0);
        } else if out[0] != 0 {
            let ghost before = out@;
            out.insert(0, 0);
            proof {
                assert(out@ == before.insert(0, 0usize));
                assert(out@[0] == 0);
                assert forall|k: int, l: int| 0 <= k < l < out@.len() implies #[trigger] out@[k]
                    < #[trigger] out@[l] by {
                    if k == 0 {
                        assert(out@[l] == before[l - 1]);
                        if l - 1 > 0 {
                            assert(before[0] < before[l - 1]);
                        }
                    } else {
                        assert(out@[k] == before[k - 1] && out@[l] == before[l - 1]);
                    }
                }
                assert forall|k: int| 0 <= k < out@.len() && #[trigger] out@[k] != 0 implies (
                images_per_chapter@[out@[k] as int])@.len() > 0 by {
                    assert(out@[k] == before[k - 1]);
                }
            }
        }
        Ok(out)
    }

    /// Determines whether an image is predominantly grayscale: the cover
    /// heuristic behind image analysis, at the given sensitivity in
    /// percent.
    pub fn is_grayscale(img: &image::DynamicImage, sensibility: u8) -> (r: bool)
        ensures
            r == crate::cover::spec_is_grayscale(*img, sensibility),
    {
        crate::cover::is_grayscale(img, sensibility)
    }

    /// Calculates how many chapters belong to each volume, given the sorted
    /// list of chapter indices that start new volumes.
    ///
    /// The size of each volume is the gap to the next start index —
    /// zero-length gaps from repeated indices are dropped — and the last
    /// volume takes the chapters that remain.  With no start indices, all
    /// chapters form one volume; with none at all, there are no volumes.
    pub fn calculate_volume_sizes(
        &self,
        volume_start_chapters: Vec<usize>,
        total_chapters: usize,
    ) -> (r: Result<Vec<usize>, Error>)
        requires
            forall|i: int, j: int|
                0 <= i <= j < volume_start_chapters@.len() ==> #[trigger] volume_start_chapters@[i]
                    <= #[trigger] volume_start_chapters@[j],
        ensures
            r matches Ok(v) && v@ == spec_volume_sizes(volume_start_chapters@, total_chapters),
    {
        let starts = volume_start_chapters;
        let mut sizes: Vec<usize> = Vec::new();
        if starts.len() == 0 {
            if total_chapters > 0 {
                sizes.push(total_chapters);
            }
            return Ok(sizes);
        }
        let mut k: usize = 1;
        proof {
            assert(starts@.take(1).len() <= 1);
            assert(sizes@ =~= spec_gap_list(starts@.take(1)));
        }
        while k < starts.len()
            invariant
                1 <= k <= starts@.len(),
                forall|i: int, j: int|
                    0 <= i <= j < starts@.len() ==> #[trigger] starts@[i] <= #[trigger] starts@[j],
                sizes@ == spec_gap_list(starts@.take(k as int)),
            decreases starts@.len() - k,
        {
            let gap = starts[k] - starts[k - 1];
            if gap > 0 {
                sizes.push(gap);
            }
            k = k + 1;
            proof {
                assert(starts@.take(k as int).drop_last() =~= starts@.take(k as int - 1));
                assert(starts@.take(k as int).last() == starts@[k as int - 1]);
            }
        }
        proof {
            assert(starts@.take(starts@.len() as int) =~= starts@);
        }
        let last = starts[starts.len() - 1];
        if total_chapters > last {
            sizes.push(total_chapters - last);
        } else if sizes.len() == 0 && total_chapters > 0 {
            sizes.push(total_chapters);
        }
        Ok(sizes)
    }

    /// The key pair of the volume-chapter comparator for one path.
    pub(crate) fn vc_key(&self, path: &str) -> (r: SortPairKey)
        ensures
            pair_key_view(r) == spec_vc_key(path@),
    {
        proof {
            use_type_invariant(self);
        }
        let name = get_file_name_lossy(path);
        match self.grouping_pattern.first_match_in(name.as_str()) {
            Some(m) => {
                let chars = str_chars(m.as_str());
                vc_keys_of_match(&chars)
            },
            None => (None, None),
        }
    }

    /// Compares two paths by volume and chapter numbers parsed from their
    /// file names, as in `01-23.5`: volume numbers order first and chapter
    /// numbers break ties.  A path whose name has no volume-chapter token,
    /// or whose volume number does not parse, is a no-op for ordering: it
    /// compares equal to everything, so a stable sort leaves it in place.
    pub fn sort_by_name_volume_chapter_default(&self, a: &str, b: &str) -> (r: core::cmp::Ordering)
        ensures
            (r == core::cmp::Ordering::Less) == vc_lt(spec_vc_key(a@), spec_vc_key(b@)),
            (r == core::cmp::Ordering::Greater) == vc_lt(spec_vc_key(b@), spec_vc_key(a@)),
            (r == core::cmp::Ordering::Equal) == (!vc_lt(spec_vc_key(a@), spec_vc_key(b@))
                && !vc_lt(spec_vc_key(b@), spec_vc_key(a@))),
    {
        let ka = self.vc_key(a);
        let kb = self.vc_key(b);
        if ka.0.is_some() && kb.0.is_some() {
            crate::sorting::cmp_pair_keys(&ka, &kb)
        } else {
            core::cmp::Ordering::Equal
        }
    }

    /// Compares two paths by the numeric keys of their file names under the
    /// active page pattern.
    pub fn sort_name_by_number(&self, a: &str, b: &str) -> (r: core::cmp::Ordering)
        ensures
            (r == core::cmp::Ordering::Less) == crate::sortkey::opt_key_lt(
                spec_extract_number(a@, self.spec_active_pattern(false)),
                spec_extract_number(b@, self.spec_active_pattern(false)),
            ),
            (r == core::cmp::Ordering::Greater) == crate::sortkey::opt_key_lt(
                spec_extract_number(b@, self.spec_active_pattern(false)),
                spec_extract_number(a@, self.spec_active_pattern(false)),
            ),
            (r == core::cmp::Ordering::Equal) == (spec_extract_number(
                a@,
                self.spec_active_pattern(false),
            ) == spec_extract_number(b@, self.spec_active_pattern(false))),
    {
        let ka = self.regex_parser(a, false);
        let kb = self.regex_parser(b, false);
        crate::sortkey::cmp_opt_keys(&ka, &kb)
    }
}

} // verus!
