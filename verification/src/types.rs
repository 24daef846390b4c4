//! Core data types, enums and reports for the conversion library:
//! configuration enums, ebook metadata, the intermediate results of the
//! collection and structuring stages, and the file-type helper.

use vstd::prelude::*;

use crate::error::Error;
use crate::path_utils::{extension_chars, spec_extension};
use crate::strutil::{chars_to_string, str_chars};

verus! {

/// Strategy for grouping collected chapters into logical volumes.
#[derive(Debug, PartialEq, Eq, Structural, Clone, Copy)]
pub enum VolumeGroupingStrategy {
    /// Group by patterns in chapter folder names (`01-001` against `02-001`).
    Name,
    /// Group by detecting color cover pages through grayscale analysis.
    ImageAnalysis,
    /// Explicit volume sizes, or a single volume when none are given.
    Manual,
    /// All collected pages become one chapter in one output book.
    Flat,
}

impl Default for VolumeGroupingStrategy {
    /// The default strategy is `Manual`.
    fn default() -> (r: Self)
        ensures
            r == VolumeGroupingStrategy::Manual,
    {
        VolumeGroupingStrategy::Manual
    }
}

/// How deeply the source directory is scanned during collection.
#[derive(Debug, PartialEq, Eq, Structural, Clone, Copy)]
pub enum CollectionDepth {
    /// `source/chapter_folder/page.jpg`: subdirectories are chapters.
    Deep,
    /// `source/page.jpg`: the source itself is one virtual chapter.
    Shallow,
}

impl Default for CollectionDepth {
    /// The default depth is `Deep`.
    fn default() -> (r: Self)
        ensures
            r == CollectionDepth::Deep,
    {
        CollectionDepth::Deep
    }
}

/// The output file format of the generated ebooks.
#[derive(Debug, PartialEq, Eq, Structural, Clone, Copy)]
pub enum FileFormat {
    /// Reflowable e-book container.
    Epub,
    /// Comic book archive.
    Cbz,
}

impl Default for FileFormat {
    /// The default format is `Cbz`.
    fn default() -> (r: Self)
        ensures
            r == FileFormat::Cbz,
    {
        FileFormat::Cbz
    }
}

/// Reading direction for content within a reflowable container.
#[derive(Debug, PartialEq, Eq, Structural, Clone, Copy)]
pub enum Direction {
    Ltr,
    Rtl,
}

impl Default for Direction {
    /// The default direction is left-to-right.
    fn default() -> (r: Self)
        ensures
            r == Direction::Ltr,
    {
        Direction::Ltr
    }
}

impl Direction {
    /// The direction's code as metadata writers expect it.
    pub fn to_string(&self) -> (r: String)
        ensures
            self is Ltr ==> r@ == "ltr"@,
            self is Rtl ==> r@ == "rtl"@,
    {
        match self {
            Direction::Ltr => "ltr".to_owned(),
            Direction::Rtl => "rtl".to_owned(),
        }
    }
}

/// The starting point of a conversion, which decides what the preflight
/// check validates.
#[derive(Debug, Clone, Copy, PartialEq, Eq, Structural)]
pub enum HozonExecutionMode {
    /// Collection starts from the configured source directory.
    FromSource,
    /// The caller supplies collected chapters and pages.
    FromCollectedData,
    /// The caller supplies fully structured volumes.
    FromStructuredData,
}

/// A calendar date attached to ebook metadata.  Only the fields the output
/// containers embed are kept: year, month and day.
#[derive(Debug, Clone, Copy, PartialEq, Eq, Structural)]
pub struct ReleaseDate {
    pub year: i32,
    pub month: u8,
    pub day: u8,
}

/// One entry of a directory listing, as the surrounding program hands it to
/// the library: its path, whether it is a directory, its size in bytes where
/// reading the metadata succeeded, and whether that reading was denied.
#[derive(Debug, Clone)]
pub struct FsEntry {
    pub path: String,
    pub is_dir: bool,
    pub size: u64,
    pub size_known: bool,
    pub permission_denied: bool,
}

/// What the surrounding program observed about the configured source path:
/// whether it exists and whether it is a directory.  The preflight check
/// takes these observations as plain values.
#[derive(Debug, Clone, Copy, PartialEq, Eq, Structural)]
pub struct SourceStatus {
    pub exists: bool,
    pub is_directory: bool,
}

/// A specific finding from the analysis stage.
#[derive(Debug, Clone)]
pub enum AnalyzeFinding {
    Positive(String),
    Warning(String),
    Negative(String),
    /// A name from which no numeric identifier could be read.
    MissingNumericIdentifier(String),
    /// Path and extension of a file the image filter ignored.
    UnsupportedImageFormat(String, String),
    /// Path, its size in KiB, and the average size in KiB.
    UnusualFileSize(String, u64, u64),
    /// Path and its length.
    LongPath(String, usize),
    SpecialCharactersInPath(String),
    PermissionDenied(String),
    /// Chapter path, expected page count, found page count.
    InconsistentPageCount(String, usize, usize),
    /// The distinct image formats found, where more than one occurs.
    InconsistentImageFormat(Vec<String>),
    EmptySourcePath,
    SourcePathNotDirectory,
    NoSubdirectoriesFound,
    NoPagesFoundInSubdirectories,
}

/// Comprehensive metadata for an ebook, embedded into the output files.
#[derive(Debug, Clone)]
pub struct EbookMetadata {
    pub title: String,
    pub series: Option<String>,
    pub authors: Vec<String>,
    pub publisher: Option<String>,
    pub description: Option<String>,
    /// General tags or subjects.
    pub tags: Vec<String>,
    /// Language code, such as `en` or `ja`.
    pub language: String,
    pub rights: Option<String>,
    /// ISBN, UUID or another identifier.
    pub identifier: Option<String>,
    pub release_date: Option<ReleaseDate>,
    /// A specific genre, mostly for the archive container's metadata.
    pub genre: Option<String>,
    /// A website link, mostly for the archive container's metadata.
    pub web: Option<String>,
    /// Arbitrary key/value pairs, kept in insertion order.
    pub custom_fields: Vec<(String, String)>,
}

impl Default for EbookMetadata {
    /// Empty metadata: every text empty, every optional field absent.
    fn default() -> (r: Self)
        ensures
            r.title@ == Seq::<char>::empty(),
            r.series is None,
            r.authors@ == Seq::<String>::empty(),
            r.publisher is None,
            r.description is None,
            r.tags@ == Seq::<String>::empty(),
            r.language@ == Seq::<char>::empty(),
            r.rights is None,
            r.identifier is None,
            r.release_date is None,
            r.genre is None,
            r.web is None,
            r.custom_fields@ == Seq::<(String, String)>::empty(),
    {
        EbookMetadata {
            title: String::new(),
            series: None,
            authors: Vec::new(),
            publisher: None,
            description: None,
            tags: Vec::new(),
            language: String::new(),
            rights: None,
            identifier: None,
            release_date: None,
            genre: None,
            web: None,
            custom_fields: Vec::new(),
        }
    }
}

impl EbookMetadata {
    /// Default metadata with the given title and language `en`.
    pub fn default_with_title(title: String) -> (r: Self)
        ensures
            r.title == title,
            r.language@ == "en"@,
            r.series is None,
            r.authors@ == Seq::<String>::empty(),
            r.publisher is None,
            r.description is None,
            r.tags@ == Seq::<String>::empty(),
            r.rights is None,
            r.identifier is None,
            r.release_date is None,
            r.genre is None,
            r.web is None,
            r.custom_fields@ == Seq::<(String, String)>::empty(),
    {
        let mut m = EbookMetadata::default();
        m.title = title;
        m.language = "en".to_owned();
        m
    }
}

/// The outcome of the content collection and analysis phase.
#[derive(Debug, Clone)]
pub struct CollectedContent {
    /// One entry per chapter, each an ordered list of page paths.
    pub chapters_with_pages: Vec<Vec<String>>,
    /// Findings and the recommended strategy from the analysis pass.
    pub report: AnalyzeReport,
    /// The strategy that the collection pass recommends.
    pub grouping_strategy_recommended: VolumeGroupingStrategy,
}

/// The outcome of the volume structuring phase.
#[derive(Debug, Clone)]
pub struct StructuredContent {
    /// One entry per volume, each a list of chapters, each a list of pages.
    pub volumes_with_chapters_and_pages: Vec<Vec<Vec<String>>>,
    /// Counts from the structuring pass.
    pub report: VolumeStructureReport,
    /// The strategy that was actually applied.
    pub grouping_strategy_applied: VolumeGroupingStrategy,
}

/// Report from the content analysis stage.
#[derive(Debug, Clone)]
pub struct AnalyzeReport {
    pub findings: Vec<AnalyzeFinding>,
    pub recommended_strategy: VolumeGroupingStrategy,
}

impl Default for AnalyzeReport {
    /// An empty report recommending the default strategy.
    fn default() -> (r: Self)
        ensures
            r.findings@ == Seq::<AnalyzeFinding>::empty(),
            r.recommended_strategy == VolumeGroupingStrategy::Manual,
    {
        AnalyzeReport { findings: Vec::new(), recommended_strategy: VolumeGroupingStrategy::Manual }
    }
}

/// Report from the volume structuring stage.
#[derive(Debug, Clone)]
pub struct VolumeStructureReport {
    pub total_chapters_processed: usize,
    pub total_volumes_created: usize,
    /// Chapter counts per volume, such as `[10, 12, 8]` for three volumes.
    pub chapter_counts_per_volume: Vec<usize>,
}

impl Default for VolumeStructureReport {
    /// An empty report: no chapters, no volumes.
    fn default() -> (r: Self)
        ensures
            r.total_chapters_processed == 0,
            r.total_volumes_created == 0,
            r.chapter_counts_per_volume@ == Seq::<usize>::empty(),
    {
        VolumeStructureReport {
            total_chapters_processed: 0,
            total_volumes_created: 0,
            chapter_counts_per_volume: Vec::new(),
        }
    }
}

/// The ASCII-lowercase image of a character sequence.
pub open spec fn ascii_lower(s: Seq<char>) -> Seq<char> {
    s.map_values(|c: char| if 'A' <= c <= 'Z' { ((c as int + 32) as char) } else { c })
}

/// Whether a path carries one of the supported image extensions, compared
/// without regard to ASCII case.
pub open spec fn spec_is_supported_image(path: Seq<char>) -> bool {
    match spec_extension(path) {
        Some(e) => {
            let low = ascii_lower(e);
            low == "jpg"@ || low == "jpeg"@ || low == "png"@ || low == "webp"@
        },
        None => false,
    }
}

/// Determines the canonical extension and MIME type of an image file.
///
/// Succeeds exactly on the supported extensions `jpg`/`jpeg`, `png` and
/// `webp`, compared without regard to ASCII case; everything else is
/// unsupported.
pub fn get_file_info(image_path: &str) -> (r: Result<(&'static str, &'static str), Error>)
    ensures
        r is Ok <==> spec_is_supported_image(image_path@),
        r matches Ok(info) ==> ({
            let low = ascii_lower(spec_extension(image_path@).unwrap());
            if low == "jpg"@ || low == "jpeg"@ {
                info.0@ == "jpg"@ && info.1@ == "image/jpeg"@
            } else if low == "png"@ {
                info.0@ == "png"@ && info.1@ == "image/png"@
            } else {
                info.0@ == "webp"@ && info.1@ == "image/webp"@
            }
        }),
        r matches Err(e) ==> e is Unsupported,
{
    proof {
        reveal_strlit("jpg");
        reveal_strlit("jpeg");
        reveal_strlit("png");
        reveal_strlit("webp");
    }
    let chars = str_chars(image_path);
    match extension_chars(&chars) {
        Some(ext) => {
            let mut low: Vec<char> = Vec::new();
            let mut i: usize = 0;
            while i < ext.len()
                invariant
                    i <= ext@.len(),
                    low@ == ascii_lower(ext@.take(i as int)),
                decreases ext@.len() - i,
            {
                let c = ext[i];
                let mut m: char = c;
                if 'A' <= c && c <= 'Z' {
                    m = ((c as u8) + 32) as char;
                }
                low.push(m);
                i = i + 1;
                proof {
                    assert(low@ =~= ascii_lower(ext@.take(i as int)));
                }
            }
            proof {
                assert(ext@.take(ext@.len() as int) =~= ext@);
            }
            let low_s = chars_to_string(&low);
            if low_s.eq(&"jpg".to_owned()) || low_s.eq(&"jpeg".to_owned()) {
                Ok(("jpg", "image/jpeg"))
            } else if low_s.eq(&"png".to_owned()) {
                Ok(("png", "image/png"))
            } else if low_s.eq(&"webp".to_owned()) {
                Ok(("webp", "image/webp"))
            } else {
                Err(Error::Unsupported("image format".to_owned()))
            }
        },
        None => Err(Error::Unsupported("image format".to_owned())),
    }
}

/// Whether a path carries a supported image extension.
pub fn is_supported_image(path: &str) -> (r: bool)
    ensures
        r == spec_is_supported_image(path@),
{
    match get_file_info(path) {
        Ok(_) => true,
        Err(_) => false,
    }
}

} // verus!
