//! Generation planning: everything the container writers need, computed and
//! pinned down before any file is touched.
//!
//! The planner turns structured volumes into one [`VolumePlan`] per output
//! file: its sanitized file name, ordered chapters, chapter titles, page
//! count, cover choice, and the metadata documents — the archive container's
//! XML sidecar and the reflowable container's key/value metadata.  The
//! surrounding program only streams bytes where the plan says.

use vstd::prelude::*;

use chrono::Datelike;

use crate::error::Error;
use crate::hozon::{spec_page_total, spec_parent};
use crate::path_utils::{sanitize_char, sanitize_filename, spec_file_name};
use crate::strutil::{char_range, chars_to_string, push_chars, str_chars};
use crate::types::{Direction, EbookMetadata, ReleaseDate};

verus! {

/// The decimal digits of a non-negative number, empty for zero.
pub open spec fn spec_digits(n: int) -> Seq<char>
    decreases n,
{
    if n <= 0 {
        Seq::empty()
    } else {
        spec_digits(n / 10).push(((48 + n % 10) as char))
    }
}

/// The decimal text of a non-negative number; zero is `0`.
pub open spec fn spec_number_string(n: int) -> Seq<char> {
    if n == 0 {
        seq!['0']
    } else {
        spec_digits(n)
    }
}

/// `s` left-padded with `0` to at least `width` characters.
pub open spec fn spec_zero_pad(s: Seq<char>, width: int) -> Seq<char>
    decreases width - s.len(),
{
    if s.len() >= width {
        s
    } else {
        spec_zero_pad(seq!['0'] + s, width)
    }
}

/// Writes a number as decimal characters.
pub fn number_chars(n: usize) -> (r: Vec<char>)
    ensures
        r@ == spec_number_string(n as int),
{
    if n == 0 {
        let mut out: Vec<char> = Vec::new();
        out.push('0');
        proof {
            assert(out@ =~= seq!['0']);
        }
        return out;
    }
    let mut out: Vec<char> = Vec::new();
    let mut m: usize = n;
    proof {
        assert(spec_digits(n as int) =~= spec_digits(m as int) + out@);
    }
    while m > 0
        invariant
            spec_digits(n as int) == spec_digits(m as int) + out@,
        decreases m,
    {
        let d: u8 = (m % 10) as u8;
        let c: char = ((48 + d) as char);
        let ghost out_before = out@;
        out.insert(0, c);
        m = m / 10;
        proof {
            assert(out@ =~= seq![c] + out_before);
            assert(spec_digits(m as int).push(c) + out_before =~= spec_digits(m as int) + (seq![c]
                + out_before));
        }
    }
    proof {
        assert(spec_digits(0) + out@ =~= out@);
    }
    out
}

/// Left-pads characters with `0` to at least `width` characters.
pub fn zero_pad_chars(v: Vec<char>, width: usize) -> (r: Vec<char>)
    ensures
        r@ == spec_zero_pad(v@, width as int),
{
    let ghost orig = v@;
    let mut out = v;
    while out.len() < width
        invariant
            spec_zero_pad(out@, width as int) == spec_zero_pad(orig, width as int),
        decreases width - out@.len(),
    {
        let ghost before = out@;
        out.insert(0, '0');
        proof {
            assert(out@ =~= seq!['0'] + before);
        }
    }
    out
}

/// How one character is written in XML text: the five special characters
/// become entities, everything else stays.
pub open spec fn escape_char(c: char) -> Seq<char> {
    if c == '&' {
        "&amp;"@
    } else if c == '<' {
        "&lt;"@
    } else if c == '>' {
        "&gt;"@
    } else if c == '"' {
        "&quot;"@
    } else if c == '\'' {
        "&apos;"@
    } else {
        seq![c]
    }
}

/// The XML-escaped image of a text.
pub open spec fn spec_escape_xml(s: Seq<char>) -> Seq<char>
    decreases s.len(),
{
    if s.len() == 0 {
        Seq::empty()
    } else {
        spec_escape_xml(s.drop_last()) + escape_char(s.last())
    }
}

/// Escapes a text for embedding in XML.
pub fn escape_xml_chars(v: &Vec<char>) -> (r: Vec<char>)
    ensures
        r@ == spec_escape_xml(v@),
{
    proof {
        reveal_strlit("&amp;");
        reveal_strlit("&lt;");
        reveal_strlit("&gt;");
        reveal_strlit("&quot;");
        reveal_strlit("&apos;");
    }
    let mut out: Vec<char> = Vec::new();
    let mut i: usize = 0;
    proof {
        assert(out@ =~= spec_escape_xml(v@.take(0)));
    }
    while i < v.len()
        invariant
            i <= v@.len(),
            out@ == spec_escape_xml(v@.take(i as int)),
            "&amp;"@ == seq!['&', 'a', 'm', 'p', ';'],
            "&lt;"@ == seq!['&', 'l', 't', ';'],
            "&gt;"@ == seq!['&', 'g', 't', ';'],
            "&quot;"@ == seq!['&', 'q', 'u', 'o', 't', ';'],
            "&apos;"@ == seq!['&', 'a', 'p', 'o', 's', ';'],
        decreases v@.len() - i,
    {
        let c = v[i];
        let ghost before = out@;
        if c == '&' {
            out.push('&');
            out.push('a');
            out.push('m');
            out.push('p');
            out.push(';');
        } else if c == '<' {
            out.push('&');
            out.push('l');
            out.push('t');
            out.push(';');
        } else if c == '>' {
            out.push('&');
            out.push('g');
            out.push('t');
            out.push(';');
        } else if c == '"' {
            out.push('&');
            out.push('q');
            out.push('u');
            out.push('o');
            out.push('t');
            out.push(';');
        } else if c == '\'' {
            out.push('&');
            out.push('a');
            out.push('p');
            out.push('o');
            out.push('s');
            out.push(';');
        } else {
            out.push(c);
        }
        i = i + 1;
        proof {
            assert(out@ =~= before + escape_char(c));
            assert(v@.take(i as int).drop_last() =~= v@.take(i as int - 1));
            assert(v@.take(i as int).last() == c);
        }
    }
    proof {
        assert(v@.take(v@.len() as int) =~= v@);
    }
    out
}

/// The display name of one output file: with several volumes,
/// `title`, the separator, and `Volume N`; with a single volume just the
/// title — in both cases run through `sanitize_filename`.
pub open spec fn spec_volume_file_name(
    title: Seq<char>,
    separator: Seq<char>,
    number: int,
    multiple: bool,
) -> Seq<char> {
    let raw = if multiple {
        title + separator + "Volume "@ + spec_number_string(number)
    } else {
        title
    };
    raw.map_values(|c: char| sanitize_char(c))
}

/// Computes the sanitized file-name base of one volume.
pub fn volume_file_name(title: &str, separator: &str, number: usize, multiple: bool) -> (r:
    String)
    ensures
        r@ == spec_volume_file_name(title@, separator@, number as int, multiple),
{
    if multiple {
        let mut chars = str_chars(title);
        let sep = str_chars(separator);
        push_chars(&mut chars, &sep);
        let volume_word = str_chars("Volume ");
        push_chars(&mut chars, &volume_word);
        let digits = number_chars(number);
        push_chars(&mut chars, &digits);
        let joined = chars_to_string(&chars);
        sanitize_filename(joined.as_str())
    } else {
        sanitize_filename(title)
    }
}

/// The archive entry name of page `number`: `page_NNN.ext` with the number
/// zero-padded to three digits.
pub open spec fn spec_page_entry_name(number: int, ext: Seq<char>) -> Seq<char> {
    "page_"@ + spec_zero_pad(spec_number_string(number), 3) + "."@ + ext
}

/// Computes the archive entry name of one page.
pub fn page_entry_name(number: usize, ext: &str) -> (r: String)
    ensures
        r@ == spec_page_entry_name(number as int, ext@),
{
    let mut chars = str_chars("page_");
    let digits = zero_pad_chars(number_chars(number), 3);
    push_chars(&mut chars, &digits);
    chars.push('.');
    let e = str_chars(ext);
    proof {
        assert(("page_"@ + spec_zero_pad(spec_number_string(number as int), 3)).push('.')
            =~= "page_"@ + spec_zero_pad(spec_number_string(number as int), 3) + "."@ + Seq::<
            char,
        >::empty()) by {
            reveal_strlit(".");
        }
    }
    push_chars(&mut chars, &e);
    proof {
        reveal_strlit(".");
        assert(chars@ =~= spec_page_entry_name(number as int, ext@));
    }
    chars_to_string(&chars)
}

/// The archive entry name of a custom cover: `000_cover.ext`.
pub open spec fn spec_cover_entry_name(ext: Seq<char>) -> Seq<char> {
    "000_cover."@ + ext
}

/// Computes the archive entry name of the custom cover.
pub fn cover_entry_name(ext: &str) -> (r: String)
    ensures
        r@ == spec_cover_entry_name(ext@),
{
    let mut chars = str_chars("000_cover.");
    let e = str_chars(ext);
    push_chars(&mut chars, &e);
    chars_to_string(&chars)
}

/// One XML element: `<tag>content</tag>` followed by a newline.
pub open spec fn spec_xml_element(tag: Seq<char>, content: Seq<char>) -> Seq<char> {
    "<"@ + tag + ">"@ + content + "</"@ + tag + ">"@ + "\n"@
}

/// Appends `<tag>content</tag>` and a newline to `out`.
fn push_xml_element(out: &mut Vec<char>, tag: &str, content: &Vec<char>)
    ensures
        final(out)@ == old(out)@ + spec_xml_element(tag@, content@),
{
    let t = str_chars(tag);
    out.push('<');
    push_chars(out, &t);
    out.push('>');
    push_chars(out, content);
    out.push('<');
    out.push('/');
    push_chars(out, &t);
    out.push('>');
    out.push('\n');
    proof {
        reveal_strlit("<");
        reveal_strlit(">");
        reveal_strlit("</");
        reveal_strlit("\n");
        assert(out@ =~= old(out)@ + spec_xml_element(tag@, content@));
    }
}

/// The text of an optional field, empty when absent.
pub open spec fn spec_opt_text(o: Option<String>) -> Seq<char> {
    match o {
        Option::Some(s) => s@,
        Option::None => Seq::empty(),
    }
}

/// Texts joined by a separator.
pub open spec fn spec_join(items: Seq<Seq<char>>, sep: Seq<char>) -> Seq<char>
    decreases items.len(),
{
    if items.len() == 0 {
        Seq::empty()
    } else if items.len() == 1 {
        items[0]
    } else {
        spec_join(items.drop_last(), sep) + sep + items.last()
    }
}

/// Joins strings with a separator.
pub fn join_strings(items: &Vec<String>, sep: &str) -> (r: Vec<char>)
    ensures
        r@ == spec_join(items@.map_values(|s: String| s@), sep@),
{
    let mut out: Vec<char> = Vec::new();
    let mut i: usize = 0;
    proof {
        assert(items@.take(0).map_values(|s: String| s@) =~= Seq::<Seq<char>>::empty());
    }
    while i < items.len()
        invariant
            i <= items@.len(),
            out@ == spec_join(items@.take(i as int).map_values(|s: String| s@), sep@),
        decreases items@.len() - i,
    {
        if i > 0 {
            let s = str_chars(sep);
            push_chars(&mut out, &s);
        }
        let item = str_chars(items[i].as_str());
        push_chars(&mut out, &item);
        i = i + 1;
        proof {
            let mapped = items@.take(i as int).map_values(|s: String| s@);
            assert(mapped.drop_last() =~= items@.take(i as int - 1).map_values(|s: String| s@));
            assert(mapped.last() == items@[i as int - 1]@);
            assert(out@ =~= spec_join(mapped, sep@));
        }
    }
    proof {
        assert(items@.take(items@.len() as int) =~= items@);
    }
    out
}

/// The date embedded into metadata: the release date, or today where none
/// is set.
pub open spec fn spec_date_of(meta: EbookMetadata, today: ReleaseDate) -> ReleaseDate {
    match meta.release_date {
        Option::Some(d) => d,
        Option::None => today,
    }
}

/// A year as text; negative years are written as 0.
pub open spec fn spec_year_text(y: i32) -> Seq<char> {
    spec_number_string(
        if y >= 0 {
            y as int
        } else {
            0
        },
    )
}

/// The custom key/value fields as indented `key: value` lines.
pub open spec fn spec_custom_lines(fields: Seq<(String, String)>) -> Seq<char>
    decreases fields.len(),
{
    if fields.len() == 0 {
        Seq::empty()
    } else {
        spec_custom_lines(fields.drop_last()) + "    "@ + spec_escape_xml(fields.last().0@)
            + ": "@ + spec_escape_xml(fields.last().1@) + "\n"@
    }
}

/// The archive container's metadata document, element by element: title,
/// series, volume number, summary, the author list under each creator role,
/// publisher, genre, web link, page count, language, release date, and a
/// notes block with tags, the custom fields and the chapter titles.  Every
/// text is XML-escaped.
pub open spec fn spec_comic_info_xml(
    meta: EbookMetadata,
    volume_number: int,
    total_pages: int,
    chapter_titles: Seq<String>,
    today: ReleaseDate,
) -> Seq<char> {
    let d = spec_date_of(meta, today);
    let authors = spec_escape_xml(spec_join(meta.authors@.map_values(|s: String| s@), ", "@));
    "<?xml version=\"1.0\" encoding=\"utf-8\"?>\n<ComicInfo>\n"@ + spec_xml_element(
        "Title"@,
        spec_escape_xml(meta.title@),
    ) + spec_xml_element("Series"@, spec_escape_xml(spec_opt_text(meta.series)))
        + spec_xml_element("Number"@, spec_number_string(volume_number)) + spec_xml_element(
        "Summary"@,
        spec_escape_xml(spec_opt_text(meta.description)),
    ) + spec_xml_element("Writer"@, authors) + spec_xml_element("Penciller"@, authors)
        + spec_xml_element("Inker"@, authors) + spec_xml_element("Colorist"@, authors)
        + spec_xml_element("Letterer"@, authors) + spec_xml_element(
        "Publisher"@,
        spec_escape_xml(spec_opt_text(meta.publisher)),
    ) + spec_xml_element("Genre"@, spec_escape_xml(spec_opt_text(meta.genre)))
        + spec_xml_element("Web"@, spec_escape_xml(spec_opt_text(meta.web))) + spec_xml_element(
        "PageCount"@,
        spec_number_string(total_pages),
    ) + spec_xml_element("Language"@, spec_escape_xml(meta.language@)) + spec_xml_element(
        "Year"@,
        spec_year_text(d.year),
    ) + spec_xml_element("Month"@, spec_number_string(d.month as int)) + spec_xml_element(
        "Day"@,
        spec_number_string(d.day as int),
    ) + spec_xml_element(
        "Notes"@,
        "Tags: "@ + spec_escape_xml(spec_join(meta.tags@.map_values(|s: String| s@), ", "@))
            + "\n"@ + spec_custom_lines(meta.custom_fields@) + "Chapters: "@ + spec_escape_xml(
            spec_join(chapter_titles.map_values(|s: String| s@), ", "@),
        ),
    ) + "</ComicInfo>\n"@
}

/// Escapes an optional text.
fn escape_opt(o: &Option<String>) -> (r: Vec<char>)
    ensures
        r@ == spec_escape_xml(spec_opt_text(*o)),
{
    match o {
        Some(s) => {
            let chars = str_chars(s.as_str());
            escape_xml_chars(&chars)
        },
        None => {
            let out: Vec<char> = Vec::new();
            proof {
                assert(out@ =~= spec_escape_xml(Seq::<char>::empty()));
            }
            out
        },
    }
}

/// Escapes a joined list.
fn escape_join(items: &Vec<String>, sep: &str) -> (r: Vec<char>)
    ensures
        r@ == spec_escape_xml(spec_join(items@.map_values(|s: String| s@), sep@)),
{
    let joined = join_strings(items, sep);
    escape_xml_chars(&joined)
}

/// Builds the archive container's metadata document.
#[verifier::rlimit(80)]
#[verifier::spinoff_prover]
pub fn comic_info_xml(
    meta: &EbookMetadata,
    volume_number: usize,
    total_pages: usize,
    chapter_titles: &Vec<String>,
    today: ReleaseDate,
) -> (r: String)
    ensures
        r@ == spec_comic_info_xml(
            *meta,
            volume_number as int,
            total_pages as int,
            chapter_titles@,
            today,
        ),
{
    let date = match meta.release_date {
        Some(d) => d,
        None => today,
    };
    let authors = escape_join(&meta.authors, ", ");
    let mut out = str_chars("<?xml version=\"1.0\" encoding=\"utf-8\"?>\n<ComicInfo>\n");
    let title_chars = str_chars(meta.title.as_str());
    let esc_title = escape_xml_chars(&title_chars);
    push_xml_element(&mut out, "Title", &esc_title);
    let esc_series = escape_opt(&meta.series);
    push_xml_element(&mut out, "Series", &esc_series);
    let number_text = number_chars(volume_number);
    push_xml_element(&mut out, "Number", &number_text);
    let esc_desc = escape_opt(&meta.description);
    push_xml_element(&mut out, "Summary", &esc_desc);
    push_xml_element(&mut out, "Writer", &authors);
    push_xml_element(&mut out, "Penciller", &authors);
    push_xml_element(&mut out, "Inker", &authors);
    push_xml_element(&mut out, "Colorist", &authors);
    push_xml_element(&mut out, "Letterer", &authors);
    let esc_pub = escape_opt(&meta.publisher);
    push_xml_element(&mut out, "Publisher", &esc_pub);
    let esc_genre = escape_opt(&meta.genre);
    push_xml_element(&mut out, "Genre", &esc_genre);
    let esc_web = escape_opt(&meta.web);
    push_xml_element(&mut out, "Web", &esc_web);
    let pages_text = number_chars(total_pages);
    push_xml_element(&mut out, "PageCount", &pages_text);
    let lang_chars = str_chars(meta.language.as_str());
    let esc_lang = escape_xml_chars(&lang_chars);
    push_xml_element(&mut out, "Language", &esc_lang);
    let year_text = if date.year >= 0 {
        number_chars(date.year as usize)
    } else {
        number_chars(0)
    };
    push_xml_element(&mut out, "Year", &year_text);
    let month_text = number_chars(date.month as usize);
    push_xml_element(&mut out, "Month", &month_text);
    let day_text = number_chars(date.day as usize);
    push_xml_element(&mut out, "Day", &day_text);
    let mut notes = str_chars("Tags: ");
    let esc_tags = escape_join(&meta.tags, ", ");
    push_chars(&mut notes, &esc_tags);
    notes.push('\n');
    proof {
        reveal_strlit("\n");
        assert(notes@ =~= "Tags: "@ + spec_escape_xml(
            spec_join(meta.tags@.map_values(|s: String| s@), ", "@),
        ) + "\n"@);
    }
    let mut f: usize = 0;
    while f < meta.custom_fields.len()
        invariant
            f <= meta.custom_fields@.len(),
            notes@ == "Tags: "@ + spec_escape_xml(
                spec_join(meta.tags@.map_values(|s: String| s@), ", "@),
            ) + "\n"@ + spec_custom_lines(meta.custom_fields@.take(f as int)),
        decreases meta.custom_fields@.len() - f,
    {
        let indent = str_chars("    ");
        push_chars(&mut notes, &indent);
        let key_chars = str_chars(meta.custom_fields[f].0.as_str());
        let esc_key = escape_xml_chars(&key_chars);
        push_chars(&mut notes, &esc_key);
        notes.push(':');
        notes.push(' ');
        let value_chars = str_chars(meta.custom_fields[f].1.as_str());
        let esc_value = escape_xml_chars(&value_chars);
        push_chars(&mut notes, &esc_value);
        notes.push('\n');
        f = f + 1;
        proof {
            reveal_strlit(": ");
            reveal_strlit("\n");
            assert(meta.custom_fields@.take(f as int).drop_last() =~= meta.custom_fields@.take(
                f as int - 1,
            ));
            assert(meta.custom_fields@.take(f as int).last() == meta.custom_fields@[f as int - 1]);
            assert(notes@ =~= "Tags: "@ + spec_escape_xml(
                spec_join(meta.tags@.map_values(|s: String| s@), ", "@),
            ) + "\n"@ + spec_custom_lines(meta.custom_fields@.take(f as int)));
        }
    }
    proof {
        assert(meta.custom_fields@.take(meta.custom_fields@.len() as int)
            =~= meta.custom_fields@);
    }
    let chapters_word = str_chars("Chapters: ");
    push_chars(&mut notes, &chapters_word);
    let esc_chapters = escape_join(chapter_titles, ", ");
    push_chars(&mut notes, &esc_chapters);
    push_xml_element(&mut out, "Notes", &notes);
    let tail = str_chars("</ComicInfo>\n");
    push_chars(&mut out, &tail);
    proof {
        assert(out@ =~= spec_comic_info_xml(
            *meta,
            volume_number as int,
            total_pages as int,
            chapter_titles@,
            today,
        ));
    }
    chars_to_string(&out)
}

/// The page document of the reflowable container: a minimal XHTML page
/// whose body is the image, with the page title as document title and
/// alternative text.
pub open spec fn spec_xhtml(src: Seq<char>, title: Seq<char>) -> Seq<char> {
    "<?xml version=\"1.0\" encoding=\"UTF-8\"?>\n<html xmlns=\"http://www.w3.org/1999/xhtml\">\n<head><title>"@
        + title + "</title></head>\n<body><img src=\""@ + src + "\" alt=\""@ + title
        + "\"/></body>\n</html>\n"@
}

/// Generates the XHTML page that shows one image.
pub fn generate_xhtml(image_source: &str, page_title: &str) -> (r: Result<String, Error>)
    ensures
        r matches Ok(s) && s@ == spec_xhtml(image_source@, page_title@),
{
    let mut out = str_chars(
        "<?xml version=\"1.0\" encoding=\"UTF-8\"?>\n<html xmlns=\"http://www.w3.org/1999/xhtml\">\n<head><title>",
    );
    let title = str_chars(page_title);
    push_chars(&mut out, &title);
    let mid = str_chars("</title></head>\n<body><img src=\"");
    push_chars(&mut out, &mid);
    let src = str_chars(image_source);
    push_chars(&mut out, &src);
    let alt = str_chars("\" alt=\"");
    push_chars(&mut out, &alt);
    push_chars(&mut out, &title);
    let tail = str_chars("\"/></body>\n</html>\n");
    push_chars(&mut out, &tail);
    proof {
        assert(out@ =~= spec_xhtml(image_source@, page_title@));
    }
    Ok(chars_to_string(&out))
}

/// The display title of a chapter: the name of the folder that holds its
/// first page, or `Untitled Chapter` where there is none.
pub open spec fn spec_chapter_title(chapter: Seq<String>) -> Seq<char> {
    if chapter.len() == 0 {
        "Untitled Chapter"@
    } else {
        match spec_file_name(spec_parent(chapter[0]@)) {
            Option::Some(t) => t,
            Option::None => "Untitled Chapter"@,
        }
    }
}

/// Computes a chapter's display title.
pub fn chapter_title(chapter: &Vec<String>) -> (r: String)
    ensures
        r@ == spec_chapter_title(chapter@),
{
    if chapter.len() == 0 {
        return "Untitled Chapter".to_owned();
    }
    let chars = str_chars(chapter[0].as_str());
    let fns = crate::path_utils::file_name_start_exec(&chars);
    let parent_chars: Vec<char> = if fns == 0 {
        Vec::new()
    } else {
        char_range(&chars, 0, fns - 1)
    };
    proof {
        assert(parent_chars@ =~= spec_parent(chapter@[0]@));
    }
    let parent = chars_to_string(&parent_chars);
    match crate::path_utils::get_file_name_safe(parent.as_str()) {
        Ok(name) => name,
        Err(_) => "Untitled Chapter".to_owned(),
    }
}

/// How cover images are chosen for the generated volumes.
#[derive(Debug, Clone)]
pub enum CoverOptions {
    /// No custom cover: the archive container gets none, the reflowable
    /// container uses the first page of the first chapter.
    NoCover,
    /// One image reused as the cover of every volume.
    Single(String),
    /// A cover per 0-based volume index; volumes without an entry get none.
    PerVolume(Vec<(usize, String)>),
}

/// The first cover registered for a volume index.
pub open spec fn spec_cover_lookup(entries: Seq<(usize, String)>, index: int) -> Option<
    Seq<char>,
>
    decreases entries.len(),
{
    if entries.len() == 0 {
        Option::None
    } else if entries[0].0 == index {
        Option::Some(entries[0].1@)
    } else {
        spec_cover_lookup(entries.drop_first(), index)
    }
}

/// The cover chosen for the volume with the given 0-based index.
pub open spec fn spec_cover_for(c: CoverOptions, index: int) -> Option<Seq<char>> {
    match c {
        CoverOptions::NoCover => Option::None,
        CoverOptions::Single(p) => Option::Some(p@),
        CoverOptions::PerVolume(m) => spec_cover_lookup(m@, index),
    }
}

/// Picks the cover for one volume.
pub fn cover_for(c: &CoverOptions, index: usize) -> (r: Option<String>)
    ensures
        match r {
            Some(p) => spec_cover_for(*c, index as int) == Some(p@),
            None => spec_cover_for(*c, index as int) is None,
        },
{
    match c {
        CoverOptions::NoCover => None,
        CoverOptions::Single(p) => Some(p.clone()),
        CoverOptions::PerVolume(m) => {
            let mut i: usize = 0;
            proof {
                assert(m@.skip(0) =~= m@);
                assert(*c matches CoverOptions::PerVolume(mm) && mm == *m);
                assert(spec_cover_for(*c, index as int) == spec_cover_lookup(m@, index as int));
            }
            while i < m.len()
                invariant
                    i <= m@.len(),
                    spec_cover_for(*c, index as int) == spec_cover_lookup(m@, index as int),
                    spec_cover_lookup(m@, index as int) == spec_cover_lookup(
                        m@.skip(i as int),
                        index as int,
                    ),
                decreases m@.len() - i,
            {
                if m[i].0 == index {
                    proof {
                        assert(m@.skip(i as int).len() > 0);
                        assert(m@.skip(i as int)[0] == m@[i as int]);
                        assert(spec_cover_lookup(m@.skip(i as int), index as int) == Some(
                            m@[i as int].1@,
                        ));
                    }
                    let cover = m[i].1.clone();
                    proof {
                        assert(cover@ == m@[i as int].1@);
                    }
                    return Some(cover);
                }
                i = i + 1;
                proof {
                    assert(m@.skip(i as int - 1).drop_first() =~= m@.skip(i as int));
                    assert(m@.skip(i as int - 1)[0] == m@[i as int - 1]);
                }
            }
            None
        },
    }
}

/// Whether a volume holds no page at all.
pub open spec fn spec_volume_empty(volume: Seq<Vec<String>>) -> bool {
    forall|j: int| 0 <= j < volume.len() ==> (#[trigger] volume[j])@.len() == 0
}

/// Whether there is nothing to generate: no volumes, or none with a page.
pub open spec fn spec_no_volumes(volumes: Seq<Vec<Vec<String>>>) -> bool {
    forall|i: int| 0 <= i < volumes.len() ==> spec_volume_empty((#[trigger] volumes[i])@)
}

/// Whether a volume holds at least one page.
fn volume_has_pages(volume: &Vec<Vec<String>>) -> (r: bool)
    ensures
        r == !spec_volume_empty(volume@),
{
    let mut j: usize = 0;
    while j < volume.len()
        invariant
            j <= volume@.len(),
            forall|l: int| 0 <= l < j ==> (#[trigger] volume@[l])@.len() == 0,
        decreases volume@.len() - j,
    {
        if volume[j].len() > 0 {
            proof {
                assert((volume@[j as int])@.len() > 0);
            }
            return true;
        }
        j = j + 1;
    }
    proof {
        assert(spec_volume_empty(volume@));
    }
    false
}

/// Everything one generation task needs for one output file.
#[derive(Debug, Clone)]
pub struct VolumePlan {
    /// The sanitized file name, without extension.
    pub file_name_base: String,
    /// The 1-based display number of this volume.
    pub volume_number: usize,
    /// The chapters of this volume, each an ordered list of page paths.
    pub chapters: Vec<Vec<String>>,
    /// One display title per chapter.
    pub chapter_titles: Vec<String>,
    /// The number of pages across all chapters.
    pub total_pages: usize,
    /// The custom cover chosen for this volume, if any.
    pub cover_path: Option<String>,
}

/// Plans the generation of every volume: file names, titles, page counts
/// and covers, with nothing written yet.
///
/// Fails — before any plan exists — when no volume holds a page, and only
/// otherwise when a volume's page count exceeds the platform limit; on
/// every other input planning succeeds.  Each plan `i` describes volume
/// `i` unchanged, under display number `i + 1`.
pub fn plan_generation(
    volumes: Vec<Vec<Vec<String>>>,
    title: &str,
    separator: &str,
    covers: &CoverOptions,
) -> (r: Result<Vec<VolumePlan>, Error>)
    ensures
        spec_no_volumes(volumes@) ==> (r matches Err(e) && (e matches Error::Other(m) && m@
            == "No volumes found for generation."@)),
        !spec_no_volumes(volumes@) && (forall|i: int|
            0 <= i < volumes@.len() ==> spec_page_total((#[trigger] volumes@[i])@)
                <= usize::MAX) ==> r is Ok,
        r matches Ok(plans) ==> !spec_no_volumes(volumes@) && plans@.len() == volumes@.len()
            && forall|i: int|
            0 <= i < plans@.len() ==> {
                let p = #[trigger] plans@[i];
                &&& p.file_name_base@ == spec_volume_file_name(
                    title@,
                    separator@,
                    i + 1,
                    volumes@.len() > 1,
                )
                &&& p.volume_number == i + 1
                &&& p.chapters == volumes@[i]
                &&& p.chapter_titles@.map_values(|s: String| s@) == volumes@[i]@.map_values(
                    |c: Vec<String>| spec_chapter_title(c@),
                )
                &&& p.total_pages == spec_page_total(volumes@[i]@)
                &&& (match p.cover_path {
                    Option::Some(s) => spec_cover_for(*covers, i) == Option::Some(s@),
                    Option::None => spec_cover_for(*covers, i) is None,
                })
            },
        r matches Err(e) ==> e is Other,
{
    // Reject a doomed run before planning anything.
    let mut any_pages = false;
    let mut i: usize = 0;
    while i < volumes.len()
        invariant
            i <= volumes@.len(),
            !any_pages ==> forall|k: int|
                0 <= k < i ==> spec_volume_empty((#[trigger] volumes@[k])@),
            any_pages ==> !spec_no_volumes(volumes@),
        decreases volumes@.len() - i,
    {
        if volume_has_pages(&volumes[i]) {
            any_pages = true;
            proof {
                assert(!spec_volume_empty(volumes@[i as int]@));
            }
        }
        i = i + 1;
    }
    if !any_pages {
        proof {
            assert(spec_no_volumes(volumes@));
        }
        return Err(Error::Other("No volumes found for generation.".to_owned()));
    }
    let total_volumes = volumes.len();
    let ghost orig = volumes@;
    let mut rest = volumes;
    let mut plans: Vec<VolumePlan> = Vec::new();
    let mut v: usize = 0;
    proof {
        assert(rest@ =~= orig.skip(0));
    }
    while rest.len() > 0
        invariant
            v <= orig.len(),
            orig == volumes@,
            orig.len() == total_volumes,
            rest@ == orig.skip(v as int),
            plans@.len() == v,
            forall|i: int|
                0 <= i < v ==> {
                    let p = #[trigger] plans@[i];
                    &&& p.file_name_base@ == spec_volume_file_name(
                        title@,
                        separator@,
                        i + 1,
                        orig.len() > 1,
                    )
                    &&& p.volume_number == i + 1
                    &&& p.chapters == orig[i]
                    &&& p.chapter_titles@.map_values(|s: String| s@) == orig[i]@.map_values(
                        |c: Vec<String>| spec_chapter_title(c@),
                    )
                    &&& p.total_pages == spec_page_total(orig[i]@)
                    &&& (match p.cover_path {
                        Option::Some(s) => spec_cover_for(*covers, i) == Option::Some(s@),
                        Option::None => spec_cover_for(*covers, i) is None,
                    })
                },
        decreases rest@.len(),
    {
        let volume = rest.remove(0);
        proof {
            assert(orig.skip(v as int).remove(0) =~= orig.skip(v as int + 1));
            assert(volume == orig[v as int]);
        }
        let name = volume_file_name(title, separator, v + 1, total_volumes > 1);
        let mut titles: Vec<String> = Vec::new();
        let mut total_pages: usize = 0;
        let mut c: usize = 0;
        while c < volume.len()
            invariant
                c <= volume@.len(),
                orig == volumes@,
                v < orig.len(),
                volume == orig[v as int],
                titles@.len() == c,
                forall|jj: int|
                    0 <= jj < c ==> (#[trigger] titles@[jj])@ == spec_chapter_title(
                        volume@[jj]@,
                    ),
                total_pages == spec_page_total(volume@.take(c as int)),
            decreases volume@.len() - c,
        {
            let t = chapter_title(&volume[c]);
            titles.push(t);
            total_pages = match total_pages.checked_add(volume[c].len()) {
                Some(tp) => tp,
                None => {
                    proof {
                        assert(volume@.take(c as int + 1).drop_last() =~= volume@.take(c as int));
                        assert(volume@.take(c as int + 1).last() == volume@[c as int]);
                        assert(spec_page_total(volume@.take(c as int + 1)) > usize::MAX);
                        crate::hozon::lemma_page_total_prefix(volume@, c as int + 1);
                        assert(spec_page_total((volumes@[v as int])@) > usize::MAX);
                    }
                    return Err(Error::Other(
                        "volume page count exceeds platform limits".to_owned(),
                    ));
                },
            };
            c = c + 1;
            proof {
                assert(volume@.take(c as int).drop_last() =~= volume@.take(c as int - 1));
                assert(volume@.take(c as int).last() == volume@[c as int - 1]);
            }
        }
        proof {
            assert(volume@.take(volume@.len() as int) =~= volume@);
            assert(titles@.map_values(|s: String| s@) =~= volume@.map_values(
                |ch: Vec<String>| spec_chapter_title(ch@),
            ));
        }
        let cover = cover_for(covers, v);
        plans.push(
            VolumePlan {
                file_name_base: name,
                volume_number: v + 1,
                chapters: volume,
                chapter_titles: titles,
                total_pages,
                cover_path: cover,
            },
        );
        v = v + 1;
    }
    proof {
        assert(!spec_no_volumes(orig));
    }
    Ok(plans)
}

/// The text pairs of a key/value list.
pub open spec fn pairs_text_view(s: Seq<(String, String)>) -> Seq<(Seq<char>, Seq<char>)> {
    s.map_values(|p: (String, String)| (p.0@, p.1@))
}

/// Appends one key/value pair.
fn push_pair(out: &mut Vec<(String, String)>, key: &str, value: String)
    ensures
        pairs_text_view(final(out)@) == pairs_text_view(old(out)@) + seq![(key@, value@)],
{
    let ghost before = out@;
    let k = key.to_owned();
    let ghost value_text = value@;
    out.push((k, value));
    proof {
        assert(pairs_text_view(out@) =~= pairs_text_view(before) + seq![(key@, value_text)]);
    }
}

/// The full display title of one reflowable volume: the series, a dash, and
/// the title where a series is set; then ` Vol N` where a volume number is
/// given.
pub open spec fn spec_full_title(meta: EbookMetadata, volume_number: Option<usize>) -> Seq<char> {
    let base = match meta.series {
        Option::Some(s) => s@ + " - "@ + meta.title@,
        Option::None => meta.title@,
    };
    match volume_number {
        Option::Some(n) => base + " Vol "@ + spec_number_string(n as int),
        Option::None => base,
    }
}

/// A date as `YYYY-MM-DD`, zero-padded.
pub open spec fn spec_date_string(d: ReleaseDate) -> Seq<char> {
    spec_zero_pad(spec_year_text(d.year), 4) + "-"@ + spec_zero_pad(
        spec_number_string(d.month as int),
        2,
    ) + "-"@ + spec_zero_pad(spec_number_string(d.day as int), 2)
}

/// The pair an optional field contributes, nothing when it is absent.
pub open spec fn spec_opt_pair(key: Seq<char>, o: Option<String>) -> Seq<(Seq<char>, Seq<char>)> {
    match o {
        Option::Some(s) => seq![(key, s@)],
        Option::None => Seq::empty(),
    }
}

/// One pair per item, all under the same key.
pub open spec fn spec_each_pair(key: Seq<char>, items: Seq<String>) -> Seq<
    (Seq<char>, Seq<char>),
> {
    items.map_values(|s: String| (key, s@))
}

/// The metadata pairs of the reflowable container, in writing order: the
/// full title; the series where it differs from the title; one creator per
/// author; the reading direction; description, publisher, rights and
/// identifier where set; the release date as `YYYY-MM-DD` where set; one
/// subject per tag; and the custom fields as they are.
pub open spec fn spec_epub_metadata_pairs(
    meta: EbookMetadata,
    volume_number: Option<usize>,
    direction: Direction,
) -> Seq<(Seq<char>, Seq<char>)> {
    seq![("title"@, spec_full_title(meta, volume_number))] + (match meta.series {
        Option::Some(s) => if s@ != meta.title@ {
            seq![("series"@, s@)]
        } else {
            Seq::empty()
        },
        Option::None => Seq::empty(),
    }) + spec_each_pair("creator"@, meta.authors@) + seq![
        ("direction"@, if direction is Ltr { "ltr"@ } else { "rtl"@ }),
    ] + spec_opt_pair("description"@, meta.description) + spec_opt_pair(
        "publisher"@,
        meta.publisher,
    ) + spec_opt_pair("rights"@, meta.rights) + spec_opt_pair("identifier"@, meta.identifier) + (
    match meta.release_date {
        Option::Some(d) => seq![("date"@, spec_date_string(d))],
        Option::None => Seq::empty(),
    }) + spec_each_pair("subject"@, meta.tags@) + pairs_text_view(meta.custom_fields@)
}

/// Appends the pair of an optional field, if it is set.
fn push_opt_pair(out: &mut Vec<(String, String)>, key: &str, o: &Option<String>)
    ensures
        pairs_text_view(final(out)@) == pairs_text_view(old(out)@) + spec_opt_pair(key@, *o),
{
    match o {
        Some(s) => {
            push_pair(out, key, s.clone());
        },
        None => {
            proof {
                assert(pairs_text_view(out@) =~= pairs_text_view(out@) + Seq::<
                    (Seq<char>, Seq<char>),
                >::empty());
            }
        },
    }
}

/// Appends one pair per item, all under the same key.
fn push_each_pair(out: &mut Vec<(String, String)>, key: &str, items: &Vec<String>)
    ensures
        pairs_text_view(final(out)@) == pairs_text_view(old(out)@) + spec_each_pair(
            key@,
            items@,
        ),
{
    let mut i: usize = 0;
    proof {
        assert(pairs_text_view(out@) =~= pairs_text_view(out@) + spec_each_pair(
            key@,
            items@.take(0),
        ));
    }
    while i < items.len()
        invariant
            i <= items@.len(),
            pairs_text_view(out@) == pairs_text_view(old(out)@) + spec_each_pair(
                key@,
                items@.take(i as int),
            ),
        decreases items@.len() - i,
    {
        push_pair(out, key, items[i].clone());
        i = i + 1;
        proof {
            assert(spec_each_pair(key@, items@.take(i as int)) =~= spec_each_pair(
                key@,
                items@.take(i as int - 1),
            ).push((key@, items@[i as int - 1]@)));
        }
    }
    proof {
        assert(items@.take(items@.len() as int) =~= items@);
    }
}

/// Builds the full display title of one reflowable volume.
pub fn full_title(meta: &EbookMetadata, volume_number: Option<usize>) -> (r: String)
    ensures
        r@ == spec_full_title(*meta, volume_number),
{
    let mut chars: Vec<char> = Vec::new();
    match &meta.series {
        Some(s) => {
            let sc = str_chars(s.as_str());
            push_chars(&mut chars, &sc);
            let dash = str_chars(" - ");
            push_chars(&mut chars, &dash);
            let tc = str_chars(meta.title.as_str());
            push_chars(&mut chars, &tc);
        },
        None => {
            let tc = str_chars(meta.title.as_str());
            push_chars(&mut chars, &tc);
            proof {
                assert(chars@ =~= meta.title@);
            }
        },
    }
    match volume_number {
        Some(n) => {
            let word = str_chars(" Vol ");
            push_chars(&mut chars, &word);
            let digits = number_chars(n);
            push_chars(&mut chars, &digits);
        },
        None => {},
    }
    proof {
        assert(chars@ =~= spec_full_title(*meta, volume_number));
    }
    chars_to_string(&chars)
}

/// Builds the `YYYY-MM-DD` text of a date.
pub fn date_string(d: ReleaseDate) -> (r: String)
    ensures
        r@ == spec_date_string(d),
{
    let year_digits = if d.year >= 0 {
        number_chars(d.year as usize)
    } else {
        number_chars(0)
    };
    let mut chars = zero_pad_chars(year_digits, 4);
    chars.push('-');
    let month = zero_pad_chars(number_chars(d.month as usize), 2);
    push_chars(&mut chars, &month);
    chars.push('-');
    let day = zero_pad_chars(number_chars(d.day as usize), 2);
    push_chars(&mut chars, &day);
    proof {
        reveal_strlit("-");
        assert(chars@ =~= spec_date_string(d));
    }
    chars_to_string(&chars)
}

/// Computes the metadata pairs of the reflowable container.
pub fn epub_metadata_pairs(
    meta: &EbookMetadata,
    volume_number: Option<usize>,
    direction: Direction,
) -> (r: Vec<(String, String)>)
    ensures
        pairs_text_view(r@) == spec_epub_metadata_pairs(*meta, volume_number, direction),
{
    let mut out: Vec<(String, String)> = Vec::new();
    let t = full_title(meta, volume_number);
    push_pair(&mut out, "title", t);
    proof {
        assert(pairs_text_view(out@) =~= Seq::<(Seq<char>, Seq<char>)>::empty() + seq![
            ("title"@, spec_full_title(*meta, volume_number)),
        ]);
    }
    match &meta.series {
        Some(s) => {
            if !s.eq(&meta.title) {
                push_pair(&mut out, "series", s.clone());
            } else {
                proof {
                    assert(pairs_text_view(out@) =~= pairs_text_view(out@) + Seq::<
                        (Seq<char>, Seq<char>),
                    >::empty());
                }
            }
        },
        None => {
            proof {
                assert(pairs_text_view(out@) =~= pairs_text_view(out@) + Seq::<
                    (Seq<char>, Seq<char>),
                >::empty());
            }
        },
    }
    push_each_pair(&mut out, "creator", &meta.authors);
    let dir = direction.to_string();
    push_pair(&mut out, "direction", dir);
    push_opt_pair(&mut out, "description", &meta.description);
    push_opt_pair(&mut out, "publisher", &meta.publisher);
    push_opt_pair(&mut out, "rights", &meta.rights);
    push_opt_pair(&mut out, "identifier", &meta.identifier);
    match meta.release_date {
        Some(d) => {
            let ds = date_string(d);
            push_pair(&mut out, "date", ds);
        },
        None => {
            proof {
                assert(pairs_text_view(out@) =~= pairs_text_view(out@) + Seq::<
                    (Seq<char>, Seq<char>),
                >::empty());
            }
        },
    }
    push_each_pair(&mut out, "subject", &meta.tags);
    let mut f: usize = 0;
    let ghost before_custom = pairs_text_view(out@);
    while f < meta.custom_fields.len()
        invariant
            f <= meta.custom_fields@.len(),
            pairs_text_view(out@) == before_custom + pairs_text_view(
                meta.custom_fields@.take(f as int),
            ),
        decreases meta.custom_fields@.len() - f,
    {
        let key = meta.custom_fields[f].0.clone();
        let value = meta.custom_fields[f].1.clone();
        push_pair(&mut out, key.as_str(), value);
        f = f + 1;
        proof {
            assert(pairs_text_view(meta.custom_fields@.take(f as int)) =~= pairs_text_view(
                meta.custom_fields@.take(f as int - 1),
            ).push((meta.custom_fields@[f as int - 1].0@, meta.custom_fields@[f as int - 1].1@)));
        }
    }
    proof {
        assert(meta.custom_fields@.take(meta.custom_fields@.len() as int)
            =~= meta.custom_fields@);
        assert(pairs_text_view(out@) =~= spec_epub_metadata_pairs(*meta, volume_number, direction));
    }
    out
}

/// The internal image name of one reflowable page: under the chapter's
/// directory, zero-padded, with the page's own extension.
pub open spec fn spec_epub_image_name(chapter: int, page: int, ext: Seq<char>) -> Seq<char> {
    "chapters/chapter_"@ + spec_zero_pad(spec_number_string(chapter), 3) + "/page_"@
        + spec_zero_pad(spec_number_string(page), 3) + "."@ + ext
}

/// Computes the internal image name of one reflowable page.
pub fn epub_image_name(chapter: usize, page: usize, ext: &str) -> (r: String)
    ensures
        r@ == spec_epub_image_name(chapter as int, page as int, ext@),
{
    let mut chars = str_chars("chapters/chapter_");
    let c = zero_pad_chars(number_chars(chapter), 3);
    push_chars(&mut chars, &c);
    let mid = str_chars("/page_");
    push_chars(&mut chars, &mid);
    let p = zero_pad_chars(number_chars(page), 3);
    push_chars(&mut chars, &p);
    chars.push('.');
    let e = str_chars(ext);
    push_chars(&mut chars, &e);
    proof {
        reveal_strlit(".");
        assert(chars@ =~= spec_epub_image_name(chapter as int, page as int, ext@));
    }
    chars_to_string(&chars)
}

/// The document name of one reflowable page.
pub open spec fn spec_epub_xhtml_name(chapter: int, page: int) -> Seq<char> {
    "chapters/chapter_"@ + spec_zero_pad(spec_number_string(chapter), 3) + "/page_"@
        + spec_zero_pad(spec_number_string(page), 3) + ".xhtml"@
}

/// Computes the document name of one reflowable page.
pub fn epub_xhtml_name(chapter: usize, page: usize) -> (r: String)
    ensures
        r@ == spec_epub_xhtml_name(chapter as int, page as int),
{
    let mut chars = str_chars("chapters/chapter_");
    let c = zero_pad_chars(number_chars(chapter), 3);
    push_chars(&mut chars, &c);
    let mid = str_chars("/page_");
    push_chars(&mut chars, &mid);
    let p = zero_pad_chars(number_chars(page), 3);
    push_chars(&mut chars, &p);
    let tail = str_chars(".xhtml");
    push_chars(&mut chars, &tail);
    proof {
        assert(chars@ =~= spec_epub_xhtml_name(chapter as int, page as int));
    }
    chars_to_string(&chars)
}

/// The display title of one reflowable page: the chapter title and the
/// page's number.
pub open spec fn spec_epub_page_title(chapter_title: Seq<char>, page: int) -> Seq<char> {
    chapter_title + " - Page "@ + spec_number_string(page)
}

/// Computes the display title of one reflowable page.
pub fn epub_page_title(chapter_title: &str, page: usize) -> (r: String)
    ensures
        r@ == spec_epub_page_title(chapter_title@, page as int),
{
    let mut chars = str_chars(chapter_title);
    let word = str_chars(" - Page ");
    push_chars(&mut chars, &word);
    let digits = number_chars(page);
    push_chars(&mut chars, &digits);
    proof {
        assert(chars@ =~= spec_epub_page_title(chapter_title@, page as int));
    }
    chars_to_string(&chars)
}

/// The cover the reflowable container uses when no override is given: the
/// first page of the first chapter, or none where there is no such page.
pub fn fallback_cover(chapters: &Vec<Vec<String>>) -> (r: Option<String>)
    ensures
        match r {
            Option::Some(p) => chapters@.len() > 0 && chapters@[0]@.len() > 0 && p@
                == chapters@[0]@[0]@,
            Option::None => chapters@.len() == 0 || chapters@[0]@.len() == 0,
        },
{
    if chapters.len() > 0 && chapters[0].len() > 0 {
        Some(chapters[0][0].clone())
    } else {
        None
    }
}

/// The current date in UTC.
///
/// Relies on `chrono::Utc::now` and `chrono::Datelike`: the month is 1 to
/// 12 and the day 1 to 31.  The result depends on the clock, so nothing
/// more is promised.
#[verifier::external_body]
pub fn today_utc() -> (r: ReleaseDate)
    ensures
        1 <= r.month <= 12,
        1 <= r.day <= 31,
{
    let now = chrono::Utc::now();
    ReleaseDate { year: now.year(), month: now.month() as u8, day: now.day() as u8 }
}

} // verus!
