//! Options that customize how a report is rendered.
use vstd::prelude::*;

verus! {

/// Errors of the report library.
#[derive(Debug, Clone, Copy, PartialEq, Eq, Structural)]
pub enum QcError {
    /// The name given for a color map is not that of a known color map.
    InvalidColorMap,
}

/// The color map used when drawing many curves on a single plot.
#[derive(Debug, Clone, Copy, PartialEq, Eq, Structural)]
pub enum QcRenderingColorMap {
    Vulcano,
}

impl Default for QcRenderingColorMap {
    fn default() -> (m: Self)
        ensures
            m == QcRenderingColorMap::Vulcano,
    {
        QcRenderingColorMap::Vulcano
    }
}

/// True for the characters of Unicode's White_Space property, which is what
/// `char::is_whitespace` and `str::trim` go by.
pub open spec fn is_white_space(c: char) -> bool {
    ||| '\u{9}' <= c <= '\u{d}'
    ||| c == ' '
    ||| c == '\u{85}'
    ||| c == '\u{a0}'
    ||| c == '\u{1680}'
    ||| '\u{2000}' <= c <= '\u{200a}'
    ||| c == '\u{2028}'
    ||| c == '\u{2029}'
    ||| c == '\u{202f}'
    ||| c == '\u{205f}'
    ||| c == '\u{3000}'
}

/// `text` without its leading white space.
pub open spec fn trim_start_spec(text: Seq<char>) -> Seq<char>
    decreases text.len(),
{
    if text.len() > 0 && is_white_space(text[0]) {
        trim_start_spec(text.drop_first())
    } else {
        text
    }
}

/// `text` without its trailing white space.
pub open spec fn trim_end_spec(text: Seq<char>) -> Seq<char>
    decreases text.len(),
{
    if text.len() > 0 && is_white_space(text.last()) {
        trim_end_spec(text.drop_last())
    } else {
        text
    }
}

/// What `text` reads once leading and trailing white space are removed.
pub open spec fn trimmed(text: Seq<char>) -> Seq<char> {
    trim_end_spec(trim_start_spec(text))
}

/// Removes leading and trailing white space.
///
/// Calls `str::trim`, which removes the leading and trailing characters of
/// Unicode's White_Space property.
#[verifier::external_body]
fn trim_text<'a>(text: &'a str) -> (r: &'a str)
    ensures
        r@ == trimmed(text@),
{
    text.trim()
}

/// What `text` reads in lower case.
pub uninterp spec fn lowercased(text: Seq<char>) -> Seq<char>;

/// True when every character of `text` is ASCII.
pub open spec fn all_ascii(text: Seq<char>) -> bool {
    forall|i: int| 0 <= i < text.len() ==> (#[trigger] text[i] as u32) < 128
}

/// The ASCII lower case of a character: 'A' to 'Z' become 'a' to 'z', any
/// other character is kept.
pub open spec fn ascii_lower(c: char) -> char {
    if 'A' <= c <= 'Z' {
        ((c as u32) + 32) as char
    } else {
        c
    }
}

/// Lower case version of a text.
///
/// Calls `str::to_lowercase`, whose result depends on the text alone; it is
/// given a name here. Of an ASCII text, the lower case maps 'A' to 'Z' to
/// 'a' to 'z' and keeps every other character, as Unicode's lower case
/// mapping does on ASCII; nothing more is claimed.
#[verifier::external_body]
fn lowercase_text(text: &str) -> (r: String)
    ensures
        r@ == lowercased(text@),
        all_ascii(text@) ==> r@ == text@.map_values(|c: char| ascii_lower(c)),
{
    text.to_lowercase()
}

/// The color map a normalized name designates: "vulcano" is the only one.
pub open spec fn spec_color_map_named(name: Seq<char>) -> Result<QcRenderingColorMap, QcError> {
    if name == "vulcano"@ {
        Ok(QcRenderingColorMap::Vulcano)
    } else {
        Err(QcError::InvalidColorMap)
    }
}

impl QcRenderingColorMap {
    /// The color map a normalized (trimmed, lower case) name designates.
    pub fn named(name: &str) -> (r: Result<QcRenderingColorMap, QcError>)
        ensures
            r == spec_color_map_named(name@),
    {
        let known = "vulcano";
        let n = name.unicode_len();
        let k = known.unicode_len();
        proof {
            reveal_strlit("vulcano");
        }
        if n != k {
            return Err(QcError::InvalidColorMap);
        }
        let mut i: usize = 0;
        while i < n
            invariant
                i <= n,
                n == name@.len(),
                k == known@.len(),
                n == k,
                known@ == "vulcano"@,
                name@.subrange(0, i as int) == known@.subrange(0, i as int),
            decreases n - i,
        {
            if name.get_char(i) != known.get_char(i) {
                return Err(QcError::InvalidColorMap);
            }
            proof {
                assert(name@.subrange(0, i + 1) =~= name@.subrange(0, i as int).push(name@[i as int]));
                assert(known@.subrange(0, i + 1) =~= known@.subrange(0, i as int).push(known@[i as int]));
            }
            i = i + 1;
        }
        proof {
            assert(name@ =~= name@.subrange(0, n as int));
            assert(known@ =~= known@.subrange(0, n as int));
        }
        Ok(QcRenderingColorMap::Vulcano)
    }

    /// Parses a color map name: leading and trailing white space are
    /// ignored, and so is case.
    pub fn from_str(s: &str) -> (r: Result<QcRenderingColorMap, QcError>)
        ensures
            r == spec_color_map_named(lowercased(trimmed(s@))),
            all_ascii(trimmed(s@)) ==> r == spec_color_map_named(
                trimmed(s@).map_values(|c: char| ascii_lower(c)),
            ),
    {
        let trimmed_text = trim_text(s);
        let lower = lowercase_text(trimmed_text);
        QcRenderingColorMap::named(lower.as_str())
    }
}

/// How many plots a page shows.
#[derive(Debug, Clone, Copy, PartialEq, Eq, Structural)]
pub enum QcPlotsPerPage {
    /// One plot per page (large).
    One,
    /// Two plots per page, one above the other (smaller).
    Two,
    /// Four plots per page, two by two (even smaller).
    Four,
}

/// Options to customize how a report is rendered.
#[derive(Debug, Clone, Copy)]
pub struct QcRenderingOptions {
    /// Color map used when plotting data.
    pub color_map: QcRenderingColorMap,
    /// How many plots a page shows.
    pub plots_per_page: QcPlotsPerPage,
    /// Plot the data of different sources (GNSS receivers) in the same plot.
    pub merge_data_sources: bool,
    /// Plot different constellations in the same plot.
    pub merge_constellations: bool,
    /// Plot the data of different publishers (agencies) in the same plot.
    pub merge_data_publishers: bool,
}

impl Default for QcRenderingOptions {
    /// The default color map, one plot per page, nothing merged.
    fn default() -> (o: Self)
        ensures
            o.color_map == QcRenderingColorMap::Vulcano,
            o.plots_per_page == QcPlotsPerPage::One,
            !o.merge_data_sources,
            !o.merge_constellations,
            !o.merge_data_publishers,
    {
        QcRenderingOptions {
            color_map: QcRenderingColorMap::default(),
            plots_per_page: QcPlotsPerPage::One,
            merge_data_sources: false,
            merge_constellations: false,
            merge_data_publishers: false,
        }
    }
}

} // verus!
