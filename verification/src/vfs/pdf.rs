//! Page naming for document formats (PDF and DjVu) that have no entry names
//! of their own: page `n` is exposed as the entry `page_<n>.png`.
use vstd::prelude::*;

use crate::text::{
    chars_of, decimal, decimal_chars, digits_value, ends_with, has_prefix, has_suffix,
    lemma_decimal_digits, owned, parse_i32, parsed_i32, parsed_usize, push_chars, slice_chars,
    starts_with, unsigned_text,
};

verus! {

/// The text between `page_` and `.png` of a synthetic entry name, if `path`
/// has that shape (`strip_prefix("page_")` then `strip_suffix(".png")`).
pub open spec fn page_number_text(path: Seq<char>) -> Option<Seq<char>> {
    if path.len() >= 9 && has_prefix(path, "page_"@) && has_suffix(path, ".png"@) {
        Some(path.subrange(5, path.len() - 4))
    } else {
        None
    }
}

/// The synthetic entry name of the page at zero-based `index`.
pub open spec fn page_entry_text(index: nat) -> Seq<char> {
    "page_"@ + decimal(index + 1) + ".png"@
}

/// Zero-based page index a PDF reader reads from an entry name: the number
/// must parse as an `i32` and be at least 1.
pub open spec fn pdf_page_index(path: Seq<char>) -> Option<i32> {
    match page_number_text(path) {
        Some(t) => match parsed_i32(t) {
            Some(n) => if n >= 1 {
                Some((n - 1) as i32)
            } else {
                None
            },
            None => None,
        },
        None => None,
    }
}

/// Zero-based page index a DjVu reader reads from an entry name: the number
/// must parse as a `usize` and be at least 1.
pub open spec fn djvu_page_index(path: Seq<char>) -> Option<usize> {
    match page_number_text(path) {
        Some(t) => match parsed_usize(t) {
            Some(n) => if n >= 1 {
                Some((n - 1) as usize)
            } else {
                None
            },
            None => None,
        },
        None => None,
    }
}

/// The characters between `page_` and `.png`, if `v` has that shape.
fn number_text(v: &Vec<char>) -> (r: Option<Vec<char>>)
    ensures
        match r {
            Some(t) => page_number_text(v@) == Some(t@),
            None => page_number_text(v@) is None,
        },
{
    let prefix = chars_of("page_");
    let suffix = chars_of(".png");
    proof {
        reveal_strlit("page_");
        reveal_strlit(".png");
    }
    if v.len() >= 9 && starts_with(v, &prefix) && ends_with(v, &suffix) {
        Some(slice_chars(v, 5, v.len() - 4))
    } else {
        None
    }
}

/// Builds the synthetic entry name `page_<index + 1>.png`.
pub fn page_entry_name(index: usize) -> (r: String)
    requires
        index < usize::MAX,
    ensures
        r@ == page_entry_text(index as nat),
{
    let mut r = String::from_str("page_");
    let digits = decimal_chars((index + 1) as u64);
    push_chars(&mut r, &digits);
    let suffix = chars_of(".png");
    push_chars(&mut r, &suffix);
    r
}

/// Names a PDF document whose pages are exposed as `page_<n>.png` entries.
pub struct PdfArchiveReader {
    path: String,
}

impl PdfArchiveReader {
    pub closed spec fn source(&self) -> Seq<char> {
        self.path@
    }

    pub fn new(path: &str) -> (r: Self)
        ensures
            r.source() == path@,
    {
        PdfArchiveReader { path: owned(path) }
    }

    /// The document's file path.
    pub fn path(&self) -> (r: &str)
        ensures
            r@ == self.source(),
    {
        self.path.as_str()
    }

    /// Parses a synthetic `page_<n>.png` entry name into a zero-based index.
    /// Any other name gives `None`: callers probe for entries such as
    /// `ComicInfo.xml` that a PDF does not have.
    pub fn page_index(path: &str) -> (r: Option<i32>)
        ensures
            r == pdf_page_index(path@),
    {
        let v = chars_of(path);
        match number_text(&v) {
            None => None,
            Some(t) => match parse_i32(&t) {
                None => None,
                Some(n) => {
                    if n >= 1 {
                        Some(n - 1)
                    } else {
                        None
                    }
                },
            },
        }
    }
}

/// Names a DjVu document whose pages are exposed as `page_<n>.png` entries.
pub struct DjvuArchiveReader {
    path: String,
}

impl DjvuArchiveReader {
    pub closed spec fn source(&self) -> Seq<char> {
        self.path@
    }

    pub fn new(path: &str) -> (r: Self)
        ensures
            r.source() == path@,
    {
        DjvuArchiveReader { path: owned(path) }
    }

    /// The document's file path.
    pub fn path(&self) -> (r: &str)
        ensures
            r@ == self.source(),
    {
        self.path.as_str()
    }

    /// Parses a synthetic `page_<n>.png` entry name into a zero-based index.
    pub fn page_index(path: &str) -> (r: Option<usize>)
        ensures
            r == djvu_page_index(path@),
    {
        let v = chars_of(path);
        match number_text(&v) {
            None => None,
            Some(t) => match crate::text::parse_usize(&t) {
                None => None,
                Some(n) => {
                    if n >= 1 {
                        Some(n - 1)
                    } else {
                        None
                    }
                },
            },
        }
    }
}

proof fn lemma_entry_number_text(index: nat)
    ensures
        page_number_text(page_entry_text(index)) == Some(decimal(index + 1)),
{
    reveal_strlit("page_");
    reveal_strlit(".png");
    let d = decimal(index + 1);
    lemma_decimal_digits(index + 1);
    let s = page_entry_text(index);
    assert(s.subrange(0, 5) =~= "page_"@);
    assert(s.subrange(s.len() - 4, s.len() as int) =~= ".png"@);
    assert(s.subrange(5, s.len() - 4) =~= d);
}

/// A DjVu page's synthetic entry name reads back as that page's index.
pub proof fn lemma_djvu_page_name_round_trip(index: usize)
    requires
        index < usize::MAX,
    ensures
        djvu_page_index(page_entry_text(index as nat)) == Some(index),
{
    lemma_entry_number_text(index as nat);
    lemma_decimal_digits((index + 1) as nat);
    let d = decimal((index + 1) as nat);
    assert(unsigned_text(d) == Some((index + 1) as nat));
}

/// A PDF page's synthetic entry name reads back as that page's index.
pub proof fn lemma_pdf_page_name_round_trip(index: i32)
    requires
        0 <= index < i32::MAX,
    ensures
        pdf_page_index(page_entry_text(index as nat)) == Some(index),
{
    lemma_entry_number_text(index as nat);
    lemma_decimal_digits((index + 1) as nat);
    let d = decimal((index + 1) as nat);
    assert(unsigned_text(d) == Some((index + 1) as nat));
}

} // verus!
