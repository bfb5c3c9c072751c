//! Cover thumbnails: where a cover is cached, when a cached cover is out of
//! date, which page is the cover, how large the thumbnail is, and the
//! thumbnail's pixels.
use std::collections::hash_map::DefaultHasher;
use std::hash::{Hash, Hasher};
use vstd::prelude::*;
use vstd::std_specs::hash::DefaultHasherAdditionalSpecFns;

use crate::decode::pipeline::{
    decode_picture, resize_picture, resized_rgba, resized_size, source_height, source_rgba, source_width, Picture,
    MAX_DECODE_ALLOC_BYTES, MAX_SOURCE_DIMENSION,
};
use crate::library::models::ArchivePage;
use crate::paths::{join_path, path_join};

verus! {

/// The tallest a cover thumbnail is made.
pub const MAX_THUMBNAIL_HEIGHT: u32 = 300;

/// The widest a cover thumbnail is made.
pub const MAX_THUMBNAIL_WIDTH: u32 = 600;

/// A cover cached on disk for a comic file in a given state.
#[derive(Debug, Clone, PartialEq, Eq)]
pub struct ThumbnailCacheEntry {
    pub source_path: String,
    pub source_fingerprint: String,
    pub cache_path: String,
}

/// A cover to render in the background.
#[derive(Debug, Clone, PartialEq, Eq)]
pub struct ThumbnailRequest {
    pub source_path: String,
    pub source_fingerprint: String,
    pub cache_path: String,
}

/// A rendered cover's size, or why it could not be rendered.
#[derive(Debug, PartialEq, Eq)]
pub struct ThumbnailResult {
    pub source_path: String,
    pub cache_path: String,
    pub outcome: Result<[u32; 2], String>,
}

/// The writes a `str`'s `Hash` implementation makes to a hasher whose
/// writes so far are `state`, appended to them.
pub uninterp spec fn str_hash_writes(state: Seq<Seq<u8>>, s: Seq<char>) -> Seq<Seq<u8>>;

/// `<str as Hash>::hash` into a `DefaultHasher`: what it feeds the hasher
/// depends on the string alone.
#[verifier::external_body]
fn hash_str(s: &str, hasher: &mut DefaultHasher)
    ensures
        final(hasher)@ == str_hash_writes(old(hasher)@, s@),
{
    s.hash(hasher)
}

/// The lowercase hexadecimal digit for `d` (0 to 15).
pub open spec fn hex_char(d: nat) -> char {
    if d < 10 {
        (48 + d) as char
    } else {
        (87 + d) as char
    }
}

/// The last `k` hexadecimal digits of `n`, most significant first, padded
/// with zeros (`{:0k$x}` for values below 16^k).
pub open spec fn hex_digits(n: nat, k: nat) -> Seq<char>
    decreases k,
{
    if k == 0 {
        Seq::empty()
    } else {
        hex_digits(n / 16, (k - 1) as nat).push(hex_char(n % 16))
    }
}

fn hex_digit(d: u64) -> (c: char)
    requires
        d < 16,
    ensures
        c == hex_char(d as nat),
{
    let digits = ['0', '1', '2', '3', '4', '5', '6', '7', '8', '9', 'a', 'b', 'c', 'd', 'e', 'f'];
    proof {
        assert(digits@[d as int] == hex_char(d as nat)) by {
            if d == 0 {} else if d == 1 {} else if d == 2 {} else if d == 3 {} else if d == 4 {}
            else if d == 5 {} else if d == 6 {} else if d == 7 {} else if d == 8 {} else if d == 9 {}
            else if d == 10 {} else if d == 11 {} else if d == 12 {} else if d == 13 {} else if d == 14 {}
            else {}
        }
    }
    digits[d as usize]
}

/// `format!("{:016x}", n)`: sixteen lowercase hexadecimal digits.
pub fn hex16(n: u64) -> (r: Vec<char>)
    ensures
        r@ == hex_digits(n as nat, 16),
{
    let mut r: Vec<char> = Vec::new();
    let mut k: u64 = 16;
    let mut m: u64 = n;
    while k > 0
        invariant
            k <= 16,
            hex_digits(n as nat, 16) == hex_digits(m as nat, k as nat) + r@,
        decreases k,
    {
        let d = m % 16;
        let c = hex_digit(d);
        let ghost old_r = r@;
        r.insert(0, c);
        proof {
            assert(hex_digits(m as nat, k as nat) == hex_digits((m / 16) as nat, (k - 1) as nat).push(c));
            assert(r@ =~= seq![c] + old_r);
            assert(hex_digits((m / 16) as nat, (k - 1) as nat).push(c) + old_r =~= hex_digits(
                (m / 16) as nat,
                (k - 1) as nat,
            ) + r@);
        }
        m = m / 16;
        k -= 1;
    }
    assert(hex_digits(m as nat, 0) =~= Seq::<char>::empty());
    assert(hex_digits(n as nat, 16) =~= r@);
    r
}

/// The file name a cover is cached under: the default hash of the comic's
/// path and fingerprint, as sixteen hexadecimal digits, with `.png`.
pub open spec fn cache_key(source_path: Seq<char>, source_fingerprint: Seq<char>) -> Seq<char> {
    let writes = str_hash_writes(str_hash_writes(Seq::empty(), source_path), source_fingerprint);
    hex_digits(DefaultHasher::spec_finish(writes) as nat, 16) + ".png"@
}

/// Whether `c` is a lowercase hexadecimal digit.
pub open spec fn is_lower_hex(c: char) -> bool {
    ('0' <= c && c <= '9') || ('a' <= c && c <= 'f')
}

proof fn lemma_hex_digits_shape(n: nat, k: nat)
    ensures
        hex_digits(n, k).len() == k,
        forall|i: int| 0 <= i < k ==> is_lower_hex(#[trigger] hex_digits(n, k)[i]),
    decreases k,
{
    if k > 0 {
        lemma_hex_digits_shape(n / 16, (k - 1) as nat);
        let d = n % 16;
        assert(('0' as u32) == 48 && ('9' as u32) == 57 && ('a' as u32) == 97 && ('f' as u32) == 102);
        assert(is_lower_hex(hex_char(d)));
        assert forall|i: int| 0 <= i < k implies is_lower_hex(#[trigger] hex_digits(n, k)[i]) by {
            if i < k - 1 {
                assert(hex_digits(n, k)[i] == hex_digits(n / 16, (k - 1) as nat)[i]);
            }
        }
    }
}

/// A cover's cache key is sixteen lowercase hexadecimal digits followed by
/// `.png`, whatever the comic.
pub proof fn lemma_cache_key_shape(source_path: Seq<char>, source_fingerprint: Seq<char>)
    ensures
        cache_key(source_path, source_fingerprint).len() == 20,
        forall|i: int| 0 <= i < 16 ==> is_lower_hex(#[trigger] cache_key(source_path, source_fingerprint)[i]),
        cache_key(source_path, source_fingerprint).subrange(16, 20) == ".png"@,
{
    let writes = str_hash_writes(str_hash_writes(Seq::empty(), source_path), source_fingerprint);
    let n = DefaultHasher::spec_finish(writes) as nat;
    lemma_hex_digits_shape(n, 16);
    reveal_strlit(".png");
    let key = cache_key(source_path, source_fingerprint);
    assert(key == hex_digits(n, 16) + ".png"@);
    assert forall|i: int| 0 <= i < 16 implies is_lower_hex(#[trigger] key[i]) by {
        assert(key[i] == hex_digits(n, 16)[i]);
    }
    assert(key.subrange(16, 20) =~= ".png"@);
}

pub fn cache_key_for_source(source_path: &str, source_fingerprint: &str) -> (r: String)
    ensures
        r@ == cache_key(source_path@, source_fingerprint@),
{
    let mut hasher = DefaultHasher::new();
    hash_str(source_path, &mut hasher);
    hash_str(source_fingerprint, &mut hasher);
    let digits = hex16(hasher.finish());
    let mut key = crate::text::string_from(&digits);
    let suffix = crate::text::chars_of(".png");
    crate::text::push_chars(&mut key, &suffix);
    key
}

/// Where the cover of a comic is cached under `cache_root`.
pub fn cache_path_for_source(cache_root: &str, source_path: &str, source_fingerprint: &str) -> (r: String)
    ensures
        r@ == path_join(cache_root@, cache_key(source_path@, source_fingerprint@)),
{
    let key = cache_key_for_source(source_path, source_fingerprint);
    join_path(cache_root, key.as_str())
}

/// Whether a cached cover must be rendered again: the comic changed since,
/// or the cached file is gone.
pub open spec fn stale_cover(entry: ThumbnailCacheEntry, current_fingerprint: Seq<char>, cache_exists: bool) -> bool {
    entry.source_fingerprint@ != current_fingerprint || !cache_exists
}

pub fn thumbnail_stale_given(entry: &ThumbnailCacheEntry, current_source_fingerprint: &str, cache_exists: bool) -> (r: bool)
    ensures
        r == stale_cover(*entry, current_source_fingerprint@, cache_exists),
{
    let current = crate::text::owned(current_source_fingerprint);
    entry.source_fingerprint != current || !cache_exists
}

/// `Path::exists`: whether a file is at `path` right now.
#[verifier::external_body]
fn file_exists(path: &str) -> bool {
    std::path::Path::new(path).exists()
}

/// Whether a cached cover must be rendered again, looking at the disk for
/// the cached file.
pub fn is_thumbnail_stale(entry: &ThumbnailCacheEntry, current_source_fingerprint: &str) -> (r: bool)
    ensures
        entry.source_fingerprint@ != current_source_fingerprint@ ==> r,
{
    let exists = file_exists(entry.cache_path.as_str());
    thumbnail_stale_given(entry, current_source_fingerprint, exists)
}

/// The position of the cover page: the page with the smallest sort index,
/// the first of them on a tie.
pub open spec fn cover_index(pages: Seq<ArchivePage>) -> int
    decreases pages.len(),
{
    if pages.len() <= 1 {
        0
    } else {
        let prev = cover_index(pages.drop_last());
        if pages.last().sort_index < pages[prev].sort_index {
            pages.len() - 1
        } else {
            prev
        }
    }
}

proof fn lemma_cover_index(pages: Seq<ArchivePage>)
    requires
        pages.len() > 0,
    ensures
        0 <= cover_index(pages) < pages.len(),
        forall|j: int| 0 <= j < pages.len() ==> pages[cover_index(pages)].sort_index <= #[trigger] pages[j].sort_index,
        forall|j: int| 0 <= j < cover_index(pages) ==> pages[cover_index(pages)].sort_index < #[trigger] pages[j].sort_index,
    decreases pages.len(),
{
    if pages.len() > 1 {
        let d = pages.drop_last();
        lemma_cover_index(d);
        assert forall|j: int| 0 <= j < d.len() implies #[trigger] pages[j] == d[j] by {}
    }
}

/// The page a cover is rendered from.
pub fn cover_request_for_pages(pages: &[ArchivePage]) -> (r: Option<&ArchivePage>)
    ensures
        pages@.len() == 0 ==> r is None,
        pages@.len() > 0 ==> r is Some && *r->0 == pages@[cover_index(pages@)],
{
    let n = pages.len();
    if n == 0 {
        return None;
    }
    let mut best: usize = 0;
    let mut i: usize = 1;
    while i < n
        invariant
            n == pages@.len(),
            1 <= i <= n,
            best == cover_index(pages@.take(i as int)),
            best < i,
        decreases n - i,
    {
        proof {
            assert(pages@.take(i + 1).drop_last() =~= pages@.take(i as int));
            lemma_cover_index(pages@.take(i as int));
            assert(pages@.take(i as int)[best as int] == pages@[best as int]);
        }
        if pages[i].sort_index < pages[best].sort_index {
            best = i;
        }
        i += 1;
    }
    proof {
        assert(pages@.take(n as int) =~= pages@);
    }
    Some(&pages[best])
}

/// `a / b` rounded to the nearest integer, halves up.
pub open spec fn round_div(a: nat, b: nat) -> nat
    recommends
        b > 0,
{
    (2 * a + b) / (2 * b)
}

/// The size a cover is shrunk to: unchanged when empty or within 600 by 300
/// pixels; otherwise scaled, keeping the proportions, until it fits, each
/// side rounded and at least one pixel.
pub open spec fn thumbnail_size(width: u32, height: u32) -> (u32, u32) {
    if width == 0 || height == 0 || (height <= 300 && width <= 600) {
        (width, height)
    } else if 300 * (width as nat) <= 600 * (height as nat) {
        let w = round_div(300 * (width as nat), height as nat);
        ((if w < 1 {
            1nat
        } else {
            w
        }) as u32, 300)
    } else {
        let h = round_div(600 * (height as nat), width as nat);
        (600, (if h < 1 {
            1nat
        } else {
            h
        }) as u32)
    }
}

pub fn thumbnail_target_size(width: u32, height: u32) -> (r: [u32; 2])
    ensures
        (r[0], r[1]) == thumbnail_size(width, height),
        width > 0 && height > 0 ==> r[0] <= MAX_THUMBNAIL_WIDTH && r[1] <= MAX_THUMBNAIL_HEIGHT,
{
    if width == 0 || height == 0 || (height <= MAX_THUMBNAIL_HEIGHT && width <= MAX_THUMBNAIL_WIDTH) {
        return [width, height];
    }
    let w = width as u64;
    let h = height as u64;
    assert(w <= 0xffff_ffff && h <= 0xffff_ffff);
    assert(1200 * w <= 1200 * 0xffff_ffffu64) by (nonlinear_arith)
        requires
            w <= 0xffff_ffff,
    ;
    assert(1200 * h <= 1200 * 0xffff_ffffu64) by (nonlinear_arith)
        requires
            h <= 0xffff_ffff,
    ;
    if 300 * w <= 600 * h {
        let scaled = (600 * w + h) / (2 * h);
        proof {
            assert((600 * w + h) / (2 * h) <= 600) by (nonlinear_arith)
                requires
                    300 * w <= 600 * h,
                    h > 0,
            ;
        }
        let target_width = if scaled < 1 {
            1
        } else {
            scaled
        };
        [target_width as u32, MAX_THUMBNAIL_HEIGHT]
    } else {
        let scaled = (1200 * h + w) / (2 * w);
        proof {
            assert((1200 * h + w) / (2 * w) <= 300) by (nonlinear_arith)
                requires
                    600 * h < 300 * w,
                    w > 0,
            ;
        }
        let target_height = if scaled < 1 {
            1
        } else {
            scaled
        };
        [MAX_THUMBNAIL_WIDTH, target_height as u32]
    }
}

/// The pixels and size of the thumbnail of a cover whose header gives a
/// `width` by `height` page with pixels `rgba`: the cover itself when it is
/// within the thumbnail size, otherwise the cover resized to fit the
/// thumbnail size with its proportions kept.
pub open spec fn thumbnail_of(rgba: Seq<u8>, width: u32, height: u32) -> (Seq<u8>, (u32, u32)) {
    let t = thumbnail_size(width, height);
    if t == (width, height) {
        (rgba, (width, height))
    } else {
        (resized_rgba(rgba, width, height, t.0, t.1), resized_size(width, height, t.0, t.1))
    }
}

proof fn lemma_thumbnail_size_positive(width: u32, height: u32)
    requires
        width > 0,
        height > 0,
    ensures
        thumbnail_size(width, height).0 > 0,
        thumbnail_size(width, height).1 > 0,
{
    if !(height <= 300 && width <= 600) {
        if 300 * (width as nat) <= 600 * (height as nat) {
            let w = round_div(300 * (width as nat), height as nat);
            assert(w <= 300 * (width as nat)) by (nonlinear_arith)
                requires
                    w == (2 * (300 * (width as nat)) + height as nat) / (2 * (height as nat)),
                    height >= 1,
            ;
            assert(300 * (width as nat) <= 600 * (height as nat));
            assert(w <= 0xffff_ffff) by (nonlinear_arith)
                requires
                    w == (2 * (300 * (width as nat)) + height as nat) / (2 * (height as nat)),
                    300 * (width as nat) <= 600 * (height as nat),
                    height >= 1,
            ;
        } else {
            let h = round_div(600 * (height as nat), width as nat);
            assert(h <= 0xffff_ffff) by (nonlinear_arith)
                requires
                    h == (2 * (600 * (height as nat)) + width as nat) / (2 * (width as nat)),
                    300 * (width as nat) > 600 * (height as nat),
                    width >= 1,
            ;
        }
    }
}

/// Decodes a cover and shrinks it to the thumbnail size. It succeeds
/// exactly when the cover decodes within the decoder's limits.
pub fn thumbnail_picture(bytes: &[u8]) -> (r: Result<Picture, String>)
    ensures
        r is Ok <==> source_rgba(bytes@) is Some,
        r matches Ok(p) ==> {
            let t = thumbnail_of(source_rgba(bytes@)->0, source_width(bytes@), source_height(bytes@));
            &&& p.wf()
            &&& p.rgba@ == t.0
            &&& (p.width, p.height) == t.1
            &&& source_width(bytes@) > 0 && source_height(bytes@) > 0 ==> p.width <= MAX_THUMBNAIL_WIDTH
                && p.height <= MAX_THUMBNAIL_HEIGHT
        },
{
    let picture = decode_picture(bytes, MAX_SOURCE_DIMENSION, MAX_DECODE_ALLOC_BYTES)?;
    let target = thumbnail_target_size(picture.width, picture.height);
    if target[0] == picture.width && target[1] == picture.height {
        return Ok(picture);
    }
    proof {
        lemma_thumbnail_size_positive(picture.width, picture.height);
    }
    Ok(resize_picture(picture, target[0], target[1]))
}

} // verus!
