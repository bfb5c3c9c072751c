//! Which archive entries are pages, and the natural order pages are read in.
use vstd::prelude::*;

use crate::paths::{extension_of, path_extension};
use crate::text::{
    ascii_fold, chars_eq, chars_eq_ignore_ascii_case, chars_of, eq_ignore_ascii_case,
};

verus! {

/// The result of `natord::compare` on two strings: `-1` for less, `0` for
/// equal, `1` for greater.
pub uninterp spec fn natord_order(a: Seq<char>, b: Seq<char>) -> int;

/// `natord::compare`: natural ordering in which runs of digits compare by
/// value and Unicode whitespace is skipped. The crate's comparison walks both
/// strings with one symmetric procedure (every branch has its mirror with
/// the sides swapped), so comparing the other way round gives the opposite
/// answer.
#[verifier::external_body]
pub(crate) fn natord_compare(a: &str, b: &str) -> (r: i8)
    ensures
        r == natord_order(a@, b@),
        -1 <= r <= 1,
        natord_order(b@, a@) == -r,
{
    match natord::compare(a, b) {
        std::cmp::Ordering::Less => -1,
        std::cmp::Ordering::Equal => 0,
        std::cmp::Ordering::Greater => 1,
    }
}

/// Lexicographic order by code point, which is the order of `str`'s `Ord`
/// (UTF-8 byte order and code point order agree).
pub open spec fn lex_order(a: Seq<char>, b: Seq<char>) -> int
    decreases a.len(),
{
    if a.len() == 0 {
        if b.len() == 0 {
            0
        } else {
            -1
        }
    } else if b.len() == 0 {
        1
    } else if a[0] < b[0] {
        -1
    } else if a[0] > b[0] {
        1
    } else {
        lex_order(a.drop_first(), b.drop_first())
    }
}

/// Comparing two names the other way round gives the opposite answer, and
/// the answer is always -1, 0 or 1.
pub proof fn lemma_lex_antisymmetric(a: Seq<char>, b: Seq<char>)
    ensures
        lex_order(b, a) == -lex_order(a, b),
        -1 <= lex_order(a, b) <= 1,
    decreases a.len(),
{
    if a.len() > 0 && b.len() > 0 && a[0] == b[0] {
        lemma_lex_antisymmetric(a.drop_first(), b.drop_first());
    }
}

/// Two names compare equal only when they are the same name.
pub proof fn lemma_lex_zero_equal(a: Seq<char>, b: Seq<char>)
    requires
        lex_order(a, b) == 0,
    ensures
        a == b,
    decreases a.len(),
{
    if a.len() > 0 && b.len() > 0 {
        lemma_lex_zero_equal(a.drop_first(), b.drop_first());
        assert(a =~= seq![a[0]] + a.drop_first());
        assert(b =~= seq![b[0]] + b.drop_first());
    }
}

proof fn lemma_lex_skip(a: Seq<char>, b: Seq<char>, i: int)
    requires
        0 <= i < a.len(),
        i < b.len(),
        a[i] == b[i],
    ensures
        lex_order(a.skip(i), b.skip(i)) == lex_order(a.skip(i + 1), b.skip(i + 1)),
{
    assert(a.skip(i).drop_first() =~= a.skip(i + 1));
    assert(b.skip(i).drop_first() =~= b.skip(i + 1));
}

/// Compares `a` and `b` by code point.
pub fn lex_compare(a: &Vec<char>, b: &Vec<char>) -> (r: i8)
    ensures
        r == lex_order(a@, b@),
{
    let mut i: usize = 0;
    assert(a@.skip(0) =~= a@);
    assert(b@.skip(0) =~= b@);
    while i < a.len() && i < b.len()
        invariant
            0 <= i <= a.len(),
            i <= b.len(),
            lex_order(a@, b@) == lex_order(a@.skip(i as int), b@.skip(i as int)),
        decreases a.len() - i,
    {
        let x = a[i];
        let y = b[i];
        if x < y {
            return -1;
        }
        if x > y {
            return 1;
        }
        proof {
            assert(a@[i as int] == b@[i as int]);
            lemma_lex_skip(a@, b@, i as int);
        }
        i += 1;
    }
    if i < a.len() {
        1
    } else if i < b.len() {
        -1
    } else {
        0
    }
}

/// The order pages are read in: `natord` first, then plain string order so
/// that distinct names never tie.
pub open spec fn natural_order(a: Seq<char>, b: Seq<char>) -> int {
    if natord_order(a, b) != 0 {
        natord_order(a, b)
    } else {
        lex_order(a, b)
    }
}

/// Compares two strings in natural page order.
pub fn natural_compare(a: &str, b: &str) -> (r: i8)
    ensures
        r == natural_order(a@, b@),
        natural_order(b@, a@) == -r,
        -1 <= r <= 1,
{
    let n = natord_compare(a, b);
    if n != 0 {
        return n;
    }
    let av = chars_of(a);
    let bv = chars_of(b);
    let r = lex_compare(&av, &bv);
    proof {
        lemma_lex_antisymmetric(a@, b@);
    }
    r
}

/// Every neighbouring pair of `s` is in natural page order.
pub open spec fn naturally_sorted(s: Seq<String>) -> bool {
    forall|k: int| 0 <= k < s.len() - 1 ==> natural_order(#[trigger] s[k]@, s[k + 1]@) <= 0
}

/// Sorts page names into natural reading order (`page_2` before `page_10`).
/// The sort is stable and only reorders: the result holds exactly the input
/// names.
pub fn sort_natural(paths: &mut Vec<String>)
    ensures
        final(paths)@.to_multiset() == old(paths)@.to_multiset(),
        naturally_sorted(final(paths)@),
{
    broadcast use vstd::seq_lib::group_to_multiset_ensures;

    let mut res: Vec<String> = Vec::new();
    let n = paths.len();
    let mut i: usize = 0;
    while i < n
        invariant
            n == paths.len(),
            0 <= i <= n,
            res@.to_multiset() == paths@.take(i as int).to_multiset(),
            naturally_sorted(res@),
        decreases n - i,
    {
        let x = paths[i].clone();
        let mut pos = res.len();
        let mut moving = true;
        while moving && pos > 0
            invariant
                pos <= res.len(),
                naturally_sorted(res@),
                pos < res.len() ==> natural_order(x@, res@[pos as int]@) <= 0,
                !moving ==> pos > 0 && natural_order(res@[pos - 1]@, x@) <= 0,
            decreases pos + (if moving { 1int } else { 0int }),
        {
            let c = natural_compare(res[pos - 1].as_str(), x.as_str());
            if c > 0 {
                pos -= 1;
            } else {
                moving = false;
            }
        }
        let ghost before = res@;
        res.insert(pos, x);
        proof {
            let after = res@;
            assert(after == before.insert(pos as int, x));
            assert forall|k: int| 0 <= k < after.len() - 1 implies natural_order(
                #[trigger] after[k]@,
                after[k + 1]@,
            ) <= 0 by {
                if k < pos - 1 {
                    assert(after[k] == before[k]);
                    assert(after[k + 1] == before[k + 1]);
                } else if k == pos - 1 {
                    assert(after[k + 1] == x);
                } else if k == pos {
                    assert(after[k] == x);
                    assert(after[k + 1] == before[k]);
                } else {
                    assert(after[k] == before[k - 1]);
                    assert(after[k + 1] == before[k]);
                }
            }
            assert(paths@.take(i + 1) =~= paths@.take(i as int).push(paths@[i as int]));
            vstd::seq_lib::to_multiset_insert(before, pos as int, x);
            vstd::seq_lib::to_multiset_build(paths@.take(i as int), paths@[i as int]);
            assert(x == paths@[i as int]);
        }
        i += 1;
    }
    assert(paths@.take(n as int) =~= paths@);
    *paths = res;
}

// ---------------------------------------------------------------------------
// Page and metadata entries

/// The `/`-separated segments of `s`, as `str::split('/')` yields them (an
/// empty string has one empty segment).
pub open spec fn segments(s: Seq<char>) -> Seq<Seq<char>>
    decreases s.len(),
{
    if s.len() == 0 {
        seq![Seq::empty()]
    } else {
        let rest = segments(s.drop_last());
        if s.last() == '/' {
            rest.push(Seq::empty())
        } else {
            rest.update(rest.len() - 1, rest.last().push(s.last()))
        }
    }
}

proof fn lemma_segments_nonempty(s: Seq<char>)
    ensures
        segments(s).len() >= 1,
    decreases s.len(),
{
    if s.len() > 0 {
        lemma_segments_nonempty(s.drop_last());
    }
}

/// A path segment that marks an entry as metadata or an OS artifact rather
/// than content: empty, `__MACOSX`, a dot-file, or `Thumbs.db` in any ASCII
/// case.
pub open spec fn hidden_segment(seg: Seq<char>) -> bool {
    ||| seg.len() == 0
    ||| seg == "__MACOSX"@
    ||| seg[0] == '.'
    ||| eq_ignore_ascii_case(seg, "thumbs.db"@)
}

/// Some segment of `path` is hidden.
pub open spec fn hidden_path(path: Seq<char>) -> bool {
    exists|j: int| 0 <= j < segments(path).len() && hidden_segment(#[trigger] segments(path)[j])
}

fn is_hidden_segment(seg: &Vec<char>, macosx: &Vec<char>, thumbs: &Vec<char>) -> (r: bool)
    requires
        macosx@ == "__MACOSX"@,
        thumbs@ == "thumbs.db"@,
    ensures
        r == hidden_segment(seg@),
{
    seg.len() == 0 || chars_eq(seg, macosx) || seg[0] == '.' || chars_eq_ignore_ascii_case(
        seg,
        thumbs,
    )
}

/// Whether an entry path lies in an OS or metadata location (`__MACOSX`,
/// dot-files, `Thumbs.db`, or an empty segment).
pub fn is_hidden_metadata_path(path: &str) -> (r: bool)
    ensures
        r == hidden_path(path@),
{
    let v = chars_of(path);
    let macosx = chars_of("__MACOSX");
    let thumbs = chars_of("thumbs.db");
    let mut cur: Vec<char> = Vec::new();
    let mut found = false;
    let mut i: usize = 0;
    proof {
        assert(v@.take(0) =~= Seq::<char>::empty());
    }
    while i < v.len()
        invariant
            macosx@ == "__MACOSX"@,
            thumbs@ == "thumbs.db"@,
            v@ == path@,
            0 <= i <= v.len(),
            segments(v@.take(i as int)).len() >= 1,
            cur@ == segments(v@.take(i as int)).last(),
            found == exists|j: int|
                0 <= j < segments(v@.take(i as int)).len() - 1 && hidden_segment(
                    #[trigger] segments(v@.take(i as int))[j],
                ),
        decreases v.len() - i,
    {
        let c = v[i];
        let ghost p = v@.take(i as int);
        let ghost q = v@.take(i + 1);
        assert(q.drop_last() =~= p);
        if c == '/' {
            let h = is_hidden_segment(&cur, &macosx, &thumbs);
            proof {
                let sp = segments(p);
                let sq = segments(q);
                assert(sq == sp.push(Seq::<char>::empty()));
                assert forall|j: int| 0 <= j < sq.len() - 1 implies #[trigger] sq[j] == sp[j] by {}
                if h {
                    assert(hidden_segment(sq[sp.len() - 1]));
                }
                if found {
                    let j0 = choose|j: int| 0 <= j < sp.len() - 1 && hidden_segment(#[trigger] sp[j]);
                    assert(hidden_segment(sq[j0]));
                }
                if exists|j: int| 0 <= j < sq.len() - 1 && hidden_segment(#[trigger] sq[j]) {
                    let j0 = choose|j: int| 0 <= j < sq.len() - 1 && hidden_segment(#[trigger] sq[j]);
                    if j0 < sp.len() - 1 {
                        assert(hidden_segment(sp[j0]));
                    } else {
                        assert(j0 == sp.len() - 1);
                    }
                }
            }
            found = found || h;
            cur = Vec::new();
            proof {
                assert(cur@ =~= segments(q).last());
            }
        } else {
            cur.push(c);
            proof {
                let sp = segments(p);
                let sq = segments(q);
                assert(sq == sp.update(sp.len() - 1, sp.last().push(c)));
                assert forall|j: int| 0 <= j < sq.len() - 1 implies #[trigger] sq[j] == sp[j] by {}
                if found {
                    let j0 = choose|j: int| 0 <= j < sp.len() - 1 && hidden_segment(#[trigger] sp[j]);
                    assert(hidden_segment(sq[j0]));
                }
                if exists|j: int| 0 <= j < sq.len() - 1 && hidden_segment(#[trigger] sq[j]) {
                    let j0 = choose|j: int| 0 <= j < sq.len() - 1 && hidden_segment(#[trigger] sq[j]);
                    assert(hidden_segment(sp[j0]));
                }
            }
        }
        i += 1;
    }
    let last = is_hidden_segment(&cur, &macosx, &thumbs);
    proof {
        assert(v@.take(v@.len() as int) =~= v@);
        let s = segments(path@);
        if last {
            assert(hidden_segment(s[s.len() - 1]));
        }
        if found {
            let j0 = choose|j: int| 0 <= j < s.len() - 1 && hidden_segment(#[trigger] s[j]);
            assert(hidden_segment(s[j0]));
        }
        if hidden_path(path@) {
            let j0 = choose|j: int| 0 <= j < s.len() && hidden_segment(#[trigger] s[j]);
            if j0 < s.len() - 1 {
                assert(found);
            } else {
                assert(last);
            }
        }
    }
    found || last
}

/// The image extensions a page may have (compared ignoring ASCII case).
pub open spec fn page_extension(e: Seq<char>) -> bool {
    ||| eq_ignore_ascii_case(e, "jpg"@)
    ||| eq_ignore_ascii_case(e, "jpeg"@)
    ||| eq_ignore_ascii_case(e, "png"@)
    ||| eq_ignore_ascii_case(e, "gif"@)
    ||| eq_ignore_ascii_case(e, "webp"@)
    ||| eq_ignore_ascii_case(e, "bmp"@)
}

/// An archive entry is a page: it is not hidden, not a directory entry, and
/// its extension is an image extension.
pub open spec fn page_image_path(path: Seq<char>) -> bool {
    &&& !hidden_path(path)
    &&& !(path.len() > 0 && path.last() == '/')
    &&& match path_extension(path) {
        Some(e) => page_extension(e),
        None => false,
    }
}

/// Whether an archive entry path names a readable page image.
pub fn is_page_image_path(path: &str) -> (r: bool)
    ensures
        r == page_image_path(path@),
{
    if is_hidden_metadata_path(path) {
        return false;
    }
    let v = chars_of(path);
    if v.len() > 0 && v[v.len() - 1] == '/' {
        return false;
    }
    match extension_of(path) {
        None => false,
        Some(ext) => {
            let e = chars_of(ext.as_str());
            let jpg = chars_of("jpg");
            let jpeg = chars_of("jpeg");
            let png = chars_of("png");
            let gif = chars_of("gif");
            let webp = chars_of("webp");
            let bmp = chars_of("bmp");
            chars_eq_ignore_ascii_case(&e, &jpg) || chars_eq_ignore_ascii_case(&e, &jpeg)
                || chars_eq_ignore_ascii_case(&e, &png) || chars_eq_ignore_ascii_case(&e, &gif)
                || chars_eq_ignore_ascii_case(&e, &webp) || chars_eq_ignore_ascii_case(&e, &bmp)
        },
    }
}

/// A page is an image entry: an entry that is neither hidden nor a
/// directory is a page exactly when its extension is, ignoring ASCII case,
/// one of `jpg`, `jpeg`, `png`, `gif`, `webp` and `bmp`; hidden entries,
/// directory entries and entries without an extension never are.
pub proof fn lemma_page_images(path: Seq<char>)
    ensures
        hidden_path(path) ==> !page_image_path(path),
        path.len() > 0 && path.last() == '/' ==> !page_image_path(path),
        path_extension(path) is None ==> !page_image_path(path),
        !hidden_path(path) && !(path.len() > 0 && path.last() == '/') && path_extension(path) is Some ==> (
        page_image_path(path) <==> {
            let e = path_extension(path)->0;
            ||| eq_ignore_ascii_case(e, "jpg"@)
            ||| eq_ignore_ascii_case(e, "jpeg"@)
            ||| eq_ignore_ascii_case(e, "png"@)
            ||| eq_ignore_ascii_case(e, "gif"@)
            ||| eq_ignore_ascii_case(e, "webp"@)
            ||| eq_ignore_ascii_case(e, "bmp"@)
        }),
{
}

/// An entry is hidden when any segment of its path is: empty, a dot-file
/// or dot-folder, `__MACOSX`, or `Thumbs.db` in any ASCII case.
pub proof fn lemma_hidden_segments(path: Seq<char>, j: int)
    requires
        0 <= j < segments(path).len(),
    ensures
        segments(path)[j].len() == 0 ==> hidden_path(path),
        segments(path)[j].len() > 0 && segments(path)[j][0] == '.' ==> hidden_path(path),
        segments(path)[j] == "__MACOSX"@ ==> hidden_path(path),
        eq_ignore_ascii_case(segments(path)[j], "thumbs.db"@) ==> hidden_path(path),
{
    assert(hidden_segment(segments(path)[j]) ==> hidden_path(path));
}

} // verus!
