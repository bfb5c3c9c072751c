//! Character-level text helpers shared by the library: whitespace trimming,
//! word splitting, ASCII case folding, substring search and decimal output.
use vstd::prelude::*;

verus! {

/// Whether `c` has the Unicode `White_Space` property: the ASCII tab, line
/// feed, vertical tab, form feed, carriage return and space, the next line
/// and no-break space controls, the Ogham space mark, the en quad through
/// the hair space, the line and paragraph separators, the narrow no-break
/// space, the medium mathematical space and the ideographic space.
pub open spec fn unicode_white_space(c: char) -> bool {
    let v = c as u32;
    ||| 0x09 <= v <= 0x0D
    ||| v == 0x20
    ||| v == 0x85
    ||| v == 0xA0
    ||| v == 0x1680
    ||| 0x2000 <= v <= 0x200A
    ||| v == 0x2028
    ||| v == 0x2029
    ||| v == 0x202F
    ||| v == 0x205F
    ||| v == 0x3000
}

/// The Unicode lowercase mapping of a whole string, as `str::to_lowercase`
/// computes it.
pub uninterp spec fn lowercase(s: Seq<char>) -> Seq<char>;

/// Whether `c` is whitespace, as `char::is_whitespace` decides it: the
/// characters with the Unicode `White_Space` property.
pub(crate) fn is_whitespace(c: char) -> (r: bool)
    ensures
        r == unicode_white_space(c),
{
    let v = c as u32;
    (0x09 <= v && v <= 0x0D) || v == 0x20 || v == 0x85 || v == 0xA0 || v == 0x1680 || (0x2000 <= v && v
        <= 0x200A) || v == 0x2028 || v == 0x2029 || v == 0x202F || v == 0x205F || v == 0x3000
}

/// `str::to_lowercase`: the Unicode lowercase mapping of `s`, which depends on
/// the characters of `s` alone. An ASCII string maps character by
/// character, `A` to `Z` to `a` to `z` (so the empty string stays empty).
#[verifier::external_body]
pub(crate) fn to_lowercase(s: &str) -> (r: String)
    ensures
        r@ == lowercase(s@),
        (forall|i: int| 0 <= i < s@.len() ==> (#[trigger] s@[i] as u32) < 128) ==> r@.len() == s@.len() && forall|
            i: int,
        |
            0 <= i < s@.len() ==> (#[trigger] r@[i] as u32) == ascii_fold(s@[i]),
{
    s.to_lowercase()
}

/// `String::push`: appends one character.
#[verifier::external_body]
pub(crate) fn push_char(s: &mut String, c: char)
    ensures
        final(s)@ == old(s)@.push(c),
{
    s.push(c)
}

/// The characters of `s`, in order.
pub fn chars_of(s: &str) -> (v: Vec<char>)
    ensures
        v@ == s@,
{
    let mut v: Vec<char> = Vec::new();
    for c in it: s.chars()
        invariant
            v@ == it.seq().take(it.index() as int),
    {
        v.push(c);
    }
    v
}

/// A `String` holding exactly the characters of `v`.
pub fn string_from(v: &Vec<char>) -> (s: String)
    ensures
        s@ == v@,
{
    let mut s = String::new();
    let mut i: usize = 0;
    while i < v.len()
        invariant
            0 <= i <= v.len(),
            s@ == v@.take(i as int),
        decreases v.len() - i,
    {
        push_char(&mut s, v[i]);
        i += 1;
        assert(s@ == v@.take(i as int));
    }
    assert(v@.take(v@.len() as int) == v@);
    s
}

/// Appends the characters of `tail` to `s`.
pub fn push_chars(s: &mut String, tail: &Vec<char>)
    ensures
        final(s)@ == old(s)@ + tail@,
{
    let mut i: usize = 0;
    while i < tail.len()
        invariant
            0 <= i <= tail.len(),
            s@ == old(s)@ + tail@.take(i as int),
        decreases tail.len() - i,
    {
        push_char(s, tail[i]);
        i += 1;
        assert(s@ == old(s)@ + tail@.take(i as int));
    }
    assert(tail@.take(tail@.len() as int) == tail@);
}

/// A `String` holding the characters of `s` (`str::to_owned`).
pub fn owned(s: &str) -> (r: String)
    ensures
        r@ == s@,
{
    let v = chars_of(s);
    string_from(&v)
}

// ---------------------------------------------------------------------------
// ASCII case folding

/// The code of `c` after ASCII lowercasing: `A`..=`Z` move to `a`..=`z`,
/// everything else is unchanged.
pub open spec fn ascii_fold(c: char) -> u32 {
    let n = c as u32;
    if 65 <= n && n <= 90 {
        (n + 32) as u32
    } else {
        n
    }
}

/// `a` and `b` are equal up to ASCII case (`str::eq_ignore_ascii_case`).
pub open spec fn eq_ignore_ascii_case(a: Seq<char>, b: Seq<char>) -> bool {
    &&& a.len() == b.len()
    &&& forall|i: int| 0 <= i < a.len() ==> ascii_fold(#[trigger] a[i]) == ascii_fold(b[i])
}

pub fn fold_char(c: char) -> (r: u32)
    ensures
        r == ascii_fold(c),
{
    let n = c as u32;
    if 65 <= n && n <= 90 {
        n + 32
    } else {
        n
    }
}

pub fn chars_eq_ignore_ascii_case(a: &Vec<char>, b: &Vec<char>) -> (r: bool)
    ensures
        r == eq_ignore_ascii_case(a@, b@),
{
    if a.len() != b.len() {
        return false;
    }
    let mut i: usize = 0;
    while i < a.len()
        invariant
            a.len() == b.len(),
            0 <= i <= a.len(),
            forall|k: int| 0 <= k < i ==> ascii_fold(#[trigger] a@[k]) == ascii_fold(b@[k]),
        decreases a.len() - i,
    {
        if fold_char(a[i]) != fold_char(b[i]) {
            return false;
        }
        i += 1;
    }
    true
}

pub open spec fn chars_equal(a: Seq<char>, b: Seq<char>) -> bool {
    a == b
}

pub fn chars_eq(a: &Vec<char>, b: &Vec<char>) -> (r: bool)
    ensures
        r == (a@ == b@),
{
    if a.len() != b.len() {
        return false;
    }
    let mut i: usize = 0;
    while i < a.len()
        invariant
            a.len() == b.len(),
            0 <= i <= a.len(),
            forall|k: int| 0 <= k < i ==> a@[k] == b@[k],
        decreases a.len() - i,
    {
        if a[i] != b[i] {
            return false;
        }
        i += 1;
    }
    assert(a@ =~= b@);
    true
}

/// `a` starts with `p`.
pub open spec fn has_prefix(a: Seq<char>, p: Seq<char>) -> bool {
    p.len() <= a.len() && a.subrange(0, p.len() as int) == p
}

/// `a` ends with `p`.
pub open spec fn has_suffix(a: Seq<char>, p: Seq<char>) -> bool {
    p.len() <= a.len() && a.subrange(a.len() - p.len(), a.len() as int) == p
}

pub fn starts_with(a: &Vec<char>, p: &Vec<char>) -> (r: bool)
    ensures
        r == has_prefix(a@, p@),
{
    if p.len() > a.len() {
        return false;
    }
    let mut i: usize = 0;
    while i < p.len()
        invariant
            p.len() <= a.len(),
            0 <= i <= p.len(),
            forall|k: int| 0 <= k < i ==> a@[k] == p@[k],
        decreases p.len() - i,
    {
        if a[i] != p[i] {
            assert(a@.subrange(0, p.len() as int)[i as int] != p@[i as int]);
            return false;
        }
        i += 1;
    }
    assert(a@.subrange(0, p.len() as int) =~= p@);
    true
}

pub fn ends_with(a: &Vec<char>, p: &Vec<char>) -> (r: bool)
    ensures
        r == has_suffix(a@, p@),
{
    if p.len() > a.len() {
        return false;
    }
    let off = a.len() - p.len();
    let mut i: usize = 0;
    while i < p.len()
        invariant
            p.len() <= a.len(),
            off == a.len() - p.len(),
            0 <= i <= p.len(),
            forall|k: int| 0 <= k < i ==> a@[off + k] == p@[k],
        decreases p.len() - i,
    {
        if a[off + i] != p[i] {
            assert(a@.subrange(off as int, a.len() as int)[i as int] != p@[i as int]);
            return false;
        }
        i += 1;
    }
    assert(a@.subrange(off as int, a.len() as int) =~= p@);
    true
}

// ---------------------------------------------------------------------------
// Substring search

/// `needle` occurs in `hay` at position `i`.
pub open spec fn occurs_at(hay: Seq<char>, needle: Seq<char>, i: int) -> bool {
    0 <= i && i + needle.len() <= hay.len() && hay.subrange(i, i + needle.len()) == needle
}

/// `needle` occurs somewhere in `hay` (`str::contains` with a string pattern).
pub open spec fn contains_chars(hay: Seq<char>, needle: Seq<char>) -> bool {
    exists|i: int| occurs_at(hay, needle, i)
}

fn matches_at(hay: &Vec<char>, needle: &Vec<char>, i: usize) -> (r: bool)
    requires
        i + needle.len() <= hay.len(),
    ensures
        r == occurs_at(hay@, needle@, i as int),
{
    let mut k: usize = 0;
    while k < needle.len()
        invariant
            i + needle.len() <= hay.len(),
            0 <= k <= needle.len(),
            forall|j: int| 0 <= j < k ==> hay@[i + j] == needle@[j],
        decreases needle.len() - k,
    {
        if hay[i + k] != needle[k] {
            assert(hay@.subrange(i as int, i + needle.len())[k as int] != needle@[k as int]);
            return false;
        }
        k += 1;
    }
    assert(hay@.subrange(i as int, i + needle.len()) =~= needle@);
    true
}

pub fn contains(hay: &Vec<char>, needle: &Vec<char>) -> (r: bool)
    ensures
        r == contains_chars(hay@, needle@),
{
    if needle.len() > hay.len() {
        return false;
    }
    let last = hay.len() - needle.len();
    let mut i: usize = 0;
    while i < last
        invariant
            needle.len() <= hay.len(),
            last == hay.len() - needle.len(),
            0 <= i <= last,
            forall|j: int| 0 <= j < i ==> !occurs_at(hay@, needle@, j),
        decreases last - i,
    {
        if matches_at(hay, needle, i) {
            return true;
        }
        i += 1;
    }
    if matches_at(hay, needle, last) {
        return true;
    }
    assert forall|j: int| !occurs_at(hay@, needle@, j) by {
        if 0 <= j && j + needle@.len() <= hay@.len() {
            assert(j <= last);
        }
    }
    false
}

// ---------------------------------------------------------------------------
// Trimming

/// Number of whitespace characters at the front of `s`.
pub open spec fn leading_ws(s: Seq<char>) -> nat
    decreases s.len(),
{
    if s.len() == 0 || !unicode_white_space(s[0]) {
        0
    } else {
        1 + leading_ws(s.drop_first())
    }
}

/// Number of whitespace characters at the back of `s`.
pub open spec fn trailing_ws(s: Seq<char>) -> nat
    decreases s.len(),
{
    if s.len() == 0 || !unicode_white_space(s.last()) {
        0
    } else {
        1 + trailing_ws(s.drop_last())
    }
}

/// `s` without leading and trailing whitespace (`str::trim`).
pub open spec fn trimmed(s: Seq<char>) -> Seq<char> {
    if leading_ws(s) >= s.len() {
        Seq::empty()
    } else {
        s.subrange(leading_ws(s) as int, s.len() - trailing_ws(s))
    }
}

proof fn lemma_leading_ws(s: Seq<char>, k: int)
    requires
        0 <= k <= s.len(),
        forall|j: int| 0 <= j < k ==> unicode_white_space(#[trigger] s[j]),
        k == s.len() || !unicode_white_space(s[k]),
    ensures
        leading_ws(s) == k,
    decreases k,
{
    if k > 0 {
        assert(unicode_white_space(s[0]));
        lemma_leading_ws(s.drop_first(), k - 1);
    }
}

proof fn lemma_trailing_ws(s: Seq<char>, k: int)
    requires
        0 <= k <= s.len(),
        forall|j: int| s.len() - k <= j < s.len() ==> unicode_white_space(#[trigger] s[j]),
        k == s.len() || !unicode_white_space(s[s.len() - 1 - k]),
    ensures
        trailing_ws(s) == k,
    decreases k,
{
    if k > 0 {
        assert(unicode_white_space(s[s.len() - 1]));
        lemma_trailing_ws(s.drop_last(), k - 1);
    }
}

/// Range `[start, end)` of the characters of `v` that survive trimming.
pub fn trim_bounds(v: &Vec<char>) -> (r: (usize, usize))
    ensures
        r.0 <= r.1 <= v.len(),
        v@.subrange(r.0 as int, r.1 as int) == trimmed(v@),
{
    let mut start: usize = 0;
    while start < v.len() && is_whitespace(v[start])
        invariant
            0 <= start <= v.len(),
            forall|j: int| 0 <= j < start ==> unicode_white_space(#[trigger] v@[j]),
        decreases v.len() - start,
    {
        start += 1;
    }
    proof {
        lemma_leading_ws(v@, start as int);
    }
    if start == v.len() {
        assert(v@.subrange(start as int, start as int) =~= Seq::<char>::empty());
        return (start, start);
    }
    let mut end: usize = v.len();
    while end > start && is_whitespace(v[end - 1])
        invariant
            start < v.len(),
            !unicode_white_space(v@[start as int]),
            start <= end <= v.len(),
            forall|j: int| end <= j < v.len() ==> unicode_white_space(#[trigger] v@[j]),
        decreases end,
    {
        end -= 1;
    }
    proof {
        lemma_trailing_ws(v@, v.len() - end);
    }
    (start, end)
}

/// The characters of `v` in `[start, end)`.
pub fn slice_chars(v: &Vec<char>, start: usize, end: usize) -> (r: Vec<char>)
    requires
        start <= end <= v.len(),
    ensures
        r@ == v@.subrange(start as int, end as int),
{
    let mut r: Vec<char> = Vec::new();
    let mut i = start;
    while i < end
        invariant
            start <= i <= end <= v.len(),
            r@ == v@.subrange(start as int, i as int),
        decreases end - i,
    {
        r.push(v[i]);
        i += 1;
        assert(r@ =~= v@.subrange(start as int, i as int));
    }
    r
}

pub fn trim_chars(v: &Vec<char>) -> (r: Vec<char>)
    ensures
        r@ == trimmed(v@),
{
    let (start, end) = trim_bounds(v);
    slice_chars(v, start, end)
}

/// `s.trim().to_owned()`.
pub fn trim(s: &str) -> (r: String)
    ensures
        r@ == trimmed(s@),
{
    let v = chars_of(s);
    let t = trim_chars(&v);
    string_from(&t)
}

// ---------------------------------------------------------------------------
// Words

/// The maximal runs of non-whitespace characters of `s`, in order
/// (`str::split_whitespace`).
pub open spec fn words(s: Seq<char>) -> Seq<Seq<char>>
    decreases s.len(),
{
    if s.len() == 0 {
        Seq::empty()
    } else {
        let rest = words(s.drop_last());
        let c = s.last();
        if unicode_white_space(c) {
            rest
        } else if s.len() >= 2 && !unicode_white_space(s[s.len() - 2]) && rest.len() > 0 {
            rest.update(rest.len() - 1, rest.last().push(c))
        } else {
            rest.push(seq![c])
        }
    }
}

/// The pieces of `parts` joined with `sep` between consecutive pieces
/// (`[T]::join`).
pub open spec fn join(parts: Seq<Seq<char>>, sep: Seq<char>) -> Seq<char>
    decreases parts.len(),
{
    if parts.len() == 0 {
        Seq::empty()
    } else if parts.len() == 1 {
        parts[0]
    } else {
        join(parts.drop_last(), sep) + sep + parts.last()
    }
}

proof fn lemma_words_nonempty_ends(s: Seq<char>)
    requires
        s.len() > 0,
        !unicode_white_space(s.last()),
    ensures
        words(s).len() > 0,
{
}

/// Whitespace runs between words collapse to one space and leading and
/// trailing whitespace is dropped (`split_whitespace().join(" ")`).
pub fn collapse_whitespace(v: &Vec<char>) -> (r: Vec<char>)
    ensures
        r@ == join(words(v@), seq![' ']),
{
    let mut out: Vec<char> = Vec::new();
    let mut i: usize = 0;
    while i < v.len()
        invariant
            0 <= i <= v.len(),
            out@ == join(words(v@.take(i as int)), seq![' ']),
            (words(v@.take(i as int)).len() == 0) == (out@.len() == 0),
        decreases v.len() - i,
    {
        let c = v[i];
        let ghost p = v@.take(i as int);
        let ghost q = v@.take(i + 1);
        assert(q.drop_last() =~= p);
        assert(q.last() == c);
        let ws = is_whitespace(c);
        if ws {
        } else {
            let continues = i > 0 && !is_whitespace(v[i - 1]);
            proof {
                if i > 0 {
                    assert(q[q.len() - 2] == v@[i - 1]);
                    assert(p.last() == v@[i - 1]);
                }
            }
            if continues {
                proof {
                    lemma_words_nonempty_ends(p);
                    let ws_p = words(p);
                    let w2 = ws_p.update(ws_p.len() - 1, ws_p.last().push(c));
                    lemma_join_extend_last(ws_p, seq![' '], c);
                    assert(words(q) == w2);
                }
                out.push(c);
            } else {
                proof {
                    let ws_p = words(p);
                    assert(words(q) == ws_p.push(seq![c]));
                    if ws_p.len() == 0 {
                        assert(ws_p.push(seq![c]).len() == 1);
                        assert(join(ws_p.push(seq![c]), seq![' ']) == seq![c]);
                    } else {
                        assert(ws_p.push(seq![c]).drop_last() =~= ws_p);
                    }
                }
                if out.len() > 0 {
                    out.push(' ');
                }
                out.push(c);
                proof {
                    let ws_p = words(p);
                    if ws_p.len() == 0 {
                        assert(out@ =~= seq![c]);
                    } else {
                        assert(out@ =~= join(ws_p, seq![' ']) + seq![' '] + seq![c]);
                    }
                }
            }
        }
        i += 1;
    }
    assert(v@.take(v@.len() as int) =~= v@);
    out
}

proof fn lemma_join_extend_last(parts: Seq<Seq<char>>, sep: Seq<char>, c: char)
    requires
        parts.len() > 0,
    ensures
        join(parts.update(parts.len() - 1, parts.last().push(c)), sep) == join(parts, sep).push(c),
{
    let q = parts.update(parts.len() - 1, parts.last().push(c));
    if parts.len() == 1 {
        assert(q[0] == parts[0].push(c));
    } else {
        assert(q.drop_last() =~= parts.drop_last());
        assert(q.last() == parts.last().push(c));
        assert(join(q, sep) =~= join(parts, sep).push(c));
    }
}

// ---------------------------------------------------------------------------
// Decimal output

pub open spec fn digit_char(d: int) -> char {
    if d == 0 {
        '0'
    } else if d == 1 {
        '1'
    } else if d == 2 {
        '2'
    } else if d == 3 {
        '3'
    } else if d == 4 {
        '4'
    } else if d == 5 {
        '5'
    } else if d == 6 {
        '6'
    } else if d == 7 {
        '7'
    } else if d == 8 {
        '8'
    } else {
        '9'
    }
}

/// Decimal digits of `n` without leading zeros (`"0"` for zero), as
/// `Display` prints an unsigned integer.
pub open spec fn decimal(n: nat) -> Seq<char>
    decreases n,
{
    if n < 10 {
        seq![digit_char(n as int)]
    } else {
        decimal(n / 10).push(digit_char((n % 10) as int))
    }
}

fn digit(d: u64) -> (c: char)
    requires
        d < 10,
    ensures
        c == digit_char(d as int),
{
    if d == 0 {
        '0'
    } else if d == 1 {
        '1'
    } else if d == 2 {
        '2'
    } else if d == 3 {
        '3'
    } else if d == 4 {
        '4'
    } else if d == 5 {
        '5'
    } else if d == 6 {
        '6'
    } else if d == 7 {
        '7'
    } else if d == 8 {
        '8'
    } else {
        '9'
    }
}

/// The decimal digits of `n`.
pub fn decimal_chars(n: u64) -> (r: Vec<char>)
    ensures
        r@ == decimal(n as nat),
    decreases n,
{
    if n < 10 {
        let mut v: Vec<char> = Vec::new();
        v.push(digit(n));
        v
    } else {
        let mut v = decimal_chars(n / 10);
        v.push(digit(n % 10));
        v
    }
}

} // verus!

verus! {

// ---------------------------------------------------------------------------
// Decimal input

pub open spec fn is_digit(c: char) -> bool {
    48 <= (c as u32) <= 57
}

pub open spec fn all_digits(s: Seq<char>) -> bool {
    forall|i: int| 0 <= i < s.len() ==> is_digit(#[trigger] s[i])
}

/// The value of a run of decimal digits.
pub open spec fn digits_value(s: Seq<char>) -> nat
    decreases s.len(),
{
    if s.len() == 0 {
        0
    } else {
        digits_value(s.drop_last()) * 10 + ((s.last() as u32) - 48) as nat
    }
}

/// The number an unsigned integer's `FromStr` reads from `s`, before the
/// range check: an optional `+` followed by one or more decimal digits.
pub open spec fn unsigned_text(s: Seq<char>) -> Option<nat> {
    let body = if s.len() > 0 && s[0] == '+' {
        s.drop_first()
    } else {
        s
    };
    if body.len() > 0 && all_digits(body) {
        Some(digits_value(body))
    } else {
        None
    }
}

/// The number a signed integer's `FromStr` reads from `s`, before the range
/// check: an optional `+` or `-` followed by one or more decimal digits.
pub open spec fn signed_text(s: Seq<char>) -> Option<int> {
    if s.len() > 0 && s[0] == '-' {
        let body = s.drop_first();
        if body.len() > 0 && all_digits(body) {
            Some(-(digits_value(body) as int))
        } else {
            None
        }
    } else {
        match unsigned_text(s) {
            Some(n) => Some(n as int),
            None => None,
        }
    }
}

/// `s.parse::<usize>()`, with the error collapsed to `None`.
pub open spec fn parsed_usize(s: Seq<char>) -> Option<usize> {
    match unsigned_text(s) {
        Some(n) => if n <= usize::MAX {
            Some(n as usize)
        } else {
            None
        },
        None => None,
    }
}

/// `s.parse::<i32>()`, with the error collapsed to `None`.
pub open spec fn parsed_i32(s: Seq<char>) -> Option<i32> {
    match signed_text(s) {
        Some(n) => if i32::MIN <= n <= i32::MAX {
            Some(n as i32)
        } else {
            None
        },
        None => None,
    }
}

proof fn lemma_digits_value_push(s: Seq<char>, c: char)
    ensures
        digits_value(s.push(c)) == digits_value(s) * 10 + ((c as u32) - 48) as nat,
{
    assert(s.push(c).drop_last() =~= s);
}

proof fn lemma_digits_value_monotone(s: Seq<char>, i: int)
    requires
        0 <= i <= s.len(),
        all_digits(s),
    ensures
        digits_value(s.take(i)) <= digits_value(s),
    decreases s.len() - i,
{
    if i < s.len() {
        lemma_digits_value_monotone(s, i + 1);
        assert(s.take(i + 1) =~= s.take(i).push(s[i]));
        lemma_digits_value_push(s.take(i), s[i]);
        let t = digits_value(s.take(i));
        assert(t <= t * 10) by (nonlinear_arith);
    } else {
        assert(s.take(i) =~= s);
    }
}

/// `s.parse::<usize>().ok()` on the characters of `v`.
pub fn parse_usize(v: &Vec<char>) -> (r: Option<usize>)
    ensures
        r == parsed_usize(v@),
{
    let start: usize = if v.len() > 0 && v[0] == '+' {
        1
    } else {
        0
    };
    proof {
        assert(v@.skip(start as int) =~= if v@.len() > 0 && v@[0] == '+' {
            v@.drop_first()
        } else {
            v@
        });
    }
    match digits_wide(v, start) {
        None => None,
        Some(n) => Some(n),
    }
}

/// Reads `v[from..]` as decimal digits into a `usize`, `None` when the run
/// is empty, holds a non-digit, or exceeds `usize::MAX`.
fn digits_wide(v: &Vec<char>, from: usize) -> (r: Option<usize>)
    requires
        from <= v.len(),
    ensures
        match r {
            Some(n) => {
                let body = v@.skip(from as int);
                &&& body.len() > 0
                &&& all_digits(body)
                &&& n == digits_value(body)
            },
            None => {
                let body = v@.skip(from as int);
                !(body.len() > 0 && all_digits(body)) || digits_value(body) > usize::MAX
            },
        },
{
    let ghost body = v@.skip(from as int);
    if from == v.len() {
        return None;
    }
    let mut value: usize = 0;
    let mut i = from;
    while i < v.len()
        invariant
            from < v.len(),
            body == v@.skip(from as int),
            from <= i <= v.len(),
            all_digits(body.take(i - from)),
            value == digits_value(body.take(i - from)),
        decreases v.len() - i,
    {
        let c = v[i];
        let code = c as u32;
        if !(48 <= code && code <= 57) {
            proof {
                assert(body[i - from] == c);
            }
            return None;
        }
        let d = (code - 48) as usize;
        proof {
            let t = body.take(i - from);
            assert(body.take(i + 1 - from) =~= t.push(c));
            lemma_digits_value_push(t, c);
        }
        match value.checked_mul(10) {
            None => {
                proof {
                    assert(all_digits(body.take(i + 1 - from)));
                    lemma_too_big(body, i + 1 - from);
                }
                return None;
            },
            Some(m) => match m.checked_add(d) {
                None => {
                    proof {
                        lemma_too_big(body, i + 1 - from);
                    }
                    return None;
                },
                Some(next) => {
                    value = next;
                },
            },
        }
        i += 1;
    }
    proof {
        assert(body.take(v.len() - from) =~= body);
    }
    Some(value)
}

proof fn lemma_too_big(body: Seq<char>, k: int)
    requires
        0 <= k <= body.len(),
        digits_value(body.take(k)) > usize::MAX,
    ensures
        !(body.len() > 0 && all_digits(body)) || digits_value(body) > usize::MAX,
{
    if body.len() > 0 && all_digits(body) {
        lemma_digits_value_monotone(body, k);
    }
}

} // verus!

verus! {

/// `s.parse::<i32>().ok()` on the characters of `v`.
pub fn parse_i32(v: &Vec<char>) -> (r: Option<i32>)
    ensures
        r == parsed_i32(v@),
{
    if v.len() > 0 && v[0] == '-' {
        proof {
            assert(v@.skip(1) =~= v@.drop_first());
        }
        match digits_wide(v, 1) {
            None => None,
            Some(n) => {
                if n <= 2147483648 {
                    Some((0i64 - n as i64) as i32)
                } else {
                    None
                }
            },
        }
    } else {
        let start: usize = if v.len() > 0 && v[0] == '+' {
            1
        } else {
            0
        };
        proof {
            assert(v@.skip(start as int) =~= if v@.len() > 0 && v@[0] == '+' {
                v@.drop_first()
            } else {
                v@
            });
        }
        match digits_wide(v, start) {
            None => None,
            Some(n) => {
                if n <= 2147483647 {
                    Some(n as i32)
                } else {
                    None
                }
            },
        }
    }
}

/// The character of a decimal digit has the code of `0` plus the digit.
proof fn lemma_digit_char(d: int)
    requires
        0 <= d < 10,
    ensures
        (digit_char(d) as u32) == 48 + d,
{
    assert(('0' as u32) == 48);
    assert(('1' as u32) == 49);
    assert(('2' as u32) == 50);
    assert(('3' as u32) == 51);
    assert(('4' as u32) == 52);
    assert(('5' as u32) == 53);
    assert(('6' as u32) == 54);
    assert(('7' as u32) == 55);
    assert(('8' as u32) == 56);
    assert(('9' as u32) == 57);
}

/// The decimal text of a number is a non-empty run of digits, unsigned, that
/// reads back as the number.
pub proof fn lemma_decimal_digits(n: nat)
    ensures
        decimal(n).len() > 0,
        all_digits(decimal(n)),
        digits_value(decimal(n)) == n,
        decimal(n)[0] != '+',
        decimal(n)[0] != '-',
    decreases n,
{
    lemma_digit_char((n % 10) as int);
    if n < 10 {
        assert(decimal(n) == seq![digit_char(n as int)]);
        assert(decimal(n).drop_last() =~= Seq::<char>::empty());
        assert(digits_value(Seq::<char>::empty()) == 0);
        assert(decimal(n).last() == digit_char(n as int));
        assert(digits_value(decimal(n)) == digits_value(decimal(n).drop_last()) * 10 + ((decimal(n).last() as u32) - 48) as nat);
    }
    if n >= 10 {
        lemma_decimal_digits(n / 10);
        let d = decimal(n / 10);
        let c = digit_char((n % 10) as int);
        assert(decimal(n) == d.push(c));
        lemma_digits_value_push(d, c);
        assert(digits_value(decimal(n)) == digits_value(d) * 10 + ((c as u32) - 48) as nat);
        assert(((c as u32) - 48) as nat == n % 10);
        assert(n == (n / 10) * 10 + n % 10) by (nonlinear_arith);
        assert(decimal(n)[0] == d[0]);
    }
}

} // verus!

verus! {

/// `e` equals the literal `lit` up to ASCII case.
pub fn matches_ignoring_case(e: &Vec<char>, lit: &str) -> (r: bool)
    ensures
        r == eq_ignore_ascii_case(e@, lit@),
{
    let l = chars_of(lit);
    chars_eq_ignore_ascii_case(e, &l)
}

} // verus!
