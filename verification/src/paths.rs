//! The parts of `std::path` that the library reads from path strings. Each
//! answer depends on the path's characters alone, so each is given a name.
use vstd::prelude::*;

verus! {

/// `Path::extension`: the part of the final component after its last `.`,
/// if the component has one that is not its first character.
pub uninterp spec fn path_extension(p: Seq<char>) -> Option<Seq<char>>;

/// `Path::file_name`: the final normal component of the path.
pub uninterp spec fn path_file_name(p: Seq<char>) -> Option<Seq<char>>;

/// `Path::file_stem`: the final component without its extension.
pub uninterp spec fn path_file_stem(p: Seq<char>) -> Option<Seq<char>>;

/// `Path::parent`: the path without its final component.
pub uninterp spec fn path_parent(p: Seq<char>) -> Option<Seq<char>>;

/// `Path::join`: `base` followed by `child`, with one separator between
/// them.
pub uninterp spec fn path_join(base: Seq<char>, child: Seq<char>) -> Seq<char>;

/// `Path::with_extension`: the path with the extension of its final
/// component replaced by `ext` (added when it has none).
pub uninterp spec fn path_with_extension(p: Seq<char>, ext: Seq<char>) -> Seq<char>;

/// `Path::cmp`: how two paths order, component by component, as -1, 0 or
/// 1. Paths that differ only in how their components are written (a
/// doubled or trailing separator, a `.` component) are equal in it.
pub uninterp spec fn path_order(a: Seq<char>, b: Seq<char>) -> int;

/// `Path::new(a).cmp(Path::new(b))`, as -1, 0 or 1. `Ord` is antisymmetric,
/// so comparing the other way round gives the opposite answer.
#[verifier::external_body]
pub(crate) fn compare_paths(a: &str, b: &str) -> (r: i8)
    ensures
        r == path_order(a@, b@),
        r == -path_order(b@, a@),
        -1 <= r <= 1,
{
    match std::path::Path::new(a).cmp(std::path::Path::new(b)) {
        std::cmp::Ordering::Less => -1,
        std::cmp::Ordering::Equal => 0,
        std::cmp::Ordering::Greater => 1,
    }
}

/// `Path::new(p).extension()`, as a `String`. A path built from a `&str` has
/// UTF-8 components, so the conversion back never fails.
#[verifier::external_body]
pub(crate) fn extension_of(p: &str) -> (r: Option<String>)
    ensures
        match r {
            Some(e) => path_extension(p@) == Some(e@),
            None => path_extension(p@) is None,
        },
{
    std::path::Path::new(p).extension().and_then(|value| value.to_str()).map(str::to_owned)
}

/// `Path::new(p).file_name()`, as a `String`.
#[verifier::external_body]
pub(crate) fn file_name_of(p: &str) -> (r: Option<String>)
    ensures
        match r {
            Some(e) => path_file_name(p@) == Some(e@),
            None => path_file_name(p@) is None,
        },
{
    std::path::Path::new(p).file_name().and_then(|value| value.to_str()).map(str::to_owned)
}

/// `Path::new(p).file_stem()`, as a `String`.
#[verifier::external_body]
pub(crate) fn file_stem_of(p: &str) -> (r: Option<String>)
    ensures
        match r {
            Some(e) => path_file_stem(p@) == Some(e@),
            None => path_file_stem(p@) is None,
        },
{
    std::path::Path::new(p).file_stem().and_then(|value| value.to_str()).map(str::to_owned)
}

/// `Path::new(p).parent()`, as a `String`.
#[verifier::external_body]
pub(crate) fn parent_of(p: &str) -> (r: Option<String>)
    ensures
        match r {
            Some(e) => path_parent(p@) == Some(e@),
            None => path_parent(p@) is None,
        },
{
    std::path::Path::new(p).parent().and_then(|value| value.to_str()).map(str::to_owned)
}

/// `Path::new(base).join(child)`, as a `String`.
#[verifier::external_body]
pub(crate) fn join_path(base: &str, child: &str) -> (r: String)
    ensures
        r@ == path_join(base@, child@),
{
    std::path::Path::new(base).join(child).to_string_lossy().into_owned()
}

/// `Path::new(p).with_extension(ext)`, as a `String`. Both parts are UTF-8,
/// so the conversion back is exact. An extension holding a path separator
/// makes it panic, so none is passed.
#[verifier::external_body]
pub(crate) fn with_extension(p: &str, ext: &str) -> (r: String)
    requires
        forall|i: int| 0 <= i < ext@.len() ==> #[trigger] ext@[i] != '/' && ext@[i] != '\\',
    ensures
        r@ == path_with_extension(p@, ext@),
{
    std::path::Path::new(p).with_extension(ext).to_string_lossy().into_owned()
}

} // verus!
