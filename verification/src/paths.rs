//! The few `std::path` operations the library needs, on UTF-8 paths held as
//! strings.

use vstd::prelude::*;

verus! {

/// What `Path::extension` gives for a path, as text.
pub uninterp spec fn path_extension(p: Seq<char>) -> Option<Seq<char>>;

/// What `Path::file_stem` gives for a path, as text.
pub uninterp spec fn path_file_stem(p: Seq<char>) -> Option<Seq<char>>;

/// What `Path::file_name` gives for a path, as text.
pub uninterp spec fn path_file_name(p: Seq<char>) -> Option<Seq<char>>;

/// What `Path::join` gives for a base path and a relative name, as text.
pub uninterp spec fn path_join(base: Seq<char>, name: Seq<char>) -> Seq<char>;

/// What `PathBuf::set_extension` leaves of a path, as text.
pub uninterp spec fn path_with_extension(p: Seq<char>, ext: Seq<char>) -> Seq<char>;

/// What `==` on `Path` says of two paths (it compares their components).
pub uninterp spec fn path_eq(a: Seq<char>, b: Seq<char>) -> bool;

/// What `<` on `Path` says of two paths (it compares their components).
pub uninterp spec fn path_lt(a: Seq<char>, b: Seq<char>) -> bool;

/// What `Path::ancestors` lists for a path (the path itself first), as
/// text.
pub uninterp spec fn path_ancestors(p: Seq<char>) -> Seq<Seq<char>>;

/// `Path::extension` of `p`. A path built from `&str` is valid UTF-8, so
/// the conversion back to text never fails.
#[verifier::external_body]
pub(crate) fn extension_text(p: &str) -> (r: Option<String>)
    ensures
        r.deep_view() == path_extension(p@),
{
    std::path::Path::new(p).extension().and_then(|e| e.to_str()).map(|e| e.to_string())
}

/// `Path::file_stem` of `p`, as text.
#[verifier::external_body]
pub(crate) fn file_stem_text(p: &str) -> (r: Option<String>)
    ensures
        r.deep_view() == path_file_stem(p@),
{
    std::path::Path::new(p).file_stem().and_then(|e| e.to_str()).map(|e| e.to_string())
}

/// `Path::file_name` of `p`, as text.
#[verifier::external_body]
pub(crate) fn file_name_text(p: &str) -> (r: Option<String>)
    ensures
        r.deep_view() == path_file_name(p@),
{
    std::path::Path::new(p).file_name().and_then(|e| e.to_str()).map(|e| e.to_string())
}

/// `Path::join` of `base` and `name`, as text (lossless: both are UTF-8).
#[verifier::external_body]
pub(crate) fn join_text(base: &str, name: &str) -> (r: String)
    ensures
        r@ == path_join(base@, name@),
{
    std::path::Path::new(base).join(name).to_string_lossy().into_owned()
}

/// `p` with its extension replaced by `ext` (`PathBuf::set_extension`),
/// which panics when `ext` holds a path separator. Where `p` has a file
/// name, the new path's extension is `ext`, provided `ext` is not empty and
/// holds no dot (an empty one removes the extension, and only the part after
/// a dot would count as the extension).
#[verifier::external_body]
pub(crate) fn with_extension_text(p: &str, ext: &str) -> (r: String)
    requires
        !ext@.contains('/'),
        !ext@.contains('\\'),
    ensures
        r@ == path_with_extension(p@, ext@),
        path_file_name(p@) is Some && ext@.len() > 0 && !ext@.contains('.') ==> path_extension(r@) == Some(ext@),
{
    let mut buf = std::path::PathBuf::from(p);
    buf.set_extension(ext);
    buf.to_string_lossy().into_owned()
}

/// `Path::new(a) == Path::new(b)`. Equal texts name equal paths, since
/// `Path`'s `==` is reflexive.
#[verifier::external_body]
pub(crate) fn same_path(a: &str, b: &str) -> (r: bool)
    ensures
        r == path_eq(a@, b@),
        a@ == b@ ==> r,
{
    std::path::Path::new(a) == std::path::Path::new(b)
}

/// `Path::ancestors` of `p`, at most `limit` of them, as text.
#[verifier::external_body]
pub(crate) fn ancestors_text(p: &str, limit: usize) -> (r: Vec<String>)
    ensures
        r@.map_values(|s: String| s@) == path_ancestors(p@).take(
            if path_ancestors(p@).len() < limit { path_ancestors(p@).len() as int } else { limit as int }),
{
    std::path::Path::new(p).ancestors().take(limit).map(|a| a.to_string_lossy().into_owned()).collect()
}

/// How one path compares with another in `Path` order.
#[derive(Clone, Copy, PartialEq, Eq, Structural, Debug)]
pub enum PathOrder {
    Less,
    Equal,
    Greater,
}

/// `Path::new(a).cmp(Path::new(b))`. `Path` is `Ord`: its order is a total
/// order that compares components, and its `==` holds exactly when that
/// order says equal; so the result places `a` against `b`, and through `b`
/// against any other path.
#[verifier::external_body]
pub(crate) fn compare_paths(a: &str, b: &str) -> (r: PathOrder)
    ensures
        (r == PathOrder::Less) == path_lt(a@, b@),
        (r == PathOrder::Greater) == path_lt(b@, a@),
        (r == PathOrder::Equal) == path_eq(a@, b@),
        (r == PathOrder::Equal) == path_eq(b@, a@),
        a@ == b@ ==> r == PathOrder::Equal,
        r == PathOrder::Greater ==> forall|c: Seq<char>| #[trigger] path_lt(c, b@) ==> path_lt(c, a@),
        r != PathOrder::Equal ==> forall|c: Seq<char>| #[trigger] path_eq(c, b@) ==> !path_eq(c, a@),
{
    match std::path::Path::new(a).cmp(std::path::Path::new(b)) {
        std::cmp::Ordering::Less => PathOrder::Less,
        std::cmp::Ordering::Equal => PathOrder::Equal,
        std::cmp::Ordering::Greater => PathOrder::Greater,
    }
}

} // verus!
