//! Paths, as UTF-8 text.

use vstd::prelude::*;

use crate::text;

verus! {

/// The path that `Utf8Path::join` makes of `base` and `path`, written with the
/// separator of the platform that the crate is built for.
pub uninterp spec fn path_joined(base: Seq<char>, path: Seq<char>) -> Seq<char>;

/// The extension that `Utf8Path::extension` finds in `path`.
pub uninterp spec fn path_extension(path: Seq<char>) -> Option<Seq<char>>;

/// Whether `c` separates the components of a path on some platform.
pub open spec fn is_separator(c: char) -> bool {
    c == '/' || c == '\\'
}

/// Whether `base` starts with two separators, as the path of a network share
/// does.
pub open spec fn starts_with_share(base: Seq<char>) -> bool {
    base.len() >= 2 && is_separator(base[0]) && is_separator(base[1])
}

/// The ASCII letters and digits, the dash and the underscore.
pub open spec fn is_plain(c: char) -> bool {
    text::is_alphanumeric(c) || c == '-' || c == '_'
}

/// Whether `s` is made of plain characters alone.
pub open spec fn all_plain(s: Seq<char>) -> bool {
    forall|i: int| 0 <= i < s.len() ==> is_plain(#[trigger] s[i])
}

/// Whether `name` is a file name made of a stem and the extension `ext`, both of
/// plain characters, with a dot between them.
pub open spec fn is_file_name(name: Seq<char>, stem: Seq<char>, ext: Seq<char>) -> bool {
    &&& name == stem.push('.') + ext
    &&& stem.len() > 0
    &&& all_plain(stem)
    &&& all_plain(ext)
}

/// Whether `s` is a single name, made of plain characters and dots.
pub open spec fn is_name(s: Seq<char>) -> bool {
    &&& s.len() > 0
    &&& forall|i: int| 0 <= i < s.len() ==> is_plain(#[trigger] s[i]) || s[i] == '.'
}

/// Whether `path` is `base` with `name` directly under it: the two, with at most one
/// separator between them, and none behind a slash or an empty base.
pub open spec fn is_child(base: Seq<char>, name: Seq<char>, path: Seq<char>) -> bool {
    ||| path == base + name
    ||| exists|c: char|
        {
            &&& #[trigger] is_separator(c)
            &&& base.len() > 0
            &&& base.last() != '/'
            &&& path == base.push(c) + name
        }
}

/// `Utf8Path::join` adjoins `path` to `base`; the result depends on the two
/// alone. Where `path` is a single name, the joined path is `base` with that name
/// directly under it; where it is a plain file name with an extension, the joined
/// path has its extension. A base that starts with two separators is left out of
/// these two claims, because on some platforms such a path can name a network share
/// in place of a file.
#[verifier::external_body]
pub(crate) fn join(base: &str, path: &str) -> (r: String)
    ensures
        r@ == path_joined(base@, path@),
        is_name(path@) && !starts_with_share(base@) ==> is_child(base@, path@, r@),
        forall|stem: Seq<char>, ext: Seq<char>|
            #[trigger] is_file_name(path@, stem, ext) && !starts_with_share(base@)
                ==> path_extension(r@) == Some(ext),
{
    camino::Utf8Path::new(base).join(path).into_string()
}

/// `Utf8Path::extension` gives the part of the file name after its last dot,
/// where there is one and it does not start the name; it depends on the path
/// alone.
#[verifier::external_body]
pub(crate) fn extension(path: &str) -> (r: Option<String>)
    ensures
        r is Some <==> path_extension(path@) is Some,
        r is Some ==> r->0@ == path_extension(path@)->0,
{
    camino::Utf8Path::new(path).extension().map(|e| e.to_string())
}

} // verus!
