//! Filesystem path operations of the standard library, on UTF-8 paths.
//!
//! Paths are held as `String`s. Joining, replacing extensions and file names
//! are done by `std::path::Path`; its results depend only on the arguments
//! (for the platform the crate is compiled for) and are named here by
//! uninterpreted spec functions.
use vstd::prelude::*;

verus! {

/// What `Path::join` returns for `base` and `part`.
pub uninterp spec fn joined_path(base: Seq<char>, part: Seq<char>) -> Seq<char>;

/// What `Path::with_extension` returns for `path` and `extension`.
pub uninterp spec fn path_with_extension(path: Seq<char>, extension: Seq<char>) -> Seq<char>;

/// What `Path::with_file_name` returns for `path` and `file_name`.
pub uninterp spec fn path_with_file_name(path: Seq<char>, file_name: Seq<char>) -> Seq<char>;

/// What `Path::file_name` returns for `path`: its final component, if any.
pub uninterp spec fn path_file_name(path: Seq<char>) -> Option<Seq<char>>;

/// The extension the standard library reads off a file name: `None` when the
/// name has no `'.'`, or its only `'.'` is its first character; otherwise
/// the part after the final `'.'`.
pub open spec fn extension_of_file_name(name: Seq<char>) -> Option<Seq<char>> {
    if exists|i: int| 1 <= i < name.len() && name[i] == '.' {
        let i = choose|i: int|
            1 <= i < name.len() && name[i] == '.' && forall|k: int| i < k < name.len() ==> name[k] != '.';
        Some(name.subrange(i + 1, name.len() as int))
    } else {
        None
    }
}

/// `text` ends with `suffix`.
pub open spec fn ends_with(text: Seq<char>, suffix: Seq<char>) -> bool {
    suffix.len() <= text.len() && text.subrange(text.len() - suffix.len(), text.len() as int) == suffix
}

/// `name` is a single ordinary path component on every platform: not empty,
/// not `.` or `..`, and free of separators and of the `:` that starts a
/// Windows drive prefix.
pub open spec fn is_plain_name(name: Seq<char>) -> bool {
    &&& name.len() > 0
    &&& forall|i: int| 0 <= i < name.len() ==> #[trigger] name[i] != '/' && name[i] != '\\' && name[i] != ':'
    &&& name != seq!['.']
    &&& name != seq!['.', '.']
}

/// `path` ends with its file name, and that file name has no extension.
pub open spec fn is_bare_stem(path: Seq<char>) -> bool {
    &&& path_file_name(path) matches Some(n)
    &&& n.len() > 0
    &&& ends_with(path, n)
    &&& extension_of_file_name(n) is None
}

/// `path` ends with its file name, and that file name has an extension.
pub open spec fn ends_with_extension(path: Seq<char>) -> bool {
    &&& path_file_name(path) matches Some(n)
    &&& ends_with(path, n)
    &&& extension_of_file_name(n) is Some
}

/// `path` without the `.` and extension that end it.
pub open spec fn without_extension(path: Seq<char>) -> Seq<char> {
    let x = extension_of_file_name(path_file_name(path)->0)->0;
    path.subrange(0, path.len() - x.len() - 1)
}

/// `extension` is a non-empty extension without dots or separators.
pub open spec fn is_simple_extension(extension: Seq<char>) -> bool {
    &&& extension.len() > 0
    &&& has_no_separator(extension)
    &&& forall|i: int| 0 <= i < extension.len() ==> #[trigger] extension[i] != '.'
}

/// `std::path::Path::join`: `base` with `part` adjoined (`part` replaces
/// `base` when it is absolute). The result is named by `joined_path`. As the
/// documentation of `PathBuf::push` says, a relative `part` is appended after
/// a separator; so when `part` is a single plain component, the result ends
/// with it and it is the result's file name.
#[verifier::external_body]
pub(crate) fn path_join(base: &str, part: &str) -> (joined: String)
    ensures
        joined@ == joined_path(base@, part@),
        is_plain_name(part@) ==> path_file_name(joined@) == Some(part@) && ends_with(joined@, part@),
{
    std::path::Path::new(base).join(part).to_string_lossy().into_owned()
}

/// `text` holds no path separator (`/`, nor `\\` as Windows also uses).
pub open spec fn has_no_separator(text: Seq<char>) -> bool {
    forall|i: int| 0 <= i < text.len() ==> text[i] != '/' && text[i] != '\\'
}

/// `std::path::Path::with_extension`: `path` with its extension replaced by
/// (or, without one, extended with) `extension`; an empty `extension`
/// removes it. The result is named by `path_with_extension`. The standard
/// library panics when `extension` holds a path separator, so such
/// extensions are not admitted. For a path that ends with its file name,
/// `PathBuf::set_extension`'s documentation gives the text: without an
/// extension, `.` and the new extension are added to the file name; with an
/// extension `x`, an empty new extension removes `.x`.
#[verifier::external_body]
pub(crate) fn with_extension(path: &str, extension: &str) -> (replaced: String)
    requires
        has_no_separator(extension@),
    ensures
        replaced@ == path_with_extension(path@, extension@),
        is_bare_stem(path@) && is_simple_extension(extension@) ==> {
            &&& replaced@ == path@ + seq!['.'] + extension@
            &&& path_file_name(replaced@) == Some(path_file_name(path@)->0 + seq!['.'] + extension@)
        },
        extension@.len() == 0 && ends_with_extension(path@) ==> replaced@ == without_extension(path@),
{
    std::path::Path::new(path).with_extension(extension).to_string_lossy().into_owned()
}

/// `std::path::Path::with_file_name`: `path` with its final component
/// replaced by `file_name`. The result is named by `path_with_file_name`. As
/// the documentation of `PathBuf::set_file_name` says, this pops the old file
/// name (if any) and pushes the new one, so a plain `file_name` ends the
/// result and is its file name.
#[verifier::external_body]
pub(crate) fn with_file_name(path: &str, file_name: &str) -> (replaced: String)
    ensures
        replaced@ == path_with_file_name(path@, file_name@),
        is_plain_name(file_name@) ==> path_file_name(replaced@) == Some(file_name@) && ends_with(replaced@, file_name@),
{
    std::path::Path::new(path).with_file_name(file_name).to_string_lossy().into_owned()
}

/// `std::path::Path::file_name`: the final component of `path`, if any. The
/// result is named by `path_file_name`.
#[verifier::external_body]
pub(crate) fn file_name(path: &str) -> (name: Option<String>)
    ensures
        match name {
            Some(n) => path_file_name(path@) == Some(n@),
            None => path_file_name(path@) is None,
        },
{
    match std::path::Path::new(path).file_name() {
        Some(name) => Some(name.to_string_lossy().into_owned()),
        None => None,
    }
}

/// `std::path::Path::extension`: as its documentation defines it, `None`
/// without a file name, and otherwise the extension of the file name by
/// `extension_of_file_name`.
#[verifier::external_body]
pub(crate) fn extension(path: &str) -> (ext: Option<String>)
    ensures
        match ext {
            Some(e) => path_file_name(path@) matches Some(n) && extension_of_file_name(n) == Some(e@),
            None => path_file_name(path@) matches Some(n) ==> extension_of_file_name(n) is None,
        },
{
    match std::path::Path::new(path).extension() {
        Some(ext) => Some(ext.to_string_lossy().into_owned()),
        None => None,
    }
}

} // verus!
