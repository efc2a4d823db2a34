//! Requirement collection from markup files, by their media type.
use vstd::prelude::*;

use crate::requirements::{CollectError, CollectableFile, RequirementSchema};
use crate::text::{chars_are, from_chars, rfind_char, rfind_char_before, slice_chars, to_chars};

verus! {

/// The first media type that `mime_guess` registers for a file extension.
pub uninterp spec fn mime_of_ext(ext: Seq<char>) -> Option<Seq<char>>;

/// `mime_guess::from_ext(ext).first_raw()`: the first media type registered for the
/// extension; none for the empty extension.
#[verifier::external_body]
pub(crate) fn first_mime_type(ext: &str) -> (res: Option<String>)
    ensures
        match mime_of_ext(ext@) {
            Some(m) => res is Some && res->0@ == m,
            None => res is None,
        },
        ext@.len() == 0 ==> res is None,
{
    mime_guess::from_ext(ext).first_raw().map(|m| m.to_string())
}

/// The last component of a `/`-separated path.
pub open spec fn file_name(p: Seq<char>) -> Seq<char> {
    match rfind_char_before(p, '/', p.len() as int) {
        Some(k) => p.skip(k + 1),
        None => p,
    }
}

/// The extension of a path: what follows the last `.` of its file name, where that `.` is
/// not the first character of the name.
pub open spec fn extension(p: Seq<char>) -> Option<Seq<char>> {
    let name = file_name(p);
    match rfind_char_before(name, '.', name.len() as int) {
        Some(k) => if k == 0 {
            None
        } else {
            Some(name.skip(k + 1))
        },
        None => None,
    }
}

/// The extension of a path, if it has one.
pub fn path_extension(path: &str) -> (res: Option<String>)
    ensures
        match extension(path@) {
            Some(e) => res is Some && res->0@ == e,
            None => res is None,
        },
{
    let p = to_chars(path);
    let name = match rfind_char(&p, '/') {
        Some(k) => slice_chars(&p, k + 1, p.len()),
        None => p,
    };
    assert(name@ == file_name(path@));
    match rfind_char(&name, '.') {
        Some(k) => {
            if k == 0 {
                None
            } else {
                let e = slice_chars(&name, k + 1, name.len());
                assert(e@ == name@.skip(k + 1));
                Some(from_chars(e.as_slice()))
            }
        },
        None => None,
    }
}

/// The file's extension is registered as Markdown.
pub open spec fn is_markdown_path(p: Seq<char>) -> bool {
    let ext = match extension(p) {
        Some(e) => e,
        None => Seq::empty(),
    };
    mime_of_ext(ext) == Some("text/markdown"@)
}

/// Collects the requirements of a markup file; only Markdown is supported, other files give
/// `Ok(None)`.
pub fn collect_requirements(product_id: &String, file: &CollectableFile) -> (res: Result<
    Option<RequirementSchema>,
    CollectError,
>)
    ensures
        !is_markdown_path(file.filepath@) ==> res is Ok && res->Ok_0 is None,
        is_markdown_path(file.filepath@) ==> crate::requirements::collect_outcome(
            res,
            product_id@,
            file.filepath@,
            file.content@,
        ),
{
    let ext = match path_extension(file.filepath.as_str()) {
        Some(e) => e,
        None => String::new(),
    };
    match first_mime_type(ext.as_str()) {
        Some(m) => {
            let mv = to_chars(m.as_str());
            if chars_are(mv.as_slice(), "text/markdown") {
                crate::requirements::collect_requirements(product_id, file)
            } else {
                Ok(None)
            }
        },
        None => Ok(None),
    }
}

} // verus!
