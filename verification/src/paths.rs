use crate::text::opt_text;
use std::path::Path;
use vstd::prelude::*;

verus! {

/// The last component of a path, as `Path::file_name` of the standard
/// library gives it where the library runs; nothing where the path has
/// none, as when it ends in `..`.
pub uninterp spec fn file_name_of(path: Seq<char>) -> Option<Seq<char>>;

/// A path extended by another, as `Path::join` of the standard library
/// gives it where the library runs.
pub uninterp spec fn joined(base: Seq<char>, path: Seq<char>) -> Seq<char>;

/// A path with its extension set anew, as `Path::with_extension` of the
/// standard library gives it where the library runs.
pub uninterp spec fn with_extension_of(path: Seq<char>, extension: Seq<char>) -> Seq<char>;

/// The extension of the last component of a path, as `Path::extension`
/// of the standard library gives it where the library runs; nothing
/// where the path has none.
pub uninterp spec fn extension_of(path: Seq<char>) -> Option<Seq<char>>;

/// A path without its last component, as `Path::parent` of the standard
/// library gives it where the library runs; nothing where the path has
/// no parent, as a root or the empty path.
pub uninterp spec fn parent_of(path: Seq<char>) -> Option<Seq<char>>;

/// The last component of a path, by `Path::file_name` of the standard
/// library, as text. How a path falls into components is laid down for
/// each platform: the contract claims only that the result is a function
/// of the path handed in.
#[verifier::external_body]
pub(crate) fn file_name(path: &str) -> (name: Option<String>)
    ensures
        opt_text(name) == file_name_of(path@),
{
    match Path::new(path).file_name() {
        Some(n) => Some(n.to_string_lossy().into_owned()),
        None => None,
    }
}

/// A path extended by another, by `Path::join` of the standard library.
/// The contract claims only that the result is a function of the two
/// paths handed in.
#[verifier::external_body]
pub(crate) fn join(base: &str, path: &str) -> (r: String)
    ensures
        r@ == joined(base@, path@),
{
    Path::new(base).join(path).to_string_lossy().into_owned()
}

/// Whether a text holds `/`, which separates the components of a path.
pub open spec fn holds_separator(text: Seq<char>) -> bool {
    exists|i: int| 0 <= i < text.len() && #[trigger] text[i] == '/'
}

/// A path with its extension set anew, by `Path::with_extension` of the
/// standard library. That call panics on an extension that holds a
/// separator of path components, so such an extension is left out. The
/// contract claims only that the result is a function of the path and
/// the extension handed in.
#[verifier::external_body]
pub(crate) fn with_extension(path: &str, extension: &str) -> (changed: String)
    requires
        !holds_separator(extension@),
    ensures
        changed@ == with_extension_of(path@, extension@),
{
    Path::new(path).with_extension(extension).to_string_lossy().into_owned()
}

/// The extension of the last component of a path, by `Path::extension`
/// of the standard library, as text. The contract claims that the
/// result is a function of the path handed in, and that it holds no
/// separator: it is a part of one component.
#[verifier::external_body]
pub(crate) fn extension(path: &str) -> (ext: Option<String>)
    ensures
        opt_text(ext) == extension_of(path@),
        ext matches Some(e) ==> !holds_separator(e@),
{
    match Path::new(path).extension() {
        Some(e) => match e.to_str() {
            Some(s) => Some(s.to_owned()),
            None => None,
        },
        None => None,
    }
}

/// The path without its last component, by `Path::parent` of the
/// standard library, as text; nothing where the path has no parent. The
/// contract claims only that the result is a function of the path
/// handed in.
#[verifier::external_body]
pub(crate) fn parent(path: &str) -> (dir: Option<String>)
    ensures
        opt_text(dir) == parent_of(path@),
{
    match Path::new(path).parent() {
        Some(p) => Some(p.to_string_lossy().into_owned()),
        None => None,
    }
}

/// Whether a path matches a glob pattern, as `Pattern::matches_path` of
/// the crate `glob` decides it, with its default options, where the
/// library runs; nothing where `Pattern::new` does not take the pattern.
pub uninterp spec fn glob_match_of(pattern: Seq<char>, path: Seq<char>) -> Option<bool>;

/// Whether a path matches a glob pattern, by `Pattern::new` and
/// `Pattern::matches_path` of the crate `glob`, with its default
/// options; nothing where the pattern is not valid. What counts as a
/// separator in a path is the platform's matter: the contract claims
/// only that the answer is a function of the pattern and the path.
#[verifier::external_body]
pub(crate) fn glob_matches(pattern: &str, path: &str) -> (r: Option<bool>)
    ensures
        r == glob_match_of(pattern@, path@),
{
    match glob::Pattern::new(pattern) {
        Ok(p) => Some(p.matches_path(Path::new(path))),
        Err(_) => None,
    }
}

/// Where the output for an input goes when a batch is written to one
/// directory: the directory extended by the last component of the input,
/// or by nothing where the input has none, with the extension `js`.
pub open spec fn batch_output_text(dir: Seq<char>, input: Seq<char>) -> Seq<char> {
    with_extension_of(
        joined(
            dir,
            match file_name_of(input) {
                Some(name) => name,
                None => Seq::empty(),
            },
        ),
        "js"@,
    )
}

/// Where the output for an input goes when a batch is written to one
/// directory: under the name of the input, with the extension `js`.
pub fn batch_output_path(dir: &str, input: &str) -> (output: String)
    ensures
        output@ == batch_output_text(dir@, input@),
{
    let name = match file_name(input) {
        Some(n) => n,
        None => String::new(),
    };
    let joined = join(dir, name.as_str());
    proof {
        reveal_strlit("js");
    }
    with_extension(joined.as_str(), "js")
}

} // verus!
