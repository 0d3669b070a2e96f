//! Paths of asset metadata files.
use vstd::prelude::*;
use vstd::string::{StringExecFns, StrSliceExecFns};

verus! {

/// What `std::path::Path::extension` gives for the path `path`: the part of
/// the file name after its last `.`, if there is one. Which characters
/// separate components depends on the build target (`/` on Unix and wasm;
/// `/` and `\` on Windows, and only `\` in a Windows verbatim path), so the
/// name stands for the function of the target the crate is built for.
pub uninterp spec fn path_extension_spec(path: Seq<char>) -> Option<Seq<char>>;

/// What `std::path::PathBuf::set_extension` makes of the path `path` given
/// the extension `extension`, for the target the crate is built for (the
/// parsing of components depends on it, as for `path_extension_spec`).
pub uninterp spec fn path_with_extension_spec(path: Seq<char>, extension: Seq<char>) -> Seq<char>;

/// The characters of an optional string.
pub open spec fn opt_string_view(o: Option<String>) -> Option<Seq<char>> {
    match o {
        Some(s) => Some(s@),
        None => None,
    }
}

/// Calls `std::path::Path::extension` on `path` and hands back the extension
/// as a `String`. The contract claims only that the result is the one that
/// `std` computes for these characters, named `path_extension_spec`.
#[verifier::external_body]
fn path_extension(path: &str) -> (r: Option<String>)
    ensures
        opt_string_view(r) == path_extension_spec(path@),
{
    match std::path::Path::new(path).extension() {
        Some(e) => Some(e.to_string_lossy().into_owned()),
        None => None,
    }
}

/// Calls `std::path::PathBuf::set_extension` on a path made of `path`, with
/// `extension`, and hands back the resulting path as a `String`. The contract
/// claims only that the result is the one that `std` computes for these
/// characters, named `path_with_extension_spec`.
///
/// `set_extension` panics when the extension holds a path separator of the
/// target: `/` everywhere, and also `\` on Windows. So the extension admitted
/// holds no `/`, and holds a `\` only when it is the path's own extension (or
/// nothing) followed by `.meta`. On Windows that extension holds no `\`: it
/// lies in the file name, and `\` separates components in every Windows path,
/// verbatim or not, so no file name holds one; elsewhere `\` is no separator.
#[verifier::external_body]
fn path_with_extension(path: &str, extension: &str) -> (r: String)
    requires
        !extension@.contains('/'),
        extension@.contains('\\') ==> extension@ == meta_extension_spec(
            path_extension_spec(path@),
        ),
    ensures
        r@ == path_with_extension_spec(path@, extension@),
{
    let mut buf = std::path::PathBuf::from(path);
    buf.set_extension(extension);
    buf.to_string_lossy().into_owned()
}

/// The extension of an asset's metadata file: the asset's own extension (or
/// nothing) followed by `.meta`.
pub open spec fn meta_extension_spec(extension: Option<Seq<char>>) -> Seq<char> {
    let base = match extension {
        Some(e) => e,
        None => Seq::<char>::empty(),
    };
    base + seq!['.', 'm', 'e', 't', 'a']
}

/// The extension of an asset's metadata file, given the asset's extension.
pub fn meta_extension(extension: Option<String>) -> (r: String)
    ensures
        r@ == meta_extension_spec(opt_string_view(extension)),
        match extension {
            Some(e) => r@ == e@ + seq!['.', 'm', 'e', 't', 'a'],
            None => r@ == seq!['.', 'm', 'e', 't', 'a'],
        },
{
    let base = match extension {
        Some(e) => e,
        None => String::new(),
    };
    proof {
        reveal_strlit(".meta");
    }
    base.concat(".meta")
}

/// The metadata extension keeps the asset's whole extension, whatever its
/// length, and appends `.meta` after it: its length is that of the extension
/// plus five, the extension is its prefix, and `.meta` its suffix.
pub proof fn lemma_meta_extension_keeps_extension(extension: Option<Seq<char>>)
    ensures
        ({
            let m = meta_extension_spec(extension);
            let n: int = match extension {
                Some(e) => e.len() as int,
                None => 0,
            };
            &&& m.len() == n + 5
            &&& m.subrange(n, n + 5) == seq!['.', 'm', 'e', 't', 'a']
            &&& extension matches Some(e) ==> m.subrange(0, n) == e
        }),
{
    let m = meta_extension_spec(extension);
    let n: int = match extension {
        Some(e) => e.len() as int,
        None => 0,
    };
    assert(m.subrange(n, n + 5) =~= seq!['.', 'm', 'e', 't', 'a']);
    if let Some(e) = extension {
        assert(m.subrange(0, n) =~= e);
    }
}

/// Whether `s` holds a `/`.
fn contains_slash(s: &str) -> (r: bool)
    ensures
        r == s@.contains('/'),
{
    let n = s.unicode_len();
    let mut i: usize = 0;
    while i < n
        invariant
            n == s@.len(),
            i <= n,
            forall|k: int| 0 <= k < i ==> s@[k] != '/',
        decreases n - i,
    {
        if s.get_char(i) == '/' {
            assert(s@[i as int] == '/');
            return true;
        }
        i = i + 1;
    }
    false
}

/// The path of the metadata file of the asset at `path`: the same path with
/// `.meta` appended to its extension. Setting an extension that holds `/`
/// panics (a Windows verbatim path can have one in its file name), so that
/// input is left out.
pub fn get_meta_path(path: &str) -> (r: String)
    requires
        !meta_extension_spec(path_extension_spec(path@)).contains('/'),
    ensures
        r@ == path_with_extension_spec(path@, meta_extension_spec(path_extension_spec(path@))),
{
    let extension = meta_extension(path_extension(path));
    path_with_extension(path, extension.as_str())
}

/// The path of the metadata file of the asset at `path`, or `None` when the
/// extension that it would take holds a `/`, on which `get_meta_path` would
/// panic.
pub fn checked_meta_path(path: &str) -> (r: Option<String>)
    ensures
        match r {
            Some(p) => {
                &&& !meta_extension_spec(path_extension_spec(path@)).contains('/')
                &&& p@ == path_with_extension_spec(
                    path@,
                    meta_extension_spec(path_extension_spec(path@)),
                )
            },
            None => meta_extension_spec(path_extension_spec(path@)).contains('/'),
        },
{
    let extension = meta_extension(path_extension(path));
    if contains_slash(extension.as_str()) {
        None
    } else {
        Some(get_meta_path(path))
    }
}

} // verus!
