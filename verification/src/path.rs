//! Object-store paths, carried as text.

use vstd::prelude::*;

verus! {

/// The canonical text of the object-store path that a raw prefix denotes:
/// the result of `object_store::path::Path::from` on it.
pub uninterp spec fn canonical_path(raw: Seq<char>) -> Seq<char>;

/// Calls `object_store::path::Path::from` on `raw` and hands back the path's
/// text. The path is computed from the characters of `raw` alone (split at
/// `/`, empty parts dropped, each part percent-encoded), so the result is
/// named `canonical_path(raw)`; nothing else is claimed of it.
#[verifier::external_body]
pub(crate) fn canonicalize_path(raw: &str) -> (path: String)
    ensures
        path@ == canonical_path(raw@),
{
    String::from(object_store::path::Path::from(raw))
}

} // verus!
