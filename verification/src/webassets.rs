//! The compute half of serving an embedded file: the content-type choice
//! and the found-or-missing split. Looking the asset up and writing the
//! HTTP response stay with the server around the library.

use vstd::prelude::*;

verus! {

/// The content type `mime_guess` derives for a path: a function of the
/// path alone, `application/octet-stream` when nothing is known.
pub uninterp spec fn mime_of(path: Seq<char>) -> Seq<char>;

/// Relies on `mime_guess::from_path` with
/// `MimeGuess::first_or_octet_stream`: the guess depends on the path (its
/// extension) alone.
#[verifier::external_body]
fn guess_mime(path: &str) -> (r: String)
    ensures
        r@ == mime_of(path@),
{
    let mime = mime_guess::from_path(path).first_or_octet_stream();
    String::from(mime.as_ref())
}

/// What an asset request is answered with.
pub enum AssetResponse {
    /// The file exists: serve its bytes under the guessed content type.
    Content { mime: String, body: Vec<u8> },
    /// No such file: a plain not-found answer.
    Missing,
}

/// Decides the response for an embedded-file lookup: the looked-up bytes
/// under the path's content type, or a not-found answer.
pub fn asset_response(path: &str, content: Option<Vec<u8>>) -> (r: AssetResponse)
    ensures
        content matches Some(bytes) ==> (r matches AssetResponse::Content { mime, body } && mime@
            == mime_of(path@) && body@ == bytes@),
        content is None ==> r is Missing,
{
    match content {
        Some(body) => AssetResponse::Content { mime: guess_mime(path), body },
        None => AssetResponse::Missing,
    }
}

} // verus!
