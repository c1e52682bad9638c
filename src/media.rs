//! Image content built from a file's name and bytes: the media type is guessed
//! from the name by mime_guess, the bytes are encoded by base64.

use crate::message::{opt_view, BlockModel, Content, ImageSource};
use base64::Engine;
use vstd::prelude::*;

verus! {

/// The media type that mime_guess gives first for a path, by its extension.
pub uninterp spec fn media_type_for(path: Seq<char>) -> Option<Seq<char>>;

/// The standard, padded base64 encoding of some bytes.
pub uninterp spec fn base64_of(bytes: Seq<u8>) -> Seq<char>;

/// Relies on `mime_guess::from_path(..).first_raw()`: the first media type of
/// the static table for the path's extension, if there is one.
#[verifier::external_body]
fn guess_media_type(path: &str) -> (r: Option<String>)
    ensures
        opt_view(r) == media_type_for(path@),
{
    mime_guess::from_path(path).first_raw().map(String::from)
}

/// Relies on base64's `BASE64_STANDARD.encode`, which panics only where the
/// output length overflows `usize`.
#[verifier::external_body]
fn encode_base64(bytes: &[u8]) -> (r: String)
    requires
        bytes@.len() <= usize::MAX / 2,
    ensures
        r@ == base64_of(bytes@),
{
    base64::prelude::BASE64_STANDARD.encode(bytes)
}

impl Content {
    /// An image block for a file with the given name and bytes: the media type
    /// is guessed from the name, and the bytes are sent base64-encoded. `None`
    /// where the name gives no media type.
    pub fn image_from_file_bytes(path: &str, bytes: &[u8]) -> (r: Option<Content>)
        requires
            bytes@.len() <= usize::MAX / 2,
        ensures
            match media_type_for(path@) {
                Some(mt) => r is Some && r->0@ == (BlockModel::Image {
                    typ: "base64"@,
                    media_type: mt,
                    data: base64_of(bytes@),
                }),
                None => r is None,
            },
    {
        match guess_media_type(path) {
            Some(media_type) => {
                let data = encode_base64(bytes);
                Some(
                    Content::Image {
                        source: ImageSource { typ: "base64".to_owned(), media_type, data },
                    },
                )
            },
            None => None,
        }
    }
}

} // verus!
