use vstd::prelude::*;
use vstd::string::StringExecFns;

verus! {

/// Identifier of an uploaded blob.
///
/// Identifiers are random 128-bit tokens, one per upload; they are not
/// content-addressed, so uploading the same bytes twice yields two ids.
#[derive(Clone, Copy, PartialEq, Eq, Structural, Debug)]
pub struct BlobId {
    pub value: u128,
}

/// Relies on uuid::Uuid::new_v4: draws a fresh random identifier.
/// Nothing is promised of the value; in particular not that it is unused.
#[verifier::external_body]
pub(crate) fn fresh_blob_id() -> BlobId {
    BlobId { value: uuid::Uuid::new_v4().as_u128() }
}

/// The identifier under which a default blob is preloaded at startup:
/// the all-zero token.
pub fn default_blob_id() -> (r: BlobId)
    ensures
        r.value == 0,
{
    BlobId { value: 0 }
}

pub uninterp spec fn uuid_text_of(value: u128) -> Seq<char>;

/// Relies on uuid::Uuid::from_u128 and its Display impl: the hyphenated
/// textual form of the identifier, a function of the 128-bit value alone.
#[verifier::external_body]
pub(crate) fn blob_id_text(id: BlobId) -> (r: String)
    ensures
        r@ == uuid_text_of(id.value),
{
    uuid::Uuid::from_u128(id.value).to_string()
}

/// Where the durable tier keeps a blob: a fixed namespace, addressed by
/// the identifier's textual form.
pub fn blob_file_name(id: BlobId) -> (r: String)
    ensures
        r@ == "blobs/"@ + uuid_text_of(id.value),
{
    let mut r = String::from_str("blobs/");
    let text = blob_id_text(id);
    r.append(text.as_str());
    r
}

} // verus!
