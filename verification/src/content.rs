use vstd::prelude::*;

verus! {

/// What a single-request upload sends besides the file's bytes.
#[derive(Debug, Clone, PartialEq, Eq)]
pub struct PutRequest {
    pub bucket: String,
    pub key: String,
    /// MIME type detected from the file's bytes.
    pub content_type: String,
}

/// Whether `mime` is an answer `tree_magic::from_u8` can give for `bytes`
/// on some machine. This ties an answer to the bytes it was asked about; it
/// says nothing of which answer comes, since that depends on the machine's
/// MIME database.
pub uninterp spec fn tree_magic_may_answer(bytes: Seq<u8>, mime: Seq<char>) -> bool;

/// Calls `tree_magic::from_u8` on `bytes`. Trusted only to return an answer
/// for these bytes: which MIME type it is is left unsaid, because
/// `tree_magic` reads the system's MIME database at run time.
#[verifier::external_body]
fn detect_content_type(bytes: &[u8]) -> (mime: String)
    ensures
        tree_magic_may_answer(bytes@, mime@),
{
    tree_magic::from_u8(bytes)
}

/// The request that uploads `body` as `key` into `bucket` in one go, with the
/// content type detected from `body` itself.
pub fn single_put_request(bucket: String, key: String, body: &[u8]) -> (req: PutRequest)
    ensures
        req.bucket == bucket,
        req.key == key,
        tree_magic_may_answer(body@, req.content_type@),
{
    let content_type = detect_content_type(body);
    PutRequest { bucket, key, content_type }
}

} // verus!
