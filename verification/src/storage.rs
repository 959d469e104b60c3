//! Offline messages kept for recipients: what is computed on them. The
//! messages themselves live in a database that the application opens.

use crate::codec::{base64_decode, base64_encode, base64_standard_decoding, base64_standard_encoding, sha256, sha256_digest};
use crate::text::{hex_lower, to_hex_lower};
use vstd::prelude::*;

verus! {

/// A stored message as read back from the database.
#[derive(Clone, Debug)]
pub struct StoredMessage {
    pub id: String,
    pub ciphertext: Vec<u8>,
    pub created_at: i64,
}

/// A stored message as sent up the tunnel: the ciphertext in base64.
pub struct FetchedMsg {
    pub id: String,
    pub ciphertext: String,
    pub created_at: i64,
}

/// The answer to a storage challenge: the lowercase hexadecimal SHA-256 of
/// the stored ciphertext.
pub open spec fn challenge_answer(blob: Seq<u8>) -> Seq<char> {
    hex_lower(sha256_digest(blob))
}

/// The challenge answer for a message lookup: the lookup's error passes
/// through, a missing message gives no answer, a found one the hash of its
/// ciphertext.
pub fn proof_from_lookup(found: Result<Option<(Vec<u8>, i64)>, String>) -> (r: Result<
    Option<String>,
    String,
>)
    ensures
        match found {
            Err(e) => r == Err::<Option<String>, String>(e),
            Ok(None) => r == Ok::<Option<String>, String>(None),
            Ok(Some((blob, _))) => r matches Ok(Some(h)) && h@ == challenge_answer(blob@)
                && h@.len() == 64,
        },
{
    match found {
        Err(e) => Err(e),
        Ok(None) => Ok(None),
        Ok(Some((blob, _))) => {
            let digest = sha256(blob.as_slice());
            proof {
                crate::text::lemma_hex_lower_shape(digest@);
            }
            Ok(Some(to_hex_lower(digest.as_slice())))
        },
    }
}

/// A byte string short enough for its base64 text to be counted in a `usize`.
pub open spec fn encodable(b: Seq<u8>) -> bool {
    crate::codec::padded_base64_len(b.len() as int) <= usize::MAX
}

/// The stored messages as sent up the tunnel, in the same order.
pub fn to_fetched(messages: Vec<StoredMessage>) -> (r: Vec<FetchedMsg>)
    requires
        forall|i: int| 0 <= i < messages@.len() ==> encodable(#[trigger] messages@[i].ciphertext@),
    ensures
        r@.len() == messages@.len(),
        forall|i: int|
            0 <= i < r@.len() ==> {
                &&& (#[trigger] r@[i]).id == messages@[i].id
                &&& r@[i].ciphertext@ == base64_standard_encoding(messages@[i].ciphertext@)
                &&& r@[i].created_at == messages@[i].created_at
            },
{
    let mut r: Vec<FetchedMsg> = Vec::new();
    let mut i: usize = 0;
    while i < messages.len()
        invariant
            i <= messages@.len(),
            r@.len() == i,
            forall|j: int| 0 <= j < messages@.len() ==> encodable(#[trigger] messages@[j].ciphertext@),
            forall|j: int|
                0 <= j < i ==> {
                    &&& (#[trigger] r@[j]).id == messages@[j].id
                    &&& r@[j].ciphertext@ == base64_standard_encoding(messages@[j].ciphertext@)
                    &&& r@[j].created_at == messages@[j].created_at
                },
        decreases messages@.len() - i,
    {
        let m = &messages[i];
        let text = base64_encode(m.ciphertext.as_slice());
        r.push(FetchedMsg { id: m.id.clone(), ciphertext: text, created_at: m.created_at });
        i += 1;
    }
    r
}

/// The bytes to store for a store request: the decoded ciphertext, when a
/// store is open and the text is valid base64.
pub fn bytes_to_store(has_storage: bool, ciphertext: &str) -> (r: Option<Vec<u8>>)
    ensures
        match r {
            Some(b) => has_storage && base64_standard_decoding(ciphertext@) == Some(b@),
            None => !has_storage || base64_standard_decoding(ciphertext@) is None,
        },
{
    let decoded = base64_decode(ciphertext);
    if has_storage {
        decoded
    } else {
        None
    }
}

} // verus!
