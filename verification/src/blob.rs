//! Content records: one per digest, with the number of revisions that point
//! to it.

use vstd::prelude::*;

verus! {

/// What the content store reports after taking a sequence of bytes.
#[derive(Debug, Clone, PartialEq, Eq)]
pub struct CreateBlobOutput {
    pub hash: Vec<u8>,
    pub mime: String,
    pub size: i64,
}

/// Mathematical value of a [`BlobModel`].
pub struct BlobView {
    pub hash: Seq<u8>,
    pub mime: Seq<char>,
    pub size: i64,
    pub created_at: i64,
    pub references: nat,
}

/// One stored piece of content.
#[derive(Debug, Clone, PartialEq, Eq)]
pub struct BlobModel {
    pub hash: Vec<u8>,
    pub mime: String,
    pub size: i64,
    pub created_at: i64,
    pub references: u64,
}

impl View for BlobModel {
    type V = BlobView;

    open spec fn view(&self) -> BlobView {
        BlobView {
            hash: self.hash@,
            mime: self.mime@,
            size: self.size,
            created_at: self.created_at,
            references: self.references as nat,
        }
    }
}

/// Copies a byte string.
pub fn copy_bytes(bytes: &Vec<u8>) -> (r: Vec<u8>)
    ensures
        r@ == bytes@,
{
    let r = bytes.clone();
    assert(r@ =~= bytes@);
    r
}

/// Whether two byte strings hold the same bytes.
pub fn same_bytes(a: &Vec<u8>, b: &Vec<u8>) -> (r: bool)
    ensures
        r == (a@ == b@),
{
    let r = a == b;
    proof {
        if r {
            assert(a@ =~= b@);
        }
    }
    r
}

impl BlobModel {
    /// A copy of the record.
    pub fn duplicate(&self) -> (r: BlobModel)
        ensures
            r@ == self@,
    {
        BlobModel {
            hash: copy_bytes(&self.hash),
            mime: self.mime.clone(),
            size: self.size,
            created_at: self.created_at,
            references: self.references,
        }
    }
}

} // verus!
