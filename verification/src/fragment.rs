//! Fragment admission: the sole boundary by which externally-sourced raw
//! MessagePack bytes enter the trusted-document space. A fragment is
//! validated once at construction and thereafter spliced verbatim, never
//! re-parsed.

use vstd::prelude::*;
use crate::msgpack::validator::{scan_full, valid_doc, Error, Validator};

verus! {

/// An immutable byte span known, at construction, to be exactly one
/// complete, structurally valid MessagePack value with no trailing bytes.
pub struct Fragment {
    data: Vec<u8>,
}

impl Fragment {
    /// The raw bytes of the fragment.
    pub closed spec fn bytes(&self) -> Seq<u8> {
        self.data@
    }

    /// Every fragment holds exactly one complete, well-formed value.
    pub open spec fn wf(&self) -> bool {
        valid_doc(self.bytes())
    }

    /// Admits raw bytes by running the full validator once over them;
    /// construction fails with the validator's error if they are not exactly
    /// one complete, well-formed value.
    pub fn new(data: Vec<u8>) -> (r: Result<Fragment, Error>)
        ensures
            match r {
                Ok(f) => f.bytes() == data@ && f.wf(),
                Err(e) => !valid_doc(data@) && scan_full(data@, 0, 0) == Err::<int, Error>(e),
            },
    {
        let mut validator = Validator::new(data.as_slice());
        match validator.validate() {
            Ok(()) => {
                proof {
                    crate::msgpack::validator::lemma_scan_bounds(data@, 0, 0);
                }
                Ok(Fragment { data })
            },
            Err(e) => Err(e),
        }
    }

    /// Borrows the pre-validated bytes for splicing.
    pub fn as_slice(&self) -> (r: &[u8])
        ensures
            r@ == self.bytes(),
    {
        self.data.as_slice()
    }

    /// The length of the fragment in bytes.
    pub fn len(&self) -> (r: usize)
        ensures
            r == self.bytes().len(),
    {
        self.data.len()
    }
}

} // verus!
