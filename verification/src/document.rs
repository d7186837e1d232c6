//! The identity document model: what the verifier reads from a resolved
//! document.
//!
//! A document resolved from the ledger carries verification methods, each a
//! key identifier and raw Ed25519 public key bytes.  Resolution itself is a
//! network call made outside this crate; whatever performs it converts the
//! resolved document into this type.  The document invariant is that methods
//! are addressable by key identifier: no two methods share one.

use vstd::prelude::*;

verus! {

/// One verification method: a key identifier and the raw public key bytes of
/// an Ed25519 key.
pub struct VerificationMethod {
    pub key_id: Vec<u8>,
    pub public_key: Vec<u8>,
}

/// An identity document resolved for a DID.
pub struct IdentityDocument {
    /// The subject DID the document was resolved for.
    pub did: Vec<u8>,
    /// The verification methods the subject may sign with.
    pub methods: Vec<VerificationMethod>,
}

impl IdentityDocument {
    /// Well-formed: verification methods are addressable by key identifier.
    pub open spec fn wf(self) -> bool {
        forall|i: int, j: int|
            0 <= i < j < self.methods@.len() ==> (#[trigger] self.methods@[i].key_id)@ != (
            #[trigger] self.methods@[j].key_id)@
    }

    /// Whether some verification method carries the key identifier.
    pub open spec fn has_key(self, kid: Seq<u8>) -> bool {
        exists|i: int| 0 <= i < self.methods@.len() && (#[trigger] self.methods@[i].key_id)@ == kid
    }

    /// The public key bytes of the method with the key identifier.
    pub open spec fn key_for(self, kid: Seq<u8>) -> Seq<u8>
        recommends
            self.has_key(kid),
    {
        let i = choose|i: int|
            0 <= i < self.methods@.len() && (#[trigger] self.methods@[i].key_id)@ == kid;
        self.methods@[i].public_key@
    }

    /// Builds an empty document for a DID.
    pub fn new(did: Vec<u8>) -> (r: IdentityDocument)
        ensures
            r.did == did,
            r.methods@.len() == 0,
            r.wf(),
    {
        IdentityDocument { did, methods: Vec::new() }
    }

    /// Adds a verification method; refuses a duplicate key identifier, which
    /// would make methods unaddressable.
    pub fn add_method(&mut self, key_id: Vec<u8>, public_key: Vec<u8>) -> (r: bool)
        requires
            old(self).wf(),
        ensures
            final(self).wf(),
            r == !old(self).has_key(key_id@),
            r ==> final(self).methods@ == old(self).methods@.push(
                VerificationMethod { key_id, public_key },
            ),
            !r ==> *final(self) == *old(self),
            final(self).did == old(self).did,
    {
        let n = self.methods.len();
        let mut i: usize = 0;
        while i < n
            invariant
                0 <= i <= n,
                n == self.methods@.len(),
                old(self).wf(),
                forall|k: int| 0 <= k < i ==> (#[trigger] self.methods@[k].key_id)@ != key_id@,
                *self == *old(self),
            decreases n - i,
        {
            if crate::bytes::bytes_eq(&self.methods[i].key_id, &key_id) {
                return false;
            }
            i = i + 1;
        }
        self.methods.push(VerificationMethod { key_id, public_key });
        true
    }
}

/// Finds the public key for a key identifier, exactly when the document has
/// one.
pub fn find_key<'a>(doc: &'a IdentityDocument, kid: &Vec<u8>) -> (r: Option<&'a Vec<u8>>)
    requires
        doc.wf(),
    ensures
        (r is Some) == doc.has_key(kid@),
        r matches Some(k) ==> k@ == doc.key_for(kid@),
{
    let n = doc.methods.len();
    let mut i: usize = 0;
    while i < n
        invariant
            0 <= i <= n,
            n == doc.methods@.len(),
            doc.wf(),
            forall|k: int| 0 <= k < i ==> (#[trigger] doc.methods@[k].key_id)@ != kid@,
        decreases n - i,
    {
        let m = &doc.methods[i];
        if crate::bytes::bytes_eq(&m.key_id, kid) {
            proof {
                let w = choose|w: int|
                    0 <= w < doc.methods@.len() && (#[trigger] doc.methods@[w].key_id)@ == kid@;
                if w != i as int {
                    assert(doc.methods@[w].key_id@ != doc.methods@[i as int].key_id@);
                }
            }
            return Some(&m.public_key);
        }
        i = i + 1;
    }
    None
}

} // verus!
