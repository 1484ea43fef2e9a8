//! Primitive PSBT types: the version tag, the id of a spent transaction, and
//! key-source tuples (master-key fingerprint plus derivation path).

use vstd::prelude::*;

verus! {

/// PSBT format version. It decides which optional fields are legal or
/// required on the container and on each input and output record.
#[derive(Clone, Copy, PartialEq, Eq, Structural, Debug)]
pub enum Version {
    V0,
    V2,
}

/// The id of the transaction an input spends from; a v2-only input field.
#[derive(Debug)]
pub struct PreviousTxId(pub Vec<u8>);

impl View for PreviousTxId {
    type V = Seq<u8>;

    open spec fn view(&self) -> Seq<u8> {
        self.0@
    }
}

impl PreviousTxId {
    /// Copies the id.
    pub fn clone_id(&self) -> (r: PreviousTxId)
        ensures
            r@ == self@,
    {
        PreviousTxId(crate::bytes::clone_bytes(&self.0))
    }
}

/// The contents of an optional transaction id.
pub open spec fn opt_txid_view(o: Option<PreviousTxId>) -> Option<Seq<u8>> {
    match o {
        None => None,
        Some(t) => Some(t@),
    }
}

/// Copies an optional transaction id.
pub fn clone_opt_txid(v: &Option<PreviousTxId>) -> (r: Option<PreviousTxId>)
    ensures
        opt_txid_view(r) == opt_txid_view(*v),
{
    match v {
        None => None,
        Some(t) => Some(t.clone_id()),
    }
}

/// Unions two optional transaction-id fields; two different ids conflict.
pub fn merge_opt_txid(a: &Option<PreviousTxId>, b: &Option<PreviousTxId>) -> (r: Result<
    Option<PreviousTxId>,
    (),
>)
    ensures
        match r {
            Ok(m) => crate::kvmap::opt_compatible(opt_txid_view(*a), opt_txid_view(*b))
                && opt_txid_view(m) == crate::kvmap::opt_merge(opt_txid_view(*a), opt_txid_view(*b)),
            Err(()) => !crate::kvmap::opt_compatible(opt_txid_view(*a), opt_txid_view(*b)),
        },
{
    match (a, b) {
        (Some(x), Some(y)) => {
            if crate::bytes::bytes_eq(&x.0, &y.0) {
                Ok(Some(x.clone_id()))
            } else {
                Err(())
            }
        }
        (Some(x), None) => Ok(Some(x.clone_id())),
        (None, Some(y)) => Ok(Some(y.clone_id())),
        (None, None) => Ok(None),
    }
}

/// Where a public key comes from: the fingerprint of the master key and the
/// child derivation path below it.
#[derive(Debug)]
pub struct KeySource {
    /// Fingerprint of the master extended key.
    pub fingerprint: u32,
    /// Derivation path: one child number per step.
    pub path: Vec<u32>,
}

/// The mathematical content of a key source.
#[verifier::ext_equal]
pub struct KeySourceView {
    pub fingerprint: u32,
    pub path: Seq<u32>,
}

impl View for KeySource {
    type V = KeySourceView;

    open spec fn view(&self) -> KeySourceView {
        KeySourceView { fingerprint: self.fingerprint, path: self.path@ }
    }
}

impl KeySource {
    /// Copies a key source.
    pub fn clone_source(&self) -> (r: KeySource)
        ensures
            r@ == self@,
    {
        let path = self.path.clone();
        proof {
            assert(path@ =~= self.path@);
            assert(KeySource { fingerprint: self.fingerprint, path }@ =~= self@);
        }
        KeySource { fingerprint: self.fingerprint, path }
    }
}

/// Tests two key sources for equality of their contents.
pub fn key_source_eq(a: &KeySource, b: &KeySource) -> (r: bool)
    ensures
        r == (a@ == b@),
{
    if a.fingerprint != b.fingerprint {
        return false;
    }
    let paths_eq = a.path == b.path;
    proof {
        if paths_eq {
            assert(a.path@ =~= b.path@);
            assert(a@ =~= b@);
        } else {
            if a@ == b@ {
                assert(a.path@.len() == b.path@.len());
                assert(forall|i: int| 0 <= i < a.path@.len() ==> a.path@[i] == b.path@[i]);
                assert(false);
            }
        }
    }
    paths_eq
}

} // verus!
