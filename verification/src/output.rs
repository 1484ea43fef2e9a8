//! The per-output record of a PSBT: spend-script metadata, derivation info,
//! taproot tree data, proprietary and unknown records, and the v2-only
//! declared amount and script.

use vstd::prelude::*;
use crate::bytes::clone_opt_bytes;
use crate::bytes::merge_opt_bytes;
use crate::bytes::merge_opt_i64;
use crate::bytes::opt_bytes_view;
use crate::kvmap::ByteMap;
use crate::kvmap::map_of;
use crate::kvmap::maps_compatible;
use crate::kvmap::merge_seq;
use crate::kvmap::opt_compatible;
use crate::kvmap::opt_merge;
use crate::primitives::KeySourceView;
use crate::sourcemap::SourceMap;

verus! {

/// A per-output key-value record.
#[derive(Debug)]
pub struct Output {
    /// The redeem script for this output.
    pub redeem_script: Option<Vec<u8>>,
    /// The witness script for this output.
    pub witness_script: Option<Vec<u8>>,
    /// Public key bytes to the key's master fingerprint and derivation path.
    pub bip32_derivation: SourceMap,
    /// Taproot internal key.
    pub tap_internal_key: Option<Vec<u8>>,
    /// Serialized taproot output tree, held verbatim.
    pub tap_tree: Option<Vec<u8>>,
    /// X-only public key to its origin record, held verbatim.
    pub tap_key_origins: ByteMap,
    /// Proprietary key-value pairs, preserved verbatim.
    pub proprietary: ByteMap,
    /// Unknown key-value pairs, preserved verbatim.
    pub unknown: ByteMap,
    /// Declared amount of this output; v2 only.
    pub amount: Option<i64>,
    /// Declared locking script of this output; v2 only.
    pub script: Option<Vec<u8>>,
}

/// The mathematical content of an output record.
#[verifier::ext_equal]
pub struct OutputView {
    pub redeem_script: Option<Seq<u8>>,
    pub witness_script: Option<Seq<u8>>,
    pub bip32_derivation: Seq<(Seq<u8>, KeySourceView)>,
    pub tap_internal_key: Option<Seq<u8>>,
    pub tap_tree: Option<Seq<u8>>,
    pub tap_key_origins: Seq<(Seq<u8>, Seq<u8>)>,
    pub proprietary: Seq<(Seq<u8>, Seq<u8>)>,
    pub unknown: Seq<(Seq<u8>, Seq<u8>)>,
    pub amount: Option<i64>,
    pub script: Option<Seq<u8>>,
}

impl View for Output {
    type V = OutputView;

    open spec fn view(&self) -> OutputView {
        OutputView {
            redeem_script: opt_bytes_view(self.redeem_script),
            witness_script: opt_bytes_view(self.witness_script),
            bip32_derivation: self.bip32_derivation@,
            tap_internal_key: opt_bytes_view(self.tap_internal_key),
            tap_tree: opt_bytes_view(self.tap_tree),
            tap_key_origins: self.tap_key_origins@,
            proprietary: self.proprietary@,
            unknown: self.unknown@,
            amount: self.amount,
            script: opt_bytes_view(self.script),
        }
    }
}

/// The empty output record.
pub open spec fn output_empty() -> OutputView {
    OutputView {
        redeem_script: None,
        witness_script: None,
        bip32_derivation: Seq::empty(),
        tap_internal_key: None,
        tap_tree: None,
        tap_key_origins: Seq::empty(),
        proprietary: Seq::empty(),
        unknown: Seq::empty(),
        amount: None,
        script: None,
    }
}

/// Two output records for the same output are compatible when no field
/// carries two different values.
pub open spec fn output_compatible(a: OutputView, b: OutputView) -> bool {
    &&& opt_compatible(a.redeem_script, b.redeem_script)
    &&& opt_compatible(a.witness_script, b.witness_script)
    &&& maps_compatible(map_of(a.bip32_derivation), map_of(b.bip32_derivation))
    &&& opt_compatible(a.tap_internal_key, b.tap_internal_key)
    &&& opt_compatible(a.tap_tree, b.tap_tree)
    &&& maps_compatible(map_of(a.tap_key_origins), map_of(b.tap_key_origins))
    &&& maps_compatible(map_of(a.proprietary), map_of(b.proprietary))
    &&& maps_compatible(map_of(a.unknown), map_of(b.unknown))
    &&& opt_compatible(a.amount, b.amount)
    &&& opt_compatible(a.script, b.script)
}

/// The field-by-field union of two compatible output records.
pub open spec fn output_merge(a: OutputView, b: OutputView) -> OutputView {
    OutputView {
        redeem_script: opt_merge(a.redeem_script, b.redeem_script),
        witness_script: opt_merge(a.witness_script, b.witness_script),
        bip32_derivation: merge_seq(a.bip32_derivation, b.bip32_derivation),
        tap_internal_key: opt_merge(a.tap_internal_key, b.tap_internal_key),
        tap_tree: opt_merge(a.tap_tree, b.tap_tree),
        tap_key_origins: merge_seq(a.tap_key_origins, b.tap_key_origins),
        proprietary: merge_seq(a.proprietary, b.proprietary),
        unknown: merge_seq(a.unknown, b.unknown),
        amount: opt_merge(a.amount, b.amount),
        script: opt_merge(a.script, b.script),
    }
}

impl Output {
    /// Well-formed: every map field has pairwise distinct keys.
    pub open spec fn wf(&self) -> bool {
        &&& self.bip32_derivation.wf()
        &&& self.tap_key_origins.wf()
        &&& self.proprietary.wf()
        &&& self.unknown.wf()
    }

    /// The empty output record.
    pub fn new() -> (r: Output)
        ensures
            r@ == output_empty(),
            r.wf(),
    {
        let r = Output {
            redeem_script: None,
            witness_script: None,
            bip32_derivation: SourceMap::new(),
            tap_internal_key: None,
            tap_tree: None,
            tap_key_origins: ByteMap::new(),
            proprietary: ByteMap::new(),
            unknown: ByteMap::new(),
            amount: None,
            script: None,
        };
        proof {
            assert(r@ =~= output_empty());
        }
        r
    }

    /// Copies the record, field for field.
    pub fn clone_output(&self) -> (r: Output)
        ensures
            r@ == self@,
    {
        let r = Output {
            redeem_script: clone_opt_bytes(&self.redeem_script),
            witness_script: clone_opt_bytes(&self.witness_script),
            bip32_derivation: self.bip32_derivation.duplicate(),
            tap_internal_key: clone_opt_bytes(&self.tap_internal_key),
            tap_tree: clone_opt_bytes(&self.tap_tree),
            tap_key_origins: self.tap_key_origins.duplicate(),
            proprietary: self.proprietary.duplicate(),
            unknown: self.unknown.duplicate(),
            amount: self.amount,
            script: clone_opt_bytes(&self.script),
        };
        proof {
            assert(r@ =~= self@);
        }
        r
    }
}

/// Unions two output records for the same output; any field carrying two
/// different values is a conflict.
pub fn combine_output(a: &Output, b: &Output) -> (r: Result<Output, ()>)
    requires
        a.wf(),
        b.wf(),
    ensures
        match r {
            Ok(m) => m.wf() && output_compatible(a@, b@) && m@ == output_merge(a@, b@),
            Err(()) => !output_compatible(a@, b@),
        },
{
    let redeem_script = merge_opt_bytes(&a.redeem_script, &b.redeem_script)?;
    let witness_script = merge_opt_bytes(&a.witness_script, &b.witness_script)?;
    let bip32_derivation = match a.bip32_derivation.merge(&b.bip32_derivation) {
        Ok(m) => m,
        Err(()) => {
            return Err(());
        }
    };
    let tap_internal_key = merge_opt_bytes(&a.tap_internal_key, &b.tap_internal_key)?;
    let tap_tree = merge_opt_bytes(&a.tap_tree, &b.tap_tree)?;
    let tap_key_origins = match a.tap_key_origins.merge(&b.tap_key_origins) {
        Ok(m) => m,
        Err(()) => {
            return Err(());
        }
    };
    let proprietary = match a.proprietary.merge(&b.proprietary) {
        Ok(m) => m,
        Err(()) => {
            return Err(());
        }
    };
    let unknown = match a.unknown.merge(&b.unknown) {
        Ok(m) => m,
        Err(()) => {
            return Err(());
        }
    };
    let amount = merge_opt_i64(&a.amount, &b.amount)?;
    let script = merge_opt_bytes(&a.script, &b.script)?;
    let m = Output {
        redeem_script,
        witness_script,
        bip32_derivation,
        tap_internal_key,
        tap_tree,
        tap_key_origins,
        proprietary,
        unknown,
        amount,
        script,
    };
    proof {
        assert(m@ =~= output_merge(a@, b@));
    }
    Ok(m)
}

} // verus!
