//! The per-input record of a PSBT: pre-signature material (spent coins,
//! scripts, derivation info, partial signatures, taproot data, hash
//! preimages), the post-finalization scriptSig/witness pair, and the
//! v2-only coin reference and locktime floors.
//!
//! An input is *finalized* once at least one of `final_script_sig` /
//! `final_script_witness` is set; finalization consumes the collected
//! signing material and clears it.

use vstd::prelude::*;
use crate::bytes::bytes_eq;
use crate::bytes::clone_bytes;
use crate::bytes::clone_opt_bytes;
use crate::bytes::clone_opt_witness;
use crate::bytes::merge_opt_bytes;
use crate::bytes::merge_opt_u32;
use crate::bytes::merge_opt_witness;
use crate::bytes::opt_bytes_view;
use crate::bytes::opt_witness_view;
use crate::bytes::witness_view;
use crate::kvmap::ByteMap;
use crate::kvmap::map_of;
use crate::kvmap::maps_compatible;
use crate::kvmap::merge_seq;
use crate::kvmap::opt_compatible;
use crate::kvmap::opt_merge;
use crate::primitives::KeySourceView;
use crate::primitives::PreviousTxId;
use crate::primitives::clone_opt_txid;
use crate::primitives::merge_opt_txid;
use crate::primitives::opt_txid_view;
use crate::sourcemap::SourceMap;
use crate::transaction::Transaction;
use crate::transaction::TransactionView;
use crate::transaction::TxOut;
use crate::transaction::TxOutView;
use crate::transaction::clone_opt_tx;
use crate::transaction::clone_opt_tx_out;
use crate::transaction::merge_opt_tx;
use crate::transaction::merge_opt_tx_out;
use crate::transaction::opt_tx_out_view;
use crate::transaction::opt_tx_view;

verus! {

/// Where an input stands in the signing workflow.
#[derive(Clone, Copy, PartialEq, Eq, Structural, Debug)]
pub enum SigningState {
    /// No signature collected yet.
    Unsigned,
    /// At least one signature collected, final scripts not built yet.
    PartiallySigned,
    /// The final scriptSig/witness is built; signing material is cleared.
    Finalized,
}

/// Why finalizing one input failed.
#[derive(Clone, Copy, PartialEq, Eq, Structural, Debug)]
pub enum FinalizeFailure {
    /// Fewer signatures than the threshold the script implies.
    InsufficientSignatures,
    /// No redeem/witness script and no spent-coin information to decide the
    /// spending conditions from.
    AmbiguousScript,
}

/// A per-input key-value record.
#[derive(Debug)]
pub struct Input {
    /// The full transaction the spent coin comes from; for non-segwit spends.
    pub non_witness_utxo: Option<Transaction>,
    /// The spent coin alone; for segwit spends, P2SH-embedded ones included.
    pub witness_utxo: Option<TxOut>,
    /// Public key bytes to ECDSA signature bytes.
    pub partial_sigs: ByteMap,
    /// The sighash type every signature for this input must use.
    pub sighash_type: Option<u32>,
    /// The redeem script for this input.
    pub redeem_script: Option<Vec<u8>>,
    /// The witness script for this input.
    pub witness_script: Option<Vec<u8>>,
    /// Public key bytes to the key's master fingerprint and derivation path.
    pub bip32_derivation: SourceMap,
    /// The finalized, fully constructed scriptSig.
    pub final_script_sig: Option<Vec<u8>>,
    /// The finalized, fully constructed witness stack.
    pub final_script_witness: Option<Vec<Vec<u8>>>,
    /// RIPEMD160 hash to preimage.
    pub ripemd160_preimages: ByteMap,
    /// SHA256 hash to preimage.
    pub sha256_preimages: ByteMap,
    /// HASH160 hash to preimage.
    pub hash160_preimages: ByteMap,
    /// HASH256 hash to preimage.
    pub hash256_preimages: ByteMap,
    /// Serialized taproot key-spend signature.
    pub tap_key_sig: Option<Vec<u8>>,
    /// Composite key (x-only public key, leaf hash) to taproot signature.
    pub tap_script_sigs: ByteMap,
    /// Control block to script-and-leaf-version record, held verbatim.
    pub tap_scripts: ByteMap,
    /// X-only public key to its origin record, held verbatim.
    pub tap_key_origins: ByteMap,
    /// Taproot internal key.
    pub tap_internal_key: Option<Vec<u8>>,
    /// Taproot Merkle root.
    pub tap_merkle_root: Option<Vec<u8>>,
    /// Proprietary key-value pairs, preserved verbatim.
    pub proprietary: ByteMap,
    /// Unknown key-value pairs, preserved verbatim.
    pub unknown: ByteMap,
    /// Id of the transaction the spent coin comes from; v2 only.
    pub previous_tx_id: Option<PreviousTxId>,
    /// Index of the spent coin in that transaction; v2 only.
    pub output_index: Option<u32>,
    /// Sequence number; v2 only.
    pub sequence: Option<u32>,
    /// Required time-based locktime floor; v2 only.
    pub required_time_locktime: Option<u32>,
    /// Required height-based locktime floor; v2 only.
    pub required_height_locktime: Option<u32>,
}

/// The mathematical content of an input record.
#[verifier::ext_equal]
pub struct InputView {
    pub non_witness_utxo: Option<TransactionView>,
    pub witness_utxo: Option<TxOutView>,
    pub partial_sigs: Seq<(Seq<u8>, Seq<u8>)>,
    pub sighash_type: Option<u32>,
    pub redeem_script: Option<Seq<u8>>,
    pub witness_script: Option<Seq<u8>>,
    pub bip32_derivation: Seq<(Seq<u8>, KeySourceView)>,
    pub final_script_sig: Option<Seq<u8>>,
    pub final_script_witness: Option<Seq<Seq<u8>>>,
    pub ripemd160_preimages: Seq<(Seq<u8>, Seq<u8>)>,
    pub sha256_preimages: Seq<(Seq<u8>, Seq<u8>)>,
    pub hash160_preimages: Seq<(Seq<u8>, Seq<u8>)>,
    pub hash256_preimages: Seq<(Seq<u8>, Seq<u8>)>,
    pub tap_key_sig: Option<Seq<u8>>,
    pub tap_script_sigs: Seq<(Seq<u8>, Seq<u8>)>,
    pub tap_scripts: Seq<(Seq<u8>, Seq<u8>)>,
    pub tap_key_origins: Seq<(Seq<u8>, Seq<u8>)>,
    pub tap_internal_key: Option<Seq<u8>>,
    pub tap_merkle_root: Option<Seq<u8>>,
    pub proprietary: Seq<(Seq<u8>, Seq<u8>)>,
    pub unknown: Seq<(Seq<u8>, Seq<u8>)>,
    pub previous_tx_id: Option<Seq<u8>>,
    pub output_index: Option<u32>,
    pub sequence: Option<u32>,
    pub required_time_locktime: Option<u32>,
    pub required_height_locktime: Option<u32>,
}

impl View for Input {
    type V = InputView;

    open spec fn view(&self) -> InputView {
        InputView {
            non_witness_utxo: opt_tx_view(self.non_witness_utxo),
            witness_utxo: opt_tx_out_view(self.witness_utxo),
            partial_sigs: self.partial_sigs@,
            sighash_type: self.sighash_type,
            redeem_script: opt_bytes_view(self.redeem_script),
            witness_script: opt_bytes_view(self.witness_script),
            bip32_derivation: self.bip32_derivation@,
            final_script_sig: opt_bytes_view(self.final_script_sig),
            final_script_witness: opt_witness_view(self.final_script_witness),
            ripemd160_preimages: self.ripemd160_preimages@,
            sha256_preimages: self.sha256_preimages@,
            hash160_preimages: self.hash160_preimages@,
            hash256_preimages: self.hash256_preimages@,
            tap_key_sig: opt_bytes_view(self.tap_key_sig),
            tap_script_sigs: self.tap_script_sigs@,
            tap_scripts: self.tap_scripts@,
            tap_key_origins: self.tap_key_origins@,
            tap_internal_key: opt_bytes_view(self.tap_internal_key),
            tap_merkle_root: opt_bytes_view(self.tap_merkle_root),
            proprietary: self.proprietary@,
            unknown: self.unknown@,
            previous_tx_id: opt_txid_view(self.previous_tx_id),
            output_index: self.output_index,
            sequence: self.sequence,
            required_time_locktime: self.required_time_locktime,
            required_height_locktime: self.required_height_locktime,
        }
    }
}

/// The empty input record.
pub open spec fn input_empty() -> InputView {
    InputView {
        non_witness_utxo: None,
        witness_utxo: None,
        partial_sigs: Seq::empty(),
        sighash_type: None,
        redeem_script: None,
        witness_script: None,
        bip32_derivation: Seq::empty(),
        final_script_sig: None,
        final_script_witness: None,
        ripemd160_preimages: Seq::empty(),
        sha256_preimages: Seq::empty(),
        hash160_preimages: Seq::empty(),
        hash256_preimages: Seq::empty(),
        tap_key_sig: None,
        tap_script_sigs: Seq::empty(),
        tap_scripts: Seq::empty(),
        tap_key_origins: Seq::empty(),
        tap_internal_key: None,
        tap_merkle_root: None,
        proprietary: Seq::empty(),
        unknown: Seq::empty(),
        previous_tx_id: None,
        output_index: None,
        sequence: None,
        required_time_locktime: None,
        required_height_locktime: None,
    }
}

/// An input is finalized when a final scriptSig or witness is set.
pub open spec fn is_finalized_view(i: InputView) -> bool {
    i.final_script_sig is Some || i.final_script_witness is Some
}

/// The signing state of an input record.
pub open spec fn signing_state_view(i: InputView) -> SigningState {
    if is_finalized_view(i) {
        SigningState::Finalized
    } else if i.partial_sigs.len() > 0 || i.tap_key_sig is Some || i.tap_script_sigs.len() > 0 {
        SigningState::PartiallySigned
    } else {
        SigningState::Unsigned
    }
}

/// Two input records for the same input are compatible when no field carries
/// two different values: scalar fields must agree where both are set, map
/// fields must agree on shared keys.
pub open spec fn input_compatible(a: InputView, b: InputView) -> bool {
    &&& opt_compatible(a.non_witness_utxo, b.non_witness_utxo)
    &&& opt_compatible(a.witness_utxo, b.witness_utxo)
    &&& maps_compatible(map_of(a.partial_sigs), map_of(b.partial_sigs))
    &&& opt_compatible(a.sighash_type, b.sighash_type)
    &&& opt_compatible(a.redeem_script, b.redeem_script)
    &&& opt_compatible(a.witness_script, b.witness_script)
    &&& maps_compatible(map_of(a.bip32_derivation), map_of(b.bip32_derivation))
    &&& opt_compatible(a.final_script_sig, b.final_script_sig)
    &&& opt_compatible(a.final_script_witness, b.final_script_witness)
    &&& maps_compatible(map_of(a.ripemd160_preimages), map_of(b.ripemd160_preimages))
    &&& maps_compatible(map_of(a.sha256_preimages), map_of(b.sha256_preimages))
    &&& maps_compatible(map_of(a.hash160_preimages), map_of(b.hash160_preimages))
    &&& maps_compatible(map_of(a.hash256_preimages), map_of(b.hash256_preimages))
    &&& opt_compatible(a.tap_key_sig, b.tap_key_sig)
    &&& maps_compatible(map_of(a.tap_script_sigs), map_of(b.tap_script_sigs))
    &&& maps_compatible(map_of(a.tap_scripts), map_of(b.tap_scripts))
    &&& maps_compatible(map_of(a.tap_key_origins), map_of(b.tap_key_origins))
    &&& opt_compatible(a.tap_internal_key, b.tap_internal_key)
    &&& opt_compatible(a.tap_merkle_root, b.tap_merkle_root)
    &&& maps_compatible(map_of(a.proprietary), map_of(b.proprietary))
    &&& maps_compatible(map_of(a.unknown), map_of(b.unknown))
    &&& opt_compatible(a.previous_tx_id, b.previous_tx_id)
    &&& opt_compatible(a.output_index, b.output_index)
    &&& opt_compatible(a.sequence, b.sequence)
    &&& opt_compatible(a.required_time_locktime, b.required_time_locktime)
    &&& opt_compatible(a.required_height_locktime, b.required_height_locktime)
}

/// The field-by-field union of two compatible input records.
pub open spec fn input_merge(a: InputView, b: InputView) -> InputView {
    InputView {
        non_witness_utxo: opt_merge(a.non_witness_utxo, b.non_witness_utxo),
        witness_utxo: opt_merge(a.witness_utxo, b.witness_utxo),
        partial_sigs: merge_seq(a.partial_sigs, b.partial_sigs),
        sighash_type: opt_merge(a.sighash_type, b.sighash_type),
        redeem_script: opt_merge(a.redeem_script, b.redeem_script),
        witness_script: opt_merge(a.witness_script, b.witness_script),
        bip32_derivation: merge_seq(a.bip32_derivation, b.bip32_derivation),
        final_script_sig: opt_merge(a.final_script_sig, b.final_script_sig),
        final_script_witness: opt_merge(a.final_script_witness, b.final_script_witness),
        ripemd160_preimages: merge_seq(a.ripemd160_preimages, b.ripemd160_preimages),
        sha256_preimages: merge_seq(a.sha256_preimages, b.sha256_preimages),
        hash160_preimages: merge_seq(a.hash160_preimages, b.hash160_preimages),
        hash256_preimages: merge_seq(a.hash256_preimages, b.hash256_preimages),
        tap_key_sig: opt_merge(a.tap_key_sig, b.tap_key_sig),
        tap_script_sigs: merge_seq(a.tap_script_sigs, b.tap_script_sigs),
        tap_scripts: merge_seq(a.tap_scripts, b.tap_scripts),
        tap_key_origins: merge_seq(a.tap_key_origins, b.tap_key_origins),
        tap_internal_key: opt_merge(a.tap_internal_key, b.tap_internal_key),
        tap_merkle_root: opt_merge(a.tap_merkle_root, b.tap_merkle_root),
        proprietary: merge_seq(a.proprietary, b.proprietary),
        unknown: merge_seq(a.unknown, b.unknown),
        previous_tx_id: opt_merge(a.previous_tx_id, b.previous_tx_id),
        output_index: opt_merge(a.output_index, b.output_index),
        sequence: opt_merge(a.sequence, b.sequence),
        required_time_locktime: opt_merge(a.required_time_locktime, b.required_time_locktime),
        required_height_locktime: opt_merge(
            a.required_height_locktime,
            b.required_height_locktime,
        ),
    }
}

impl Input {
    /// Well-formed: every map field has pairwise distinct keys.
    pub open spec fn wf(&self) -> bool {
        &&& self.partial_sigs.wf()
        &&& self.bip32_derivation.wf()
        &&& self.ripemd160_preimages.wf()
        &&& self.sha256_preimages.wf()
        &&& self.hash160_preimages.wf()
        &&& self.hash256_preimages.wf()
        &&& self.tap_script_sigs.wf()
        &&& self.tap_scripts.wf()
        &&& self.tap_key_origins.wf()
        &&& self.proprietary.wf()
        &&& self.unknown.wf()
    }

    /// The empty input record.
    pub fn new() -> (r: Input)
        ensures
            r@ == input_empty(),
            r.wf(),
    {
        let r = Input {
            non_witness_utxo: None,
            witness_utxo: None,
            partial_sigs: ByteMap::new(),
            sighash_type: None,
            redeem_script: None,
            witness_script: None,
            bip32_derivation: SourceMap::new(),
            final_script_sig: None,
            final_script_witness: None,
            ripemd160_preimages: ByteMap::new(),
            sha256_preimages: ByteMap::new(),
            hash160_preimages: ByteMap::new(),
            hash256_preimages: ByteMap::new(),
            tap_key_sig: None,
            tap_script_sigs: ByteMap::new(),
            tap_scripts: ByteMap::new(),
            tap_key_origins: ByteMap::new(),
            tap_internal_key: None,
            tap_merkle_root: None,
            proprietary: ByteMap::new(),
            unknown: ByteMap::new(),
            previous_tx_id: None,
            output_index: None,
            sequence: None,
            required_time_locktime: None,
            required_height_locktime: None,
        };
        proof {
            assert(r@ =~= input_empty());
        }
        r
    }

    /// Copies the record, field for field.
    pub fn clone_input(&self) -> (r: Input)
        ensures
            r@ == self@,
    {
        let r = Input {
            non_witness_utxo: clone_opt_tx(&self.non_witness_utxo),
            witness_utxo: clone_opt_tx_out(&self.witness_utxo),
            partial_sigs: self.partial_sigs.duplicate(),
            sighash_type: self.sighash_type,
            redeem_script: clone_opt_bytes(&self.redeem_script),
            witness_script: clone_opt_bytes(&self.witness_script),
            bip32_derivation: self.bip32_derivation.duplicate(),
            final_script_sig: clone_opt_bytes(&self.final_script_sig),
            final_script_witness: clone_opt_witness(&self.final_script_witness),
            ripemd160_preimages: self.ripemd160_preimages.duplicate(),
            sha256_preimages: self.sha256_preimages.duplicate(),
            hash160_preimages: self.hash160_preimages.duplicate(),
            hash256_preimages: self.hash256_preimages.duplicate(),
            tap_key_sig: clone_opt_bytes(&self.tap_key_sig),
            tap_script_sigs: self.tap_script_sigs.duplicate(),
            tap_scripts: self.tap_scripts.duplicate(),
            tap_key_origins: self.tap_key_origins.duplicate(),
            tap_internal_key: clone_opt_bytes(&self.tap_internal_key),
            tap_merkle_root: clone_opt_bytes(&self.tap_merkle_root),
            proprietary: self.proprietary.duplicate(),
            unknown: self.unknown.duplicate(),
            previous_tx_id: clone_opt_txid(&self.previous_tx_id),
            output_index: self.output_index,
            sequence: self.sequence,
            required_time_locktime: self.required_time_locktime,
            required_height_locktime: self.required_height_locktime,
        };
        proof {
            assert(r@ =~= self@);
        }
        r
    }

    /// Whether this input is finalized.
    pub fn is_finalized(&self) -> (b: bool)
        ensures
            b == is_finalized_view(self@),
    {
        self.final_script_sig.is_some() || self.final_script_witness.is_some()
    }

    /// Where this input stands in the signing workflow.
    pub fn signing_state(&self) -> (s: SigningState)
        ensures
            s == signing_state_view(self@),
    {
        if self.is_finalized() {
            SigningState::Finalized
        } else if self.partial_sigs.len() > 0 || self.tap_key_sig.is_some()
            || self.tap_script_sigs.len() > 0 {
            SigningState::PartiallySigned
        } else {
            SigningState::Unsigned
        }
    }
}

/// Unions two input records for the same input; any field carrying two
/// different values is a conflict.
pub fn combine_input(a: &Input, b: &Input) -> (r: Result<Input, ()>)
    requires
        a.wf(),
        b.wf(),
    ensures
        match r {
            Ok(m) => m.wf() && input_compatible(a@, b@) && m@ == input_merge(a@, b@),
            Err(()) => !input_compatible(a@, b@),
        },
{
    let non_witness_utxo = merge_opt_tx(&a.non_witness_utxo, &b.non_witness_utxo)?;
    let witness_utxo = merge_opt_tx_out(&a.witness_utxo, &b.witness_utxo)?;
    let partial_sigs = match a.partial_sigs.merge(&b.partial_sigs) {
        Ok(m) => m,
        Err(()) => {
            return Err(());
        }
    };
    let sighash_type = merge_opt_u32(&a.sighash_type, &b.sighash_type)?;
    let redeem_script = merge_opt_bytes(&a.redeem_script, &b.redeem_script)?;
    let witness_script = merge_opt_bytes(&a.witness_script, &b.witness_script)?;
    let bip32_derivation = match a.bip32_derivation.merge(&b.bip32_derivation) {
        Ok(m) => m,
        Err(()) => {
            return Err(());
        }
    };
    let final_script_sig = merge_opt_bytes(&a.final_script_sig, &b.final_script_sig)?;
    let final_script_witness = merge_opt_witness(&a.final_script_witness, &b.final_script_witness)?;
    let ripemd160_preimages = match a.ripemd160_preimages.merge(&b.ripemd160_preimages) {
        Ok(m) => m,
        Err(()) => {
            return Err(());
        }
    };
    let sha256_preimages = match a.sha256_preimages.merge(&b.sha256_preimages) {
        Ok(m) => m,
        Err(()) => {
            return Err(());
        }
    };
    let hash160_preimages = match a.hash160_preimages.merge(&b.hash160_preimages) {
        Ok(m) => m,
        Err(()) => {
            return Err(());
        }
    };
    let hash256_preimages = match a.hash256_preimages.merge(&b.hash256_preimages) {
        Ok(m) => m,
        Err(()) => {
            return Err(());
        }
    };
    let tap_key_sig = merge_opt_bytes(&a.tap_key_sig, &b.tap_key_sig)?;
    let tap_script_sigs = match a.tap_script_sigs.merge(&b.tap_script_sigs) {
        Ok(m) => m,
        Err(()) => {
            return Err(());
        }
    };
    let tap_scripts = match a.tap_scripts.merge(&b.tap_scripts) {
        Ok(m) => m,
        Err(()) => {
            return Err(());
        }
    };
    let tap_key_origins = match a.tap_key_origins.merge(&b.tap_key_origins) {
        Ok(m) => m,
        Err(()) => {
            return Err(());
        }
    };
    let tap_internal_key = merge_opt_bytes(&a.tap_internal_key, &b.tap_internal_key)?;
    let tap_merkle_root = merge_opt_bytes(&a.tap_merkle_root, &b.tap_merkle_root)?;
    let proprietary = match a.proprietary.merge(&b.proprietary) {
        Ok(m) => m,
        Err(()) => {
            return Err(());
        }
    };
    let unknown = match a.unknown.merge(&b.unknown) {
        Ok(m) => m,
        Err(()) => {
            return Err(());
        }
    };
    let previous_tx_id = merge_opt_txid(&a.previous_tx_id, &b.previous_tx_id)?;
    let output_index = merge_opt_u32(&a.output_index, &b.output_index)?;
    let sequence = merge_opt_u32(&a.sequence, &b.sequence)?;
    let required_time_locktime = merge_opt_u32(
        &a.required_time_locktime,
        &b.required_time_locktime,
    )?;
    let required_height_locktime = merge_opt_u32(
        &a.required_height_locktime,
        &b.required_height_locktime,
    )?;
    let m = Input {
        non_witness_utxo,
        witness_utxo,
        partial_sigs,
        sighash_type,
        redeem_script,
        witness_script,
        bip32_derivation,
        final_script_sig,
        final_script_witness,
        ripemd160_preimages,
        sha256_preimages,
        hash160_preimages,
        hash256_preimages,
        tap_key_sig,
        tap_script_sigs,
        tap_scripts,
        tap_key_origins,
        tap_internal_key,
        tap_merkle_root,
        proprietary,
        unknown,
        previous_tx_id,
        output_index,
        sequence,
        required_time_locktime,
        required_height_locktime,
    };
    proof {
        assert(m@ =~= input_merge(a@, b@));
    }
    Ok(m)
}

/// The signature threshold a locking script implies: the count named by a
/// leading small-number opcode of a bare multisig script, and one signature
/// for every other script.
pub open spec fn sig_threshold(script: Seq<u8>) -> int {
    if script.len() > 0 && 0x51 <= script[0] && script[0] <= 0x60 {
        script[0] - 0x50
    } else {
        1
    }
}

/// A script push of `b`: the minimal push opcode, then the data. A length is
/// encoded in the fewest bytes that hold it, four at most.
pub open spec fn push_opcode(b: Seq<u8>) -> Seq<u8> {
    if b.len() < 0x4c {
        seq![b.len() as u8] + b
    } else if b.len() < 0x100 {
        seq![0x4cu8, b.len() as u8] + b
    } else if b.len() < 0x10000 {
        seq![0x4du8, (b.len() % 0x100) as u8, (b.len() / 0x100) as u8] + b
    } else {
        seq![
            0x4eu8,
            (b.len() % 0x100) as u8,
            ((b.len() / 0x100) % 0x100) as u8,
            ((b.len() / 0x10000) % 0x100) as u8,
            ((b.len() / 0x1000000) % 0x100) as u8,
        ] + b
    }
}

/// The concatenated pushes of a stack of elements, in order.
pub open spec fn pushes(elems: Seq<Seq<u8>>) -> Seq<u8>
    decreases elems.len(),
{
    if elems.len() == 0 {
        Seq::empty()
    } else {
        pushes(elems.drop_last()) + push_opcode(elems.last())
    }
}

/// The first `m` signature values of a partial-signature record, in entry
/// order.
pub open spec fn sig_values(s: Seq<(Seq<u8>, Seq<u8>)>, m: int) -> Seq<Seq<u8>> {
    Seq::new(m as nat, |k: int| s[k].1)
}

/// The record after finalization: the final scripts are set and the consumed
/// signing material — partial signatures, redeem and witness scripts, BIP32
/// derivation, and the taproot signature and script records — is cleared.
/// Spent-coin data, sighash type, hash preimages, the taproot internal key
/// and Merkle root, proprietary and unknown records, and the v2 fields stay.
pub open spec fn finalized_view(
    i: InputView,
    fss: Option<Seq<u8>>,
    fsw: Option<Seq<Seq<u8>>>,
) -> InputView {
    InputView {
        non_witness_utxo: i.non_witness_utxo,
        witness_utxo: i.witness_utxo,
        partial_sigs: Seq::empty(),
        sighash_type: i.sighash_type,
        redeem_script: None,
        witness_script: None,
        bip32_derivation: Seq::empty(),
        final_script_sig: fss,
        final_script_witness: fsw,
        ripemd160_preimages: i.ripemd160_preimages,
        sha256_preimages: i.sha256_preimages,
        hash160_preimages: i.hash160_preimages,
        hash256_preimages: i.hash256_preimages,
        tap_key_sig: None,
        tap_script_sigs: Seq::empty(),
        tap_scripts: Seq::empty(),
        tap_key_origins: Seq::empty(),
        tap_internal_key: i.tap_internal_key,
        tap_merkle_root: i.tap_merkle_root,
        proprietary: i.proprietary,
        unknown: i.unknown,
        previous_tx_id: i.previous_tx_id,
        output_index: i.output_index,
        sequence: i.sequence,
        required_time_locktime: i.required_time_locktime,
        required_height_locktime: i.required_height_locktime,
    }
}

/// What finalizing one input yields.
#[verifier::ext_equal]
pub enum FinalizeOutcome {
    /// The finalized record.
    Done(InputView),
    /// Fewer signatures than the script's threshold.
    NeedMoreSigs,
    /// No script and no spent-coin information to decide the spending
    /// conditions from.
    NoScript,
}

/// The finalization state machine for one input. A finalized input is left
/// exactly as it is. Otherwise the spending conditions are decided in a fixed
/// order: a taproot key-spend signature builds a one-element witness; a
/// witness script builds a witness of the threshold's signatures and the
/// script (with the redeem script pushed into the scriptSig when present); a
/// redeem script builds a scriptSig of pushed signatures and the script; a
/// bare witness coin builds the single-key witness (signature, then public
/// key); a legacy coin builds the single-key scriptSig. With no script and no
/// coin information the spending conditions are unknown.
pub open spec fn finalize_spec(i: InputView) -> FinalizeOutcome {
    if is_finalized_view(i) {
        FinalizeOutcome::Done(i)
    } else {
        match i.tap_key_sig {
            Some(sig) => FinalizeOutcome::Done(finalized_view(i, None, Some(seq![sig]))),
            None => match i.witness_script {
                Some(ws) => {
                    if i.partial_sigs.len() < sig_threshold(ws) {
                        FinalizeOutcome::NeedMoreSigs
                    } else {
                        FinalizeOutcome::Done(
                            finalized_view(
                                i,
                                match i.redeem_script {
                                    Some(rs) => Some(push_opcode(rs)),
                                    None => None,
                                },
                                Some(sig_values(i.partial_sigs, sig_threshold(ws)).push(ws)),
                            ),
                        )
                    }
                }
                None => match i.redeem_script {
                    Some(rs) => {
                        if i.partial_sigs.len() < sig_threshold(rs) {
                            FinalizeOutcome::NeedMoreSigs
                        } else {
                            FinalizeOutcome::Done(
                                finalized_view(
                                    i,
                                    Some(
                                        pushes(sig_values(i.partial_sigs, sig_threshold(rs)))
                                            + push_opcode(rs),
                                    ),
                                    None,
                                ),
                            )
                        }
                    }
                    None => {
                        if i.witness_utxo is Some {
                            if i.partial_sigs.len() < 1 {
                                FinalizeOutcome::NeedMoreSigs
                            } else {
                                FinalizeOutcome::Done(
                                    finalized_view(
                                        i,
                                        None,
                                        Some(seq![i.partial_sigs[0].1, i.partial_sigs[0].0]),
                                    ),
                                )
                            }
                        } else if i.non_witness_utxo is Some {
                            if i.partial_sigs.len() < 1 {
                                FinalizeOutcome::NeedMoreSigs
                            } else {
                                FinalizeOutcome::Done(
                                    finalized_view(
                                        i,
                                        Some(
                                            push_opcode(i.partial_sigs[0].1)
                                                + push_opcode(i.partial_sigs[0].0),
                                        ),
                                        None,
                                    ),
                                )
                            }
                        } else {
                            FinalizeOutcome::NoScript
                        }
                    }
                },
            },
        }
    }
}

/// The signature threshold of a script, as `sig_threshold` gives it.
pub fn script_threshold(script: &Vec<u8>) -> (m: usize)
    ensures
        m == sig_threshold(script@),
        1 <= m <= 16,
{
    if script.len() > 0 {
        let b = script[0];
        if 0x51 <= b && b <= 0x60 {
            (b - 0x50) as usize
        } else {
            1
        }
    } else {
        1
    }
}

/// Appends the minimal push of `data` to `out`.
pub fn push_element(out: &mut Vec<u8>, data: &Vec<u8>)
    ensures
        final(out)@ == old(out)@ + push_opcode(data@),
{
    let n = data.len();
    if n < 0x4c {
        out.push(n as u8);
    } else if n < 0x100 {
        out.push(0x4c);
        out.push(n as u8);
    } else if n < 0x10000 {
        out.push(0x4d);
        out.push((n % 0x100) as u8);
        out.push((n / 0x100) as u8);
    } else {
        out.push(0x4e);
        out.push((n % 0x100) as u8);
        out.push(((n / 0x100) % 0x100) as u8);
        out.push(((n / 0x10000) % 0x100) as u8);
        out.push(((n / 0x1000000) % 0x100) as u8);
    }
    let ghost hdr = out@;
    proof {
        assert(out@ =~= hdr + data@.take(0));
    }
    let mut i: usize = 0;
    while i < data.len()
        invariant
            i <= data@.len(),
            out@ == hdr + data@.take(i as int),
        decreases data@.len() - i,
    {
        out.push(data[i]);
        proof {
            assert(hdr + data@.take(i as int) + seq![data@[i as int]]
                =~= hdr + data@.take(i as int + 1));
        }
        i = i + 1;
    }
    proof {
        assert(data@.take(data@.len() as int) =~= data@);
        assert(out@ =~= old(out)@ + push_opcode(data@));
    }
}

/// Appends the pushes of all elements to `out`, in order.
pub fn push_all(out: &mut Vec<u8>, elems: &Vec<Vec<u8>>)
    ensures
        final(out)@ == old(out)@ + pushes(witness_view(*elems)),
{
    proof {
        assert(out@ =~= old(out)@ + pushes(witness_view(*elems).take(0)));
    }
    let mut k: usize = 0;
    while k < elems.len()
        invariant
            k <= elems@.len(),
            out@ == old(out)@ + pushes(witness_view(*elems).take(k as int)),
        decreases elems@.len() - k,
    {
        push_element(out, &elems[k]);
        proof {
            let wv = witness_view(*elems);
            assert(wv.take(k as int + 1).drop_last() =~= wv.take(k as int));
            assert(wv.take(k as int + 1).last() == wv[k as int]);
            assert(wv[k as int] == elems@[k as int]@);
            assert(out@ =~= old(out)@ + pushes(wv.take(k as int + 1)));
        }
        k = k + 1;
    }
    proof {
        assert(witness_view(*elems).take(elems@.len() as int) =~= witness_view(*elems));
    }
}

/// The first `m` signature values of a record, as a stack.
pub fn collect_sig_values(map: &ByteMap, m: usize) -> (out: Vec<Vec<u8>>)
    requires
        m <= map@.len(),
    ensures
        witness_view(out) == sig_values(map@, m as int),
{
    let mut out: Vec<Vec<u8>> = Vec::new();
    let mut k: usize = 0;
    while k < m
        invariant
            k <= m,
            m <= map@.len(),
            out@.len() == k,
            forall|j: int| 0 <= j < k ==> out@[j]@ == map@[j].1,
        decreases m - k,
    {
        out.push(clone_bytes(map.value_at(k)));
        k = k + 1;
    }
    proof {
        assert(witness_view(out) =~= sig_values(map@, m as int));
    }
    out
}

impl Input {
    /// The finalized copy of this record, with the given final scripts set
    /// and the consumed signing material cleared.
    fn finalized_with(&self, fss: Option<Vec<u8>>, fsw: Option<Vec<Vec<u8>>>) -> (f: Input)
        requires
            self.wf(),
        ensures
            f@ == finalized_view(self@, opt_bytes_view(fss), opt_witness_view(fsw)),
            f.wf(),
    {
        let f = Input {
            non_witness_utxo: clone_opt_tx(&self.non_witness_utxo),
            witness_utxo: clone_opt_tx_out(&self.witness_utxo),
            partial_sigs: ByteMap::new(),
            sighash_type: self.sighash_type,
            redeem_script: None,
            witness_script: None,
            bip32_derivation: SourceMap::new(),
            final_script_sig: fss,
            final_script_witness: fsw,
            ripemd160_preimages: self.ripemd160_preimages.duplicate(),
            sha256_preimages: self.sha256_preimages.duplicate(),
            hash160_preimages: self.hash160_preimages.duplicate(),
            hash256_preimages: self.hash256_preimages.duplicate(),
            tap_key_sig: None,
            tap_script_sigs: ByteMap::new(),
            tap_scripts: ByteMap::new(),
            tap_key_origins: ByteMap::new(),
            tap_internal_key: clone_opt_bytes(&self.tap_internal_key),
            tap_merkle_root: clone_opt_bytes(&self.tap_merkle_root),
            proprietary: self.proprietary.duplicate(),
            unknown: self.unknown.duplicate(),
            previous_tx_id: clone_opt_txid(&self.previous_tx_id),
            output_index: self.output_index,
            sequence: self.sequence,
            required_time_locktime: self.required_time_locktime,
            required_height_locktime: self.required_height_locktime,
        };
        proof {
            assert(f@ =~= finalized_view(self@, opt_bytes_view(f.final_script_sig),
                opt_witness_view(f.final_script_witness)));
        }
        f
    }

    /// Runs the finalization state machine on this record and returns the
    /// finalized copy, exactly as `finalize_spec` describes it. Finalizing a
    /// finalized record is a no-op that succeeds.
    pub fn finalize_record(&self) -> (r: Result<Input, FinalizeFailure>)
        requires
            self.wf(),
        ensures
            match r {
                Ok(f) => f.wf() && finalize_spec(self@) == FinalizeOutcome::Done(f@),
                Err(FinalizeFailure::InsufficientSignatures) => finalize_spec(self@)
                    == FinalizeOutcome::NeedMoreSigs,
                Err(FinalizeFailure::AmbiguousScript) => finalize_spec(self@)
                    == FinalizeOutcome::NoScript,
            },
    {
        if self.is_finalized() {
            return Ok(self.clone_input());
        }
        match &self.tap_key_sig {
            Some(sig) => {
                let mut w: Vec<Vec<u8>> = Vec::new();
                w.push(clone_bytes(sig));
                proof {
                    assert(witness_view(w) =~= seq![sig@]);
                }
                return Ok(self.finalized_with(None, Some(w)));
            }
            None => {}
        }
        match &self.witness_script {
            Some(ws) => {
                let m = script_threshold(ws);
                if self.partial_sigs.len() < m {
                    return Err(FinalizeFailure::InsufficientSignatures);
                }
                let mut w = collect_sig_values(&self.partial_sigs, m);
                proof {
                    assert(witness_view(w) == sig_values(self.partial_sigs@, m as int));
                }
                w.push(clone_bytes(ws));
                proof {
                    assert(witness_view(w)
                        =~= sig_values(self.partial_sigs@, m as int).push(ws@));
                }
                let fss = match &self.redeem_script {
                    Some(rs) => {
                        let mut v: Vec<u8> = Vec::new();
                        push_element(&mut v, rs);
                        proof {
                            assert(v@ =~= push_opcode(rs@));
                        }
                        Some(v)
                    }
                    None => None,
                };
                return Ok(self.finalized_with(fss, Some(w)));
            }
            None => {}
        }
        match &self.redeem_script {
            Some(rs) => {
                let m = script_threshold(rs);
                if self.partial_sigs.len() < m {
                    return Err(FinalizeFailure::InsufficientSignatures);
                }
                let sigs = collect_sig_values(&self.partial_sigs, m);
                let mut v: Vec<u8> = Vec::new();
                push_all(&mut v, &sigs);
                proof {
                    assert(v@ =~= pushes(sig_values(self.partial_sigs@, m as int)));
                }
                push_element(&mut v, rs);
                return Ok(self.finalized_with(Some(v), None));
            }
            None => {}
        }
        if self.witness_utxo.is_some() {
            if self.partial_sigs.is_empty() {
                return Err(FinalizeFailure::InsufficientSignatures);
            }
            let mut w: Vec<Vec<u8>> = Vec::new();
            w.push(clone_bytes(self.partial_sigs.value_at(0)));
            w.push(clone_bytes(self.partial_sigs.key_at(0)));
            proof {
                assert(witness_view(w)
                    =~= seq![self.partial_sigs@[0].1, self.partial_sigs@[0].0]);
            }
            return Ok(self.finalized_with(None, Some(w)));
        }
        if self.non_witness_utxo.is_some() {
            if self.partial_sigs.is_empty() {
                return Err(FinalizeFailure::InsufficientSignatures);
            }
            let mut v: Vec<u8> = Vec::new();
            push_element(&mut v, self.partial_sigs.value_at(0));
            push_element(&mut v, self.partial_sigs.key_at(0));
            proof {
                assert(v@ =~= push_opcode(self.partial_sigs@[0].1)
                    + push_opcode(self.partial_sigs@[0].0));
            }
            return Ok(self.finalized_with(Some(v), None));
        }
        Err(FinalizeFailure::AmbiguousScript)
    }
}

} // verus!
