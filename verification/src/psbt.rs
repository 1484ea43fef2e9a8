//! The PSBT container and its engines: version-dispatched validation, the
//! unchecked/checked typestate wrapper, the combine (merge) engine, per-index
//! finalization, and extraction of the finished transaction.

use vstd::prelude::*;
use core::marker::PhantomData;
use crate::bytes::clone_bytes;
use crate::bytes::clone_opt_bytes;
use crate::bytes::bytes_eq;
use crate::input::Input;
use crate::input::InputView;
use crate::input::combine_input;
use crate::input::input_compatible;
use crate::input::input_merge;
use crate::input::is_finalized_view;
use crate::kvmap::ByteMap;
use crate::kvmap::keys_unique;
use crate::kvmap::map_of;
use crate::kvmap::maps_compatible;
use crate::kvmap::merge_seq;
use crate::kvmap::opt_compatible;
use crate::kvmap::opt_merge;
use crate::output::Output;
use crate::output::OutputView;
use crate::output::combine_output;
use crate::output::output_compatible;
use crate::output::output_merge;
use crate::primitives::KeySourceView;
use crate::primitives::Version;
use crate::sourcemap::SourceMap;
use crate::transaction::Transaction;
use crate::transaction::TransactionView;
use crate::transaction::opt_tx_eq;
use crate::transaction::opt_tx_view;
use crate::transaction::merge_opt_tx;

verus! {

/// Why a container failed structural validation. Every variant that concerns
/// one record names its index.
#[derive(Clone, Copy, PartialEq, Eq, Structural, Debug)]
pub enum ValidationError {
    /// A v0 container must embed the unsigned transaction.
    MissingUnsignedTx,
    /// A v0 input may not carry the v2 coin reference.
    ForbiddenV2Field { input_index: usize },
    /// The input records are not index-aligned with the unsigned transaction.
    InputCountMismatch,
    /// The output records are not index-aligned with the unsigned transaction.
    OutputCountMismatch,
    /// An input of the embedded unsigned transaction has a non-empty scriptSig.
    NonEmptyScriptSig { input_index: usize },
    /// An input of the embedded unsigned transaction has a non-empty witness.
    NonEmptyWitness { input_index: usize },
    /// A v2 input must name the transaction it spends from.
    MissingPreviousTxId { input_index: usize },
    /// A v2 input must name the spent output's index.
    MissingOutputIndex { input_index: usize },
    /// A v2 output must declare its amount.
    MissingAmount { output_index: usize },
    /// A v2 output's declared amount may not be negative.
    NegativeAmount { output_index: usize },
    /// A v2 output must declare its locking script.
    MissingScript { output_index: usize },
    /// Two inputs spend the same coin; the index of the later one.
    DuplicateOutPoint { input_index: usize },
    /// Records can be added only to a v2 container without an embedded
    /// transaction skeleton.
    NotModifiable,
}

/// Why two containers could not be combined.
#[derive(Clone, Copy, PartialEq, Eq, Structural, Debug)]
pub enum CombineError {
    /// The two containers describe different underlying transactions.
    TransactionMismatch,
    /// A field carries two different values for the same key or index.
    Conflict,
}

/// Why finalizing one record failed.
#[derive(Clone, Copy, PartialEq, Eq, Structural, Debug)]
pub enum FinalizeError {
    /// Fewer signatures than the threshold the input's script implies.
    InsufficientSignatures { input_index: usize },
    /// No script and no spent-coin information on the input.
    AmbiguousScript { input_index: usize },
    /// The output's declared amount or script contradicts the embedded
    /// unsigned transaction.
    OutputMismatch { output_index: usize },
}

/// Why no transaction could be extracted.
#[derive(Clone, Copy, PartialEq, Eq, Structural, Debug)]
pub enum ExtractError {
    /// The named input is the first one that is not finalized.
    NotFinalized(usize),
}

/// The PSBT container: the optional transaction skeleton, the version tag,
/// the global maps, and the index-aligned input and output records.
#[derive(Debug)]
pub struct PartiallySignedTransactionInner {
    /// The unsigned transaction; every scriptSig and witness in it is empty.
    pub unsigned_tx: Option<Transaction>,
    /// The version of this PSBT; immutable after construction.
    pub version: Version,
    /// Extended public key bytes to master fingerprint and derivation path.
    pub xpub: SourceMap,
    /// Global proprietary key-value pairs, preserved verbatim.
    pub proprietary: ByteMap,
    /// Global unknown key-value pairs, preserved verbatim.
    pub unknown: ByteMap,
    /// One record per input of the transaction.
    pub inputs: Vec<Input>,
    /// One record per output of the transaction.
    pub outputs: Vec<Output>,
}

/// The mathematical content of a PSBT container.
#[verifier::ext_equal]
pub struct PsbtView {
    pub unsigned_tx: Option<TransactionView>,
    pub version: Version,
    pub xpub: Seq<(Seq<u8>, KeySourceView)>,
    pub proprietary: Seq<(Seq<u8>, Seq<u8>)>,
    pub unknown: Seq<(Seq<u8>, Seq<u8>)>,
    pub inputs: Seq<InputView>,
    pub outputs: Seq<OutputView>,
}

impl View for PartiallySignedTransactionInner {
    type V = PsbtView;

    open spec fn view(&self) -> PsbtView {
        PsbtView {
            unsigned_tx: opt_tx_view(self.unsigned_tx),
            version: self.version,
            xpub: self.xpub@,
            proprietary: self.proprietary@,
            unknown: self.unknown@,
            inputs: Seq::new(self.inputs@.len(), |i: int| self.inputs@[i]@),
            outputs: Seq::new(self.outputs@.len(), |i: int| self.outputs@[i]@),
        }
    }
}

/// Well-formed input record content: every map has pairwise distinct keys.
pub open spec fn input_view_wf(i: InputView) -> bool {
    &&& keys_unique(i.partial_sigs)
    &&& keys_unique(i.bip32_derivation)
    &&& keys_unique(i.ripemd160_preimages)
    &&& keys_unique(i.sha256_preimages)
    &&& keys_unique(i.hash160_preimages)
    &&& keys_unique(i.hash256_preimages)
    &&& keys_unique(i.tap_script_sigs)
    &&& keys_unique(i.tap_scripts)
    &&& keys_unique(i.tap_key_origins)
    &&& keys_unique(i.proprietary)
    &&& keys_unique(i.unknown)
}

/// Well-formed output record content.
pub open spec fn output_view_wf(o: OutputView) -> bool {
    &&& keys_unique(o.bip32_derivation)
    &&& keys_unique(o.tap_key_origins)
    &&& keys_unique(o.proprietary)
    &&& keys_unique(o.unknown)
}

/// Well-formed container content: every map of the container and of its
/// records has pairwise distinct keys.
pub open spec fn psbt_view_wf(p: PsbtView) -> bool {
    &&& keys_unique(p.xpub)
    &&& keys_unique(p.proprietary)
    &&& keys_unique(p.unknown)
    &&& forall|i: int| 0 <= i < p.inputs.len() ==> input_view_wf(#[trigger] p.inputs[i])
    &&& forall|o: int| 0 <= o < p.outputs.len() ==> output_view_wf(#[trigger] p.outputs[o])
}

/// The coin a v2 input record names, with empty defaults where a field is
/// absent.
pub open spec fn input_outpoint(v: InputView) -> (Seq<u8>, u32) {
    (
        match v.previous_tx_id {
            Some(t) => t,
            None => Seq::empty(),
        },
        match v.output_index {
            Some(x) => x,
            None => 0,
        },
    )
}

/// The coin the input at position `i` spends: under v0 read from the
/// unsigned transaction, under v2 from the input record's own fields.
pub open spec fn outpoint_of(p: PsbtView, i: int) -> (Seq<u8>, u32) {
    if p.version == Version::V0 {
        match p.unsigned_tx {
            Some(tx) => (tx.inputs[i].previous_txid, tx.inputs[i].vout),
            None => (Seq::empty(), 0),
        }
    } else {
        input_outpoint(p.inputs[i])
    }
}

/// When a transaction skeleton is embedded, the records are index-aligned
/// with it and it carries no signature material of its own.
pub open spec fn tx_aligned(p: PsbtView) -> bool {
    match p.unsigned_tx {
        Some(tx) => {
            &&& tx.inputs.len() == p.inputs.len()
            &&& tx.outputs.len() == p.outputs.len()
            &&& forall|i: int| 0 <= i < tx.inputs.len()
                ==> (#[trigger] tx.inputs[i]).script_sig.len() == 0
                    && tx.inputs[i].witness.len() == 0
        }
        None => true,
    }
}

/// The v0 rules: the unsigned transaction is present and no input carries
/// the v2 coin reference.
pub open spec fn v0_valid(p: PsbtView) -> bool {
    &&& p.unsigned_tx is Some
    &&& forall|i: int| 0 <= i < p.inputs.len()
        ==> (#[trigger] p.inputs[i]).previous_tx_id is None && p.inputs[i].output_index is None
}

/// The v2 rules: every input names the coin it spends, and every output
/// declares a non-negative amount and a script.
pub open spec fn v2_valid(p: PsbtView) -> bool {
    &&& forall|i: int| 0 <= i < p.inputs.len()
        ==> (#[trigger] p.inputs[i]).previous_tx_id is Some && p.inputs[i].output_index is Some
    &&& forall|o: int| 0 <= o < p.outputs.len()
        ==> (#[trigger] p.outputs[o]).amount is Some
            && p.outputs[o].amount->Some_0 >= 0
            && p.outputs[o].script is Some
}

/// No two inputs spend the same coin.
pub open spec fn outpoints_distinct(p: PsbtView) -> bool {
    forall|i: int, j: int| 0 <= i < j < p.inputs.len()
        ==> #[trigger] outpoint_of(p, i) != #[trigger] outpoint_of(p, j)
}

/// The validation predicate: what `validate` checks.
pub open spec fn valid_psbt(p: PsbtView) -> bool {
    &&& tx_aligned(p)
    &&& (p.version == Version::V0 ==> v0_valid(p))
    &&& (p.version == Version::V2 ==> v2_valid(p))
    &&& outpoints_distinct(p)
}

/// What each validation error asserts of the container it was reported for.
pub open spec fn validation_error_holds(p: PsbtView, e: ValidationError) -> bool {
    match e {
        ValidationError::MissingUnsignedTx => p.version == Version::V0 && p.unsigned_tx is None,
        ValidationError::ForbiddenV2Field { input_index } => {
            &&& p.version == Version::V0
            &&& input_index < p.inputs.len()
            &&& (p.inputs[input_index as int].previous_tx_id is Some
                || p.inputs[input_index as int].output_index is Some)
        }
        ValidationError::InputCountMismatch => match p.unsigned_tx {
            Some(tx) => tx.inputs.len() != p.inputs.len(),
            None => false,
        },
        ValidationError::OutputCountMismatch => match p.unsigned_tx {
            Some(tx) => tx.outputs.len() != p.outputs.len(),
            None => false,
        },
        ValidationError::NonEmptyScriptSig { input_index } => match p.unsigned_tx {
            Some(tx) => input_index < tx.inputs.len()
                && tx.inputs[input_index as int].script_sig.len() > 0,
            None => false,
        },
        ValidationError::NonEmptyWitness { input_index } => match p.unsigned_tx {
            Some(tx) => input_index < tx.inputs.len()
                && tx.inputs[input_index as int].witness.len() > 0,
            None => false,
        },
        ValidationError::MissingPreviousTxId { input_index } => {
            &&& p.version == Version::V2
            &&& input_index < p.inputs.len()
            &&& p.inputs[input_index as int].previous_tx_id is None
        }
        ValidationError::MissingOutputIndex { input_index } => {
            &&& p.version == Version::V2
            &&& input_index < p.inputs.len()
            &&& p.inputs[input_index as int].output_index is None
        }
        ValidationError::MissingAmount { output_index } => {
            &&& p.version == Version::V2
            &&& output_index < p.outputs.len()
            &&& p.outputs[output_index as int].amount is None
        }
        ValidationError::NegativeAmount { output_index } => {
            &&& p.version == Version::V2
            &&& output_index < p.outputs.len()
            &&& p.outputs[output_index as int].amount is Some
            &&& p.outputs[output_index as int].amount->Some_0 < 0
        }
        ValidationError::MissingScript { output_index } => {
            &&& p.version == Version::V2
            &&& output_index < p.outputs.len()
            &&& p.outputs[output_index as int].script is None
        }
        ValidationError::DuplicateOutPoint { input_index } => {
            &&& input_index < p.inputs.len()
            &&& exists|i: int| 0 <= i < input_index
                && #[trigger] outpoint_of(p, i) == outpoint_of(p, input_index as int)
        }
        ValidationError::NotModifiable => false,
    }
}

impl PartiallySignedTransactionInner {
    /// Well-formed: every map of the container and of its records has
    /// pairwise distinct keys.
    pub open spec fn wf(&self) -> bool {
        psbt_view_wf(self@)
    }

    /// An empty container of the given version: no transaction skeleton, no
    /// records.
    pub fn new(version: Version) -> (r: PartiallySignedTransactionInner)
        ensures
            r@ == (PsbtView {
                unsigned_tx: None,
                version,
                xpub: Seq::empty(),
                proprietary: Seq::empty(),
                unknown: Seq::empty(),
                inputs: Seq::empty(),
                outputs: Seq::empty(),
            }),
            r.wf(),
    {
        let r = PartiallySignedTransactionInner {
            unsigned_tx: None,
            version,
            xpub: SourceMap::new(),
            proprietary: ByteMap::new(),
            unknown: ByteMap::new(),
            inputs: Vec::new(),
            outputs: Vec::new(),
        };
        proof {
            assert(r@ =~= (PsbtView {
                unsigned_tx: None,
                version,
                xpub: Seq::empty(),
                proprietary: Seq::empty(),
                unknown: Seq::empty(),
                inputs: Seq::empty(),
                outputs: Seq::empty(),
            }));
        }
        r
    }
}

/// The coin reference of the input at position `i`, as `outpoint_of` reads
/// it, with empty defaults where a field is absent.
fn outpoint_at(psbt: &PartiallySignedTransactionInner, i: usize) -> (r: (Vec<u8>, u32))
    requires
        i < psbt@.inputs.len(),
        psbt@.version == Version::V0 && psbt@.unsigned_tx is Some
            ==> psbt@.unsigned_tx->Some_0.inputs.len() == psbt@.inputs.len(),
    ensures
        (r.0@, r.1) == outpoint_of(psbt@, i as int),
{
    match psbt.version {
        Version::V0 => {
            match &psbt.unsigned_tx {
                Some(tx) => (clone_bytes(&tx.inputs[i].previous_txid), tx.inputs[i].vout),
                None => (Vec::new(), 0),
            }
        }
        Version::V2 => {
            let txid = match &psbt.inputs[i].previous_tx_id {
                Some(t) => clone_bytes(&t.0),
                None => Vec::new(),
            };
            let vout = match &psbt.inputs[i].output_index {
                Some(x) => *x,
                None => 0,
            };
            (txid, vout)
        }
    }
}

/// The validation engine: decides whether the container's field combination
/// is legal for its declared version, and reports the first broken rule with
/// the index it was broken at. Pure: the container is only read.
pub fn validate_psbt_inner(psbt: &PartiallySignedTransactionInner) -> (r: Result<
    (),
    ValidationError,
>)
    ensures
        r is Ok <==> valid_psbt(psbt@),
        r matches Err(e) ==> validation_error_holds(psbt@, e),
{
    match psbt.version {
        Version::V0 => {
            if psbt.unsigned_tx.is_none() {
                return Err(ValidationError::MissingUnsignedTx);
            }
        }
        Version::V2 => {}
    }
    match &psbt.unsigned_tx {
        Some(tx) => {
            if tx.inputs.len() != psbt.inputs.len() {
                return Err(ValidationError::InputCountMismatch);
            }
            if tx.outputs.len() != psbt.outputs.len() {
                return Err(ValidationError::OutputCountMismatch);
            }
            let mut i: usize = 0;
            while i < tx.inputs.len()
                invariant
                    i <= tx@.inputs.len(),
                    psbt@.unsigned_tx == Some(tx@),
                    forall|j: int| 0 <= j < i
                        ==> (#[trigger] tx@.inputs[j]).script_sig.len() == 0
                            && tx@.inputs[j].witness.len() == 0,
                decreases tx@.inputs.len() - i,
            {
                proof {
                    assert(tx@.inputs[i as int] == tx.inputs@[i as int]@);
                }
                if tx.inputs[i].script_sig.len() > 0 {
                    proof {
                        assert(tx@.inputs[i as int].script_sig.len() > 0);
                        assert(!tx_aligned(psbt@));
                    }
                    return Err(ValidationError::NonEmptyScriptSig { input_index: i });
                }
                if tx.inputs[i].witness.len() > 0 {
                    proof {
                        assert(tx@.inputs[i as int].witness.len() > 0);
                        assert(!tx_aligned(psbt@));
                    }
                    return Err(ValidationError::NonEmptyWitness { input_index: i });
                }
                proof {
                    assert(tx@.inputs[i as int].script_sig.len() == 0);
                    assert(tx@.inputs[i as int].witness.len() == 0);
                }
                i = i + 1;
            }
        }
        None => {}
    }
    match psbt.version {
        Version::V0 => {
            let mut i: usize = 0;
            while i < psbt.inputs.len()
                invariant
                    i <= psbt@.inputs.len(),
                    psbt@.inputs.len() == psbt.inputs@.len(),
                    psbt@.version == Version::V0,
                    forall|j: int| 0 <= j < i
                        ==> (#[trigger] psbt@.inputs[j]).previous_tx_id is None
                            && psbt@.inputs[j].output_index is None,
                decreases psbt@.inputs.len() - i,
            {
                if psbt.inputs[i].previous_tx_id.is_some()
                    || psbt.inputs[i].output_index.is_some() {
                    proof {
                        assert(psbt@.inputs[i as int] == psbt.inputs@[i as int]@);
                        assert(!v0_valid(psbt@));
                    }
                    return Err(ValidationError::ForbiddenV2Field { input_index: i });
                }
                proof {
                    assert(psbt@.inputs[i as int] == psbt.inputs@[i as int]@);
                }
                i = i + 1;
            }
        }
        Version::V2 => {
            let mut i: usize = 0;
            while i < psbt.inputs.len()
                invariant
                    i <= psbt@.inputs.len(),
                    psbt@.inputs.len() == psbt.inputs@.len(),
                    psbt@.version == Version::V2,
                    forall|j: int| 0 <= j < i
                        ==> (#[trigger] psbt@.inputs[j]).previous_tx_id is Some
                            && psbt@.inputs[j].output_index is Some,
                decreases psbt@.inputs.len() - i,
            {
                proof {
                    assert(psbt@.inputs[i as int] == psbt.inputs@[i as int]@);
                }
                if psbt.inputs[i].previous_tx_id.is_none() {
                    proof {
                        assert(!v2_valid(psbt@));
                    }
                    return Err(ValidationError::MissingPreviousTxId { input_index: i });
                }
                if psbt.inputs[i].output_index.is_none() {
                    proof {
                        assert(!v2_valid(psbt@));
                    }
                    return Err(ValidationError::MissingOutputIndex { input_index: i });
                }
                i = i + 1;
            }
            let mut o: usize = 0;
            while o < psbt.outputs.len()
                invariant
                    o <= psbt@.outputs.len(),
                    psbt@.outputs.len() == psbt.outputs@.len(),
                    psbt@.version == Version::V2,
                    forall|j: int| 0 <= j < o
                        ==> (#[trigger] psbt@.outputs[j]).amount is Some
                            && psbt@.outputs[j].amount->Some_0 >= 0
                            && psbt@.outputs[j].script is Some,
                decreases psbt@.outputs.len() - o,
            {
                proof {
                    assert(psbt@.outputs[o as int] == psbt.outputs@[o as int]@);
                }
                match &psbt.outputs[o].amount {
                    None => {
                        proof {
                            assert(!v2_valid(psbt@));
                        }
                        return Err(ValidationError::MissingAmount { output_index: o });
                    }
                    Some(a) => {
                        if *a < 0 {
                            proof {
                                assert(!v2_valid(psbt@));
                            }
                            return Err(ValidationError::NegativeAmount { output_index: o });
                        }
                    }
                }
                if psbt.outputs[o].script.is_none() {
                    proof {
                        assert(!v2_valid(psbt@));
                    }
                    return Err(ValidationError::MissingScript { output_index: o });
                }
                o = o + 1;
            }
        }
    }
    let mut j: usize = 1;
    while j < psbt.inputs.len()
        invariant
            psbt@.inputs.len() == psbt.inputs@.len(),
            1 <= j,
            psbt.inputs@.len() > 0 ==> j <= psbt@.inputs.len(),
            psbt@.version == Version::V0 && psbt@.unsigned_tx is Some
                ==> psbt@.unsigned_tx->Some_0.inputs.len() == psbt@.inputs.len(),
            forall|x: int, y: int| 0 <= x < y < j && y < psbt@.inputs.len()
                ==> #[trigger] outpoint_of(psbt@, x) != #[trigger] outpoint_of(psbt@, y),
        decreases psbt@.inputs.len() - j,
    {
        let pj = outpoint_at(psbt, j);
        let mut i: usize = 0;
        while i < j
            invariant
                i <= j,
                j < psbt@.inputs.len(),
                psbt@.inputs.len() == psbt.inputs@.len(),
                psbt@.version == Version::V0 && psbt@.unsigned_tx is Some
                    ==> psbt@.unsigned_tx->Some_0.inputs.len() == psbt@.inputs.len(),
                (pj.0@, pj.1) == outpoint_of(psbt@, j as int),
                forall|x: int| 0 <= x < i
                    ==> #[trigger] outpoint_of(psbt@, x) != outpoint_of(psbt@, j as int),
            decreases j - i,
        {
            let pi = outpoint_at(psbt, i);
            if bytes_eq(&pi.0, &pj.0) && pi.1 == pj.1 {
                proof {
                    assert(outpoint_of(psbt@, i as int) == outpoint_of(psbt@, j as int));
                }
                return Err(ValidationError::DuplicateOutPoint { input_index: j });
            }
            i = i + 1;
        }
        j = j + 1;
    }
    proof {
        if psbt@.version == Version::V0 {
            assert(v0_valid(psbt@));
        }
        assert(valid_psbt(psbt@));
    }
    Ok(())
}

/// The marker of a validation state: checked or unchecked.
pub trait PsbtValidation {
    /// Whether this marker stands for the checked state.
    spec fn is_validated() -> bool;
}

/// Marker of a container that passed validation.
pub enum PsbtChecked {
    /// The sole, never-constructed witness of the checked state.
    Checked,
}

/// Marker of a container with no guarantees yet.
pub enum PsbtUnchecked {
    /// The sole, never-constructed witness of the unchecked state.
    Unchecked,
}

impl PsbtValidation for PsbtChecked {
    open spec fn is_validated() -> bool {
        true
    }
}

impl PsbtValidation for PsbtUnchecked {
    open spec fn is_validated() -> bool {
        false
    }
}

/// A PSBT container behind a validation-state marker. The unchecked state
/// exposes only `validate`; every operation that presumes a structurally
/// valid container lives on the checked state alone, so calling one on
/// unchecked data does not compile.
#[derive(Debug)]
pub struct PartiallySignedTransaction<V: PsbtValidation> {
    inner: PartiallySignedTransactionInner,
    marker: PhantomData<V>,
}

/// A checked PSBT.
pub type Psbt = PartiallySignedTransaction<PsbtChecked>;

impl<V: PsbtValidation> View for PartiallySignedTransaction<V> {
    type V = PsbtView;

    closed spec fn view(&self) -> PsbtView {
        self.inner@
    }
}

impl<V: PsbtValidation> PartiallySignedTransaction<V> {
    /// Well-formed: the underlying container is.
    pub closed spec fn wf(&self) -> bool {
        self.inner.wf()
    }

    /// A checked wrapper's guarantee: well-formed and structurally valid.
    pub open spec fn valid(&self) -> bool {
        self.wf() && valid_psbt(self@)
    }

    /// Read-only access to the underlying container.
    pub fn container(&self) -> (r: &PartiallySignedTransactionInner)
        ensures
            r@ == self@,
            r.wf() == self.wf(),
    {
        &self.inner
    }
}

impl PartiallySignedTransaction<PsbtUnchecked> {
    /// Wraps a freshly constructed or deserialized container; nothing is
    /// guaranteed of it yet.
    pub fn new(inner: PartiallySignedTransactionInner) -> (r: Self)
        ensures
            r@ == inner@,
            r.wf() == inner.wf(),
    {
        PartiallySignedTransaction { inner, marker: PhantomData }
    }

    /// Validates the container. Consumes this unchecked value; on success the
    /// same container returns behind the checked marker, on failure it is
    /// discarded and the caller must re-parse.
    pub fn validate(self) -> (r: Result<PartiallySignedTransaction<PsbtChecked>, ValidationError>)
        requires
            self.wf(),
        ensures
            match r {
                Ok(c) => c@ == self@ && c.valid(),
                Err(e) => !valid_psbt(self@) && validation_error_holds(self@, e),
            },
    {
        match validate_psbt_inner(&self.inner) {
            Ok(()) => Ok(PartiallySignedTransaction { inner: self.inner, marker: PhantomData }),
            Err(e) => Err(e),
        }
    }
}

impl PartiallySignedTransaction<PsbtChecked> {
    /// Validates a bare container and wraps it as checked.
    pub fn from_inner(psbt: PartiallySignedTransactionInner) -> (r: Result<Self, ValidationError>)
        requires
            psbt.wf(),
        ensures
            match r {
                Ok(c) => c@ == psbt@ && c.valid(),
                Err(e) => !valid_psbt(psbt@) && validation_error_holds(psbt@, e),
            },
    {
        match validate_psbt_inner(&psbt) {
            Ok(()) => Ok(PartiallySignedTransaction { inner: psbt, marker: PhantomData }),
            Err(e) => Err(e),
        }
    }

    /// Unwraps the container, ending the checked lifecycle.
    pub fn to_inner(self) -> (r: PartiallySignedTransactionInner)
        ensures
            r@ == self@,
            r.wf() == self.wf(),
    {
        self.inner
    }
}

/// Whether two containers describe the same underlying transaction: the same
/// version and record counts, and — under v0 — the same unsigned transaction,
/// or — under v2 — the same spent coins in the same order.
pub open spec fn same_transaction(a: PsbtView, b: PsbtView) -> bool {
    &&& a.version == b.version
    &&& a.inputs.len() == b.inputs.len()
    &&& a.outputs.len() == b.outputs.len()
    &&& (a.version == Version::V0 ==> a.unsigned_tx == b.unsigned_tx)
    &&& (a.version == Version::V2 ==> forall|i: int| 0 <= i < a.inputs.len()
        ==> #[trigger] outpoint_of(a, i) == outpoint_of(b, i))
}

/// Whether no field of the two containers carries two different values.
pub open spec fn psbt_compatible(a: PsbtView, b: PsbtView) -> bool {
    &&& opt_compatible(a.unsigned_tx, b.unsigned_tx)
    &&& maps_compatible(map_of(a.xpub), map_of(b.xpub))
    &&& maps_compatible(map_of(a.proprietary), map_of(b.proprietary))
    &&& maps_compatible(map_of(a.unknown), map_of(b.unknown))
    &&& forall|i: int| 0 <= i < a.inputs.len()
        ==> input_compatible(#[trigger] a.inputs[i], b.inputs[i])
    &&& forall|o: int| 0 <= o < a.outputs.len()
        ==> output_compatible(#[trigger] a.outputs[o], b.outputs[o])
}

/// The field-by-field union of two compatible containers for the same
/// transaction.
pub open spec fn psbt_merge(a: PsbtView, b: PsbtView) -> PsbtView {
    PsbtView {
        unsigned_tx: opt_merge(a.unsigned_tx, b.unsigned_tx),
        version: a.version,
        xpub: merge_seq(a.xpub, b.xpub),
        proprietary: merge_seq(a.proprietary, b.proprietary),
        unknown: merge_seq(a.unknown, b.unknown),
        inputs: Seq::new(a.inputs.len(), |i: int| input_merge(a.inputs[i], b.inputs[i])),
        outputs: Seq::new(a.outputs.len(), |o: int| output_merge(a.outputs[o], b.outputs[o])),
    }
}

/// What combining two containers yields: a mismatch of the underlying
/// transaction, a field conflict, or the union.
pub open spec fn combine_spec(a: PsbtView, b: PsbtView) -> Result<PsbtView, CombineError> {
    if !same_transaction(a, b) {
        Err(CombineError::TransactionMismatch)
    } else if !psbt_compatible(a, b) {
        Err(CombineError::Conflict)
    } else {
        Ok(psbt_merge(a, b))
    }
}

/// The union of two valid, compatible containers for the same transaction is
/// again well-formed and valid.
pub proof fn lemma_merge_preserves_valid(a: PsbtView, b: PsbtView)
    requires
        psbt_view_wf(a),
        psbt_view_wf(b),
        valid_psbt(a),
        valid_psbt(b),
        same_transaction(a, b),
        psbt_compatible(a, b),
    ensures
        valid_psbt(psbt_merge(a, b)),
        psbt_view_wf(psbt_merge(a, b)),
{
    let m = psbt_merge(a, b);
    crate::kvmap::lemma_merge_seq_map(a.xpub, b.xpub);
    crate::kvmap::lemma_merge_seq_map(a.proprietary, b.proprietary);
    crate::kvmap::lemma_merge_seq_map(a.unknown, b.unknown);
    assert forall|i: int| 0 <= i < m.inputs.len() implies input_view_wf(#[trigger] m.inputs[i]) by {
        assert(input_compatible(a.inputs[i], b.inputs[i]));
        assert(input_view_wf(a.inputs[i]));
        assert(input_view_wf(b.inputs[i]));
        crate::kvmap::lemma_merge_seq_map(a.inputs[i].partial_sigs, b.inputs[i].partial_sigs);
        crate::kvmap::lemma_merge_seq_map(a.inputs[i].bip32_derivation, b.inputs[i].bip32_derivation);
        crate::kvmap::lemma_merge_seq_map(
            a.inputs[i].ripemd160_preimages,
            b.inputs[i].ripemd160_preimages,
        );
        crate::kvmap::lemma_merge_seq_map(a.inputs[i].sha256_preimages, b.inputs[i].sha256_preimages);
        crate::kvmap::lemma_merge_seq_map(
            a.inputs[i].hash160_preimages,
            b.inputs[i].hash160_preimages,
        );
        crate::kvmap::lemma_merge_seq_map(
            a.inputs[i].hash256_preimages,
            b.inputs[i].hash256_preimages,
        );
        crate::kvmap::lemma_merge_seq_map(a.inputs[i].tap_script_sigs, b.inputs[i].tap_script_sigs);
        crate::kvmap::lemma_merge_seq_map(a.inputs[i].tap_scripts, b.inputs[i].tap_scripts);
        crate::kvmap::lemma_merge_seq_map(a.inputs[i].tap_key_origins, b.inputs[i].tap_key_origins);
        crate::kvmap::lemma_merge_seq_map(a.inputs[i].proprietary, b.inputs[i].proprietary);
        crate::kvmap::lemma_merge_seq_map(a.inputs[i].unknown, b.inputs[i].unknown);
        assert(m.inputs[i] == input_merge(a.inputs[i], b.inputs[i]));
    }
    assert forall|o: int| 0 <= o < m.outputs.len() implies output_view_wf(#[trigger] m.outputs[o]) by {
        assert(output_compatible(a.outputs[o], b.outputs[o]));
        assert(output_view_wf(a.outputs[o]));
        assert(output_view_wf(b.outputs[o]));
        crate::kvmap::lemma_merge_seq_map(
            a.outputs[o].bip32_derivation,
            b.outputs[o].bip32_derivation,
        );
        crate::kvmap::lemma_merge_seq_map(a.outputs[o].tap_key_origins, b.outputs[o].tap_key_origins);
        crate::kvmap::lemma_merge_seq_map(a.outputs[o].proprietary, b.outputs[o].proprietary);
        crate::kvmap::lemma_merge_seq_map(a.outputs[o].unknown, b.outputs[o].unknown);
        assert(m.outputs[o] == output_merge(a.outputs[o], b.outputs[o]));
    }
    assert(psbt_view_wf(m));
    // Alignment with whichever skeleton the union carries.
    assert(m.inputs.len() == a.inputs.len());
    assert(m.outputs.len() == a.outputs.len());
    match a.unsigned_tx {
        Some(tx) => {
            assert(m.unsigned_tx == Some(tx));
            assert(tx_aligned(m));
        }
        None => {
            match b.unsigned_tx {
                Some(txb) => {
                    assert(m.unsigned_tx == Some(txb));
                    assert(tx_aligned(b));
                    assert(tx_aligned(m));
                }
                None => {
                    assert(m.unsigned_tx is None);
                }
            }
        }
    }
    // The version rules.
    if a.version == Version::V0 {
        assert forall|i: int| 0 <= i < m.inputs.len() implies (#[trigger] m.inputs[i]).previous_tx_id
            is None && m.inputs[i].output_index is None by {
            assert(m.inputs[i] == input_merge(a.inputs[i], b.inputs[i]));
            assert(a.inputs[i].previous_tx_id is None);
            assert(b.inputs[i].previous_tx_id is None);
            assert(a.inputs[i].output_index is None);
            assert(b.inputs[i].output_index is None);
        }
        assert(v0_valid(m));
    }
    if a.version == Version::V2 {
        assert forall|i: int| 0 <= i < m.inputs.len() implies (#[trigger] m.inputs[i]).previous_tx_id
            is Some && m.inputs[i].output_index is Some by {
            assert(m.inputs[i] == input_merge(a.inputs[i], b.inputs[i]));
            assert(a.inputs[i].previous_tx_id is Some);
            assert(a.inputs[i].output_index is Some);
        }
        assert forall|o: int| 0 <= o < m.outputs.len() implies (#[trigger] m.outputs[o]).amount
            is Some && m.outputs[o].amount->Some_0 >= 0 && m.outputs[o].script is Some by {
            assert(m.outputs[o] == output_merge(a.outputs[o], b.outputs[o]));
            assert(a.outputs[o].amount is Some && a.outputs[o].amount->Some_0 >= 0);
            assert(a.outputs[o].script is Some);
        }
        assert(v2_valid(m));
    }
    // The union spends exactly the coins `a` spends.
    assert forall|i: int| 0 <= i < m.inputs.len() implies #[trigger] outpoint_of(m, i)
        == outpoint_of(a, i) by {
        if m.version == Version::V0 {
            assert(a.unsigned_tx is Some);
            assert(m.unsigned_tx == a.unsigned_tx);
        } else {
            assert(m.inputs[i] == input_merge(a.inputs[i], b.inputs[i]));
            assert(a.inputs[i].previous_tx_id is Some);
            assert(m.inputs[i].previous_tx_id == a.inputs[i].previous_tx_id);
            assert(m.inputs[i].output_index == a.inputs[i].output_index);
        }
    }
    assert forall|i: int, j: int| 0 <= i < j < m.inputs.len() implies #[trigger] outpoint_of(m, i)
        != #[trigger] outpoint_of(m, j) by {
        assert(outpoint_of(a, i) != outpoint_of(a, j));
    }
    assert(valid_psbt(m));
}

/// The container after the input at position `i` is replaced.
pub open spec fn with_input(p: PsbtView, i: int, v: InputView) -> PsbtView {
    PsbtView {
        unsigned_tx: p.unsigned_tx,
        version: p.version,
        xpub: p.xpub,
        proprietary: p.proprietary,
        unknown: p.unknown,
        inputs: p.inputs.update(i, v),
        outputs: p.outputs,
    }
}

/// A finalized record keeps its coin reference and its key uniqueness.
pub proof fn lemma_finalize_fields(x: InputView, f: InputView)
    requires
        crate::input::finalize_spec(x) == crate::input::FinalizeOutcome::Done(f),
        input_view_wf(x),
    ensures
        f.previous_tx_id == x.previous_tx_id,
        f.output_index == x.output_index,
        input_view_wf(f),
        is_finalized_view(f),
{
    if is_finalized_view(x) {
        assert(f == x);
    } else {
        assert(keys_unique(Seq::<(Seq<u8>, Seq<u8>)>::empty()));
        assert(keys_unique(Seq::<(Seq<u8>, KeySourceView)>::empty()));
    }
}

/// Replacing an input with its finalized form keeps the container valid.
pub proof fn lemma_finalize_preserves_valid(p: PsbtView, i: int, f: InputView)
    requires
        psbt_view_wf(p),
        valid_psbt(p),
        0 <= i < p.inputs.len(),
        crate::input::finalize_spec(p.inputs[i]) == crate::input::FinalizeOutcome::Done(f),
    ensures
        psbt_view_wf(with_input(p, i, f)),
        valid_psbt(with_input(p, i, f)),
{
    let m = with_input(p, i, f);
    lemma_finalize_fields(p.inputs[i], f);
    assert forall|j: int| 0 <= j < m.inputs.len() implies input_view_wf(#[trigger] m.inputs[j]) by {
        if j != i {
            assert(m.inputs[j] == p.inputs[j]);
        }
    }
    assert(psbt_view_wf(m));
    assert(tx_aligned(m));
    if p.version == Version::V0 {
        assert forall|j: int| 0 <= j < m.inputs.len() implies (#[trigger] m.inputs[j]).previous_tx_id
            is None && m.inputs[j].output_index is None by {
            if j != i {
                assert(m.inputs[j] == p.inputs[j]);
            }
        }
        assert(v0_valid(m));
    }
    if p.version == Version::V2 {
        assert forall|j: int| 0 <= j < m.inputs.len() implies (#[trigger] m.inputs[j]).previous_tx_id
            is Some && m.inputs[j].output_index is Some by {
            if j != i {
                assert(m.inputs[j] == p.inputs[j]);
            }
        }
        assert(v2_valid(m));
    }
    assert forall|j: int| 0 <= j < m.inputs.len() implies #[trigger] outpoint_of(m, j)
        == outpoint_of(p, j) by {
        if m.version != Version::V0 && j != i {
            assert(m.inputs[j] == p.inputs[j]);
        }
    }
    assert forall|x2: int, y2: int| 0 <= x2 < y2 < m.inputs.len() implies #[trigger] outpoint_of(
        m,
        x2,
    ) != #[trigger] outpoint_of(m, y2) by {
        assert(outpoint_of(p, x2) != outpoint_of(p, y2));
    }
    assert(valid_psbt(m));
}

/// Whether a record may be appended to this container as a new input.
pub open spec fn addable_input(p: PsbtView, v: InputView) -> bool {
    &&& p.version == Version::V2
    &&& p.unsigned_tx is None
    &&& v.previous_tx_id is Some
    &&& v.output_index is Some
    &&& forall|i: int| 0 <= i < p.inputs.len()
        ==> #[trigger] outpoint_of(p, i) != input_outpoint(v)
}

/// Whether a record may be appended to this container as a new output.
pub open spec fn addable_output(p: PsbtView, v: OutputView) -> bool {
    &&& p.version == Version::V2
    &&& p.unsigned_tx is None
    &&& v.amount is Some
    &&& v.amount->Some_0 >= 0
    &&& v.script is Some
}

/// The largest required locktime floor any input declares; zero when none.
pub open spec fn locktime_floor(inputs: Seq<InputView>) -> u32
    decreases inputs.len(),
{
    if inputs.len() == 0 {
        0u32
    } else {
        let rest = locktime_floor(inputs.drop_last());
        let t = match inputs.last().required_time_locktime {
            Some(x) => x,
            None => 0u32,
        };
        let h = match inputs.last().required_height_locktime {
            Some(x) => x,
            None => 0u32,
        };
        let cur = if t > h {
            t
        } else {
            h
        };
        if cur > rest {
            cur
        } else {
            rest
        }
    }
}

/// The extracted form of the input at position `i`: the skeleton's coin
/// reference and sequence (or, without a skeleton, the v2 fields with the
/// default sequence), with the final scripts substituted in.
pub open spec fn extracted_input(p: PsbtView, i: int) -> crate::transaction::TxInView {
    let fss = match p.inputs[i].final_script_sig {
        Some(s) => s,
        None => Seq::empty(),
    };
    let fsw = match p.inputs[i].final_script_witness {
        Some(w) => w,
        None => Seq::empty(),
    };
    match p.unsigned_tx {
        Some(tx) => crate::transaction::TxInView {
            previous_txid: tx.inputs[i].previous_txid,
            vout: tx.inputs[i].vout,
            script_sig: fss,
            sequence: tx.inputs[i].sequence,
            witness: fsw,
        },
        None => crate::transaction::TxInView {
            previous_txid: input_outpoint(p.inputs[i]).0,
            vout: input_outpoint(p.inputs[i]).1,
            script_sig: fss,
            sequence: match p.inputs[i].sequence {
                Some(s) => s,
                None => 0xffffffffu32,
            },
            witness: fsw,
        },
    }
}

/// The extracted form of the output at position `o`: the skeleton's output,
/// or the v2 declared amount and script.
pub open spec fn extracted_output(p: PsbtView, o: int) -> crate::transaction::TxOutView {
    match p.unsigned_tx {
        Some(tx) => tx.outputs[o],
        None => crate::transaction::TxOutView {
            value: match p.outputs[o].amount {
                Some(a) => a as u64,
                None => 0u64,
            },
            script: match p.outputs[o].script {
                Some(s) => s,
                None => Seq::empty(),
            },
        },
    }
}

/// The transaction a fully finalized container extracts to.
pub open spec fn extract_spec(p: PsbtView) -> TransactionView {
    TransactionView {
        version: match p.unsigned_tx {
            Some(tx) => tx.version,
            None => 2u32,
        },
        lock_time: match p.unsigned_tx {
            Some(tx) => tx.lock_time,
            None => locktime_floor(p.inputs),
        },
        inputs: Seq::new(p.inputs.len(), |i: int| extracted_input(p, i)),
        outputs: Seq::new(p.outputs.len(), |o: int| extracted_output(p, o)),
    }
}

impl PartiallySignedTransaction<PsbtChecked> {
    /// Merges this container with an independently updated or signed copy of
    /// the same transaction. Both sides are consumed; the union is a new
    /// checked value, exactly as `combine_spec` describes it.
    pub fn combine(self, other: Self) -> (r: Result<Self, CombineError>)
        requires
            self.valid(),
            other.valid(),
        ensures
            match r {
                Ok(c) => combine_spec(self@, other@) == Ok::<PsbtView, CombineError>(c@)
                    && c.valid(),
                Err(e) => combine_spec(self@, other@) == Err::<PsbtView, CombineError>(e),
            },
    {
        let ghost av = self@;
        let ghost bv = other@;
        if self.inner.inputs.len() != other.inner.inputs.len() {
            return Err(CombineError::TransactionMismatch);
        }
        if self.inner.outputs.len() != other.inner.outputs.len() {
            return Err(CombineError::TransactionMismatch);
        }
        match (self.inner.version, other.inner.version) {
            (Version::V0, Version::V0) => {
                if !opt_tx_eq(&self.inner.unsigned_tx, &other.inner.unsigned_tx) {
                    return Err(CombineError::TransactionMismatch);
                }
            }
            (Version::V2, Version::V2) => {
                let mut i: usize = 0;
                while i < self.inner.inputs.len()
                    invariant
                        i <= av.inputs.len(),
                        av == self@,
                        bv == other@,
                        av.inputs.len() == self.inner.inputs@.len(),
                        av.inputs.len() == bv.inputs.len(),
                        av.version == Version::V2,
                        bv.version == Version::V2,
                        forall|j: int| 0 <= j < i
                            ==> #[trigger] outpoint_of(av, j) == outpoint_of(bv, j),
                    decreases av.inputs.len() - i,
                {
                    let pa = outpoint_at(&self.inner, i);
                    let pb = outpoint_at(&other.inner, i);
                    if !(bytes_eq(&pa.0, &pb.0) && pa.1 == pb.1) {
                        proof {
                            assert(outpoint_of(av, i as int) != outpoint_of(bv, i as int));
                        }
                        return Err(CombineError::TransactionMismatch);
                    }
                    i = i + 1;
                }
            }
            _ => {
                return Err(CombineError::TransactionMismatch);
            }
        }
        proof {
            assert(same_transaction(av, bv));
        }
        let unsigned_tx = match merge_opt_tx(&self.inner.unsigned_tx, &other.inner.unsigned_tx) {
            Ok(t) => t,
            Err(()) => {
                return Err(CombineError::Conflict);
            }
        };
        let xpub = match self.inner.xpub.merge(&other.inner.xpub) {
            Ok(m) => m,
            Err(()) => {
                return Err(CombineError::Conflict);
            }
        };
        let proprietary = match self.inner.proprietary.merge(&other.inner.proprietary) {
            Ok(m) => m,
            Err(()) => {
                return Err(CombineError::Conflict);
            }
        };
        let unknown = match self.inner.unknown.merge(&other.inner.unknown) {
            Ok(m) => m,
            Err(()) => {
                return Err(CombineError::Conflict);
            }
        };
        let mut inputs: Vec<Input> = Vec::new();
        let mut i: usize = 0;
        while i < self.inner.inputs.len()
            invariant
                i <= av.inputs.len(),
                av == self@,
                bv == other@,
                self.valid(),
                other.valid(),
                same_transaction(av, bv),
                av.inputs.len() == self.inner.inputs@.len(),
                av.inputs.len() == bv.inputs.len(),
                bv.inputs.len() == other.inner.inputs@.len(),
                inputs@.len() == i,
                forall|j: int| 0 <= j < i
                    ==> input_compatible(#[trigger] av.inputs[j], bv.inputs[j]),
                forall|j: int| 0 <= j < i
                    ==> (#[trigger] inputs@[j])@ == input_merge(av.inputs[j], bv.inputs[j])
                        && inputs@[j].wf(),
            decreases av.inputs.len() - i,
        {
            proof {
                assert(av.inputs[i as int] == self.inner.inputs@[i as int]@);
                assert(bv.inputs[i as int] == other.inner.inputs@[i as int]@);
                assert(input_view_wf(av.inputs[i as int]));
                assert(input_view_wf(bv.inputs[i as int]));
            }
            match combine_input(&self.inner.inputs[i], &other.inner.inputs[i]) {
                Ok(m) => {
                    inputs.push(m);
                }
                Err(()) => {
                    proof {
                        assert(!input_compatible(av.inputs[i as int], bv.inputs[i as int]));
                        assert(!psbt_compatible(av, bv));
                    }
                    return Err(CombineError::Conflict);
                }
            }
            i = i + 1;
        }
        let mut outputs: Vec<Output> = Vec::new();
        let mut o: usize = 0;
        while o < self.inner.outputs.len()
            invariant
                o <= av.outputs.len(),
                av == self@,
                bv == other@,
                self.valid(),
                other.valid(),
                same_transaction(av, bv),
                av.outputs.len() == self.inner.outputs@.len(),
                av.outputs.len() == bv.outputs.len(),
                bv.outputs.len() == other.inner.outputs@.len(),
                outputs@.len() == o,
                forall|j: int| 0 <= j < o
                    ==> output_compatible(#[trigger] av.outputs[j], bv.outputs[j]),
                forall|j: int| 0 <= j < o
                    ==> (#[trigger] outputs@[j])@ == output_merge(av.outputs[j], bv.outputs[j])
                        && outputs@[j].wf(),
            decreases av.outputs.len() - o,
        {
            proof {
                assert(av.outputs[o as int] == self.inner.outputs@[o as int]@);
                assert(bv.outputs[o as int] == other.inner.outputs@[o as int]@);
                assert(output_view_wf(av.outputs[o as int]));
                assert(output_view_wf(bv.outputs[o as int]));
            }
            match combine_output(&self.inner.outputs[o], &other.inner.outputs[o]) {
                Ok(m) => {
                    outputs.push(m);
                }
                Err(()) => {
                    proof {
                        assert(!output_compatible(av.outputs[o as int], bv.outputs[o as int]));
                        assert(!psbt_compatible(av, bv));
                    }
                    return Err(CombineError::Conflict);
                }
            }
            o = o + 1;
        }
        let version = self.inner.version;
        let inner = PartiallySignedTransactionInner {
            unsigned_tx,
            version,
            xpub,
            proprietary,
            unknown,
            inputs,
            outputs,
        };
        proof {
            assert(psbt_compatible(av, bv));
            assert(inner@.inputs =~= psbt_merge(av, bv).inputs);
            assert(inner@.outputs =~= psbt_merge(av, bv).outputs);
            assert(inner@ =~= psbt_merge(av, bv));
            lemma_merge_preserves_valid(av, bv);
        }
        Ok(PartiallySignedTransaction { inner, marker: PhantomData })
    }

    /// Whether a record may be added to this container as a new input:
    /// only a v2 container without an embedded skeleton is extensible, the
    /// record must name the coin it spends, and no present input may spend
    /// the same coin.
    pub fn validate_input(&self, input: &Input) -> (b: bool)
        requires
            self.valid(),
        ensures
            b == addable_input(self@, input@),
    {
        let modifiable = match self.inner.version {
            Version::V0 => false,
            Version::V2 => self.inner.unsigned_tx.is_none(),
        };
        if !modifiable {
            return false;
        }
        if input.previous_tx_id.is_none() || input.output_index.is_none() {
            return false;
        }
        let p = match &input.previous_tx_id {
            Some(t) => clone_bytes(&t.0),
            None => Vec::new(),
        };
        let x = match &input.output_index {
            Some(x) => *x,
            None => 0,
        };
        proof {
            assert((p@, x) == input_outpoint(input@));
        }
        let mut i: usize = 0;
        while i < self.inner.inputs.len()
            invariant
                i <= self@.inputs.len(),
                self@.inputs.len() == self.inner.inputs@.len(),
                self@.version == Version::V2,
                self@.unsigned_tx is None,
                (p@, x) == input_outpoint(input@),
                forall|j: int| 0 <= j < i
                    ==> #[trigger] outpoint_of(self@, j) != input_outpoint(input@),
            decreases self@.inputs.len() - i,
        {
            let pi = outpoint_at(&self.inner, i);
            if bytes_eq(&pi.0, &p) && pi.1 == x {
                proof {
                    assert(outpoint_of(self@, i as int) == input_outpoint(input@));
                }
                return false;
            }
            i = i + 1;
        }
        true
    }

    /// Whether a record may be added to this container as a new output:
    /// only a v2 container without an embedded skeleton is extensible, and
    /// the record must declare a non-negative amount and a script.
    pub fn validate_output(&self, output: &Output) -> (b: bool)
        requires
            self.valid(),
        ensures
            b == addable_output(self@, output@),
    {
        let modifiable = match self.inner.version {
            Version::V0 => false,
            Version::V2 => self.inner.unsigned_tx.is_none(),
        };
        if !modifiable {
            return false;
        }
        match &output.amount {
            None => false,
            Some(a) => {
                if *a < 0 {
                    false
                } else {
                    output.script.is_some()
                }
            }
        }
    }

    /// Appends an input record, keeping the container valid; refused with the
    /// exact rule on a container whose input set is fixed, on a record that
    /// does not name its coin, and on a coin already spent.
    pub fn add_input(&mut self, input: Input) -> (r: Result<(), ValidationError>)
        requires
            old(self).valid(),
            input.wf(),
        ensures
            match r {
                Ok(()) => {
                    &&& addable_input(old(self)@, input@)
                    &&& final(self)@.inputs == old(self)@.inputs.push(input@)
                    &&& final(self)@.outputs == old(self)@.outputs
                    &&& final(self)@.unsigned_tx == old(self)@.unsigned_tx
                    &&& final(self)@.version == old(self)@.version
                    &&& final(self)@.xpub == old(self)@.xpub
                    &&& final(self)@.proprietary == old(self)@.proprietary
                    &&& final(self)@.unknown == old(self)@.unknown
                    &&& final(self).valid()
                },
                Err(e) => {
                    &&& final(self)@ == old(self)@
                    &&& final(self).valid()
                    &&& !addable_input(old(self)@, input@)
                    &&& match e {
                        ValidationError::NotModifiable => old(self)@.version == Version::V0
                            || old(self)@.unsigned_tx is Some,
                        ValidationError::MissingPreviousTxId { input_index } => input_index
                            == old(self)@.inputs.len() && input@.previous_tx_id is None,
                        ValidationError::MissingOutputIndex { input_index } => input_index
                            == old(self)@.inputs.len() && input@.output_index is None,
                        ValidationError::DuplicateOutPoint { input_index } => input_index
                            == old(self)@.inputs.len() && exists|i: int|
                            0 <= i < old(self)@.inputs.len()
                                && #[trigger] outpoint_of(old(self)@, i) == input_outpoint(input@),
                        _ => false,
                    }
                },
            },
    {
        let modifiable = match self.inner.version {
            Version::V0 => false,
            Version::V2 => self.inner.unsigned_tx.is_none(),
        };
        if !modifiable {
            return Err(ValidationError::NotModifiable);
        }
        if input.previous_tx_id.is_none() {
            return Err(ValidationError::MissingPreviousTxId {
                input_index: self.inner.inputs.len(),
            });
        }
        if input.output_index.is_none() {
            return Err(ValidationError::MissingOutputIndex {
                input_index: self.inner.inputs.len(),
            });
        }
        if !self.validate_input(&input) {
            proof {
                assert(exists|i: int| 0 <= i < old(self)@.inputs.len()
                    && #[trigger] outpoint_of(old(self)@, i) == input_outpoint(input@));
            }
            return Err(ValidationError::DuplicateOutPoint {
                input_index: self.inner.inputs.len(),
            });
        }
        let ghost pre = self@;
        let ghost iv = input@;
        self.inner.inputs.push(input);
        proof {
            assert(self@.inputs =~= pre.inputs.push(iv));
            assert(self@.outputs =~= pre.outputs);
            let m = self@;
            assert forall|j: int| 0 <= j < m.inputs.len() implies input_view_wf(
                #[trigger] m.inputs[j],
            ) by {
                if j < pre.inputs.len() {
                    assert(m.inputs[j] == pre.inputs[j]);
                } else {
                    assert(m.inputs[j] == iv);
                }
            }
            assert(psbt_view_wf(m));
            assert(tx_aligned(m));
            assert forall|j: int| 0 <= j < m.inputs.len() implies (#[trigger] m.inputs[j]).previous_tx_id
                is Some && m.inputs[j].output_index is Some by {
                if j < pre.inputs.len() {
                    assert(m.inputs[j] == pre.inputs[j]);
                } else {
                    assert(m.inputs[j] == iv);
                }
            }
            assert forall|j: int| 0 <= j < m.outputs.len() implies (#[trigger] m.outputs[j]).amount
                is Some && m.outputs[j].amount->Some_0 >= 0 && m.outputs[j].script is Some by {
                assert(m.outputs[j] == pre.outputs[j]);
            }
            assert(v2_valid(m));
            assert forall|x2: int, y2: int| 0 <= x2 < y2 < m.inputs.len() implies
                #[trigger] outpoint_of(m, x2) != #[trigger] outpoint_of(m, y2) by {
                if y2 < pre.inputs.len() {
                    assert(m.inputs[x2] == pre.inputs[x2]);
                    assert(m.inputs[y2] == pre.inputs[y2]);
                    assert(outpoint_of(m, x2) == outpoint_of(pre, x2));
                    assert(outpoint_of(m, y2) == outpoint_of(pre, y2));
                    assert(outpoint_of(pre, x2) != outpoint_of(pre, y2));
                } else {
                    assert(m.inputs[x2] == pre.inputs[x2]);
                    assert(m.inputs[y2] == iv);
                    assert(outpoint_of(m, x2) == outpoint_of(pre, x2));
                    assert(outpoint_of(m, y2) == input_outpoint(iv));
                    assert(outpoint_of(pre, x2) != input_outpoint(iv));
                }
            }
            assert(valid_psbt(m));
        }
        Ok(())
    }

    /// Appends an output record, keeping the container valid; refused with
    /// the exact rule on a container whose output set is fixed and on a
    /// record missing its v2 fields.
    pub fn add_output(&mut self, output: Output) -> (r: Result<(), ValidationError>)
        requires
            old(self).valid(),
            output.wf(),
        ensures
            match r {
                Ok(()) => {
                    &&& addable_output(old(self)@, output@)
                    &&& final(self)@.outputs == old(self)@.outputs.push(output@)
                    &&& final(self)@.inputs == old(self)@.inputs
                    &&& final(self)@.unsigned_tx == old(self)@.unsigned_tx
                    &&& final(self)@.version == old(self)@.version
                    &&& final(self)@.xpub == old(self)@.xpub
                    &&& final(self)@.proprietary == old(self)@.proprietary
                    &&& final(self)@.unknown == old(self)@.unknown
                    &&& final(self).valid()
                },
                Err(e) => {
                    &&& final(self)@ == old(self)@
                    &&& final(self).valid()
                    &&& !addable_output(old(self)@, output@)
                    &&& match e {
                        ValidationError::NotModifiable => old(self)@.version == Version::V0
                            || old(self)@.unsigned_tx is Some,
                        ValidationError::MissingAmount { output_index } => output_index
                            == old(self)@.outputs.len() && output@.amount is None,
                        ValidationError::NegativeAmount { output_index } => output_index
                            == old(self)@.outputs.len() && output@.amount is Some
                            && output@.amount->Some_0 < 0,
                        ValidationError::MissingScript { output_index } => output_index
                            == old(self)@.outputs.len() && output@.script is None,
                        _ => false,
                    }
                },
            },
    {
        let modifiable = match self.inner.version {
            Version::V0 => false,
            Version::V2 => self.inner.unsigned_tx.is_none(),
        };
        if !modifiable {
            return Err(ValidationError::NotModifiable);
        }
        match &output.amount {
            None => {
                return Err(ValidationError::MissingAmount {
                    output_index: self.inner.outputs.len(),
                });
            }
            Some(a) => {
                if *a < 0 {
                    return Err(ValidationError::NegativeAmount {
                        output_index: self.inner.outputs.len(),
                    });
                }
            }
        }
        if output.script.is_none() {
            return Err(ValidationError::MissingScript {
                output_index: self.inner.outputs.len(),
            });
        }
        let ghost pre = self@;
        let ghost ov = output@;
        self.inner.outputs.push(output);
        proof {
            assert(self@.outputs =~= pre.outputs.push(ov));
            assert(self@.inputs =~= pre.inputs);
            let m = self@;
            assert forall|j: int| 0 <= j < m.outputs.len() implies output_view_wf(
                #[trigger] m.outputs[j],
            ) by {
                if j < pre.outputs.len() {
                    assert(m.outputs[j] == pre.outputs[j]);
                } else {
                    assert(m.outputs[j] == ov);
                }
            }
            assert(psbt_view_wf(m));
            assert(tx_aligned(m));
            assert forall|j: int| 0 <= j < m.outputs.len() implies (#[trigger] m.outputs[j]).amount
                is Some && m.outputs[j].amount->Some_0 >= 0 && m.outputs[j].script is Some by {
                if j < pre.outputs.len() {
                    assert(m.outputs[j] == pre.outputs[j]);
                } else {
                    assert(m.outputs[j] == ov);
                }
            }
            assert(v2_valid(m));
            assert forall|x2: int, y2: int| 0 <= x2 < y2 < m.inputs.len() implies
                #[trigger] outpoint_of(m, x2) != #[trigger] outpoint_of(m, y2) by {
                assert(m.inputs[x2] == pre.inputs[x2]);
                assert(m.inputs[y2] == pre.inputs[y2]);
                assert(outpoint_of(m, x2) == outpoint_of(pre, x2));
                assert(outpoint_of(m, y2) == outpoint_of(pre, y2));
                assert(outpoint_of(pre, x2) != outpoint_of(pre, y2));
            }
            assert(valid_psbt(m));
        }
        Ok(())
    }

    /// Finalizes the input at `index`, collapsing its signing material into
    /// the final scriptSig/witness exactly as `finalize_spec` describes;
    /// a no-op on an already finalized input. On failure nothing changes.
    pub fn finalize_input(&mut self, index: usize) -> (r: Result<(), FinalizeError>)
        requires
            old(self).valid(),
            index < old(self)@.inputs.len(),
        ensures
            match r {
                Ok(()) => {
                    &&& crate::input::finalize_spec(old(self)@.inputs[index as int])
                        matches crate::input::FinalizeOutcome::Done(f)
                        && final(self)@ == with_input(old(self)@, index as int, f)
                    &&& is_finalized_view(final(self)@.inputs[index as int])
                    &&& final(self).valid()
                },
                Err(FinalizeError::InsufficientSignatures { input_index }) => {
                    &&& input_index == index
                    &&& final(self)@ == old(self)@
                    &&& final(self).valid()
                    &&& crate::input::finalize_spec(old(self)@.inputs[index as int])
                        == crate::input::FinalizeOutcome::NeedMoreSigs
                },
                Err(FinalizeError::AmbiguousScript { input_index }) => {
                    &&& input_index == index
                    &&& final(self)@ == old(self)@
                    &&& final(self).valid()
                    &&& crate::input::finalize_spec(old(self)@.inputs[index as int])
                        == crate::input::FinalizeOutcome::NoScript
                },
                Err(FinalizeError::OutputMismatch { .. }) => false,
            },
    {
        proof {
            assert(old(self)@.inputs[index as int] == self.inner.inputs@[index as int]@);
            assert(input_view_wf(old(self)@.inputs[index as int]));
        }
        let r = self.inner.inputs[index].finalize_record();
        match r {
            Ok(f) => {
                let ghost pre = self@;
                let ghost fv = f@;
                proof {
                    lemma_finalize_fields(pre.inputs[index as int], fv);
                    lemma_finalize_preserves_valid(pre, index as int, fv);
                }
                self.inner.inputs.remove(index);
                self.inner.inputs.insert(index, f);
                proof {
                    assert(self@.inputs =~= pre.inputs.update(index as int, fv));
                    assert(self@ =~= with_input(pre, index as int, fv));
                }
                Ok(())
            }
            Err(crate::input::FinalizeFailure::InsufficientSignatures) => Err(
                FinalizeError::InsufficientSignatures { input_index: index },
            ),
            Err(crate::input::FinalizeFailure::AmbiguousScript) => Err(
                FinalizeError::AmbiguousScript { input_index: index },
            ),
        }
    }

    /// Finalizes the output at `index`: a no-op that only checks that the
    /// output's declared script and amount, where present, match the
    /// corresponding entry of the embedded unsigned transaction.
    pub fn finalize_output(&self, index: usize) -> (r: Result<(), FinalizeError>)
        requires
            self.valid(),
            index < self@.outputs.len(),
        ensures
            match r {
                Ok(()) => output_matches_tx(self@, index as int),
                Err(FinalizeError::OutputMismatch { output_index }) => output_index == index
                    && !output_matches_tx(self@, index as int),
                Err(FinalizeError::InsufficientSignatures { .. }) => false,
                Err(FinalizeError::AmbiguousScript { .. }) => false,
            },
    {
        match &self.inner.unsigned_tx {
            None => Ok(()),
            Some(tx) => {
                proof {
                    assert(self@.unsigned_tx == Some(tx@));
                    assert(tx@.outputs.len() == self@.outputs.len());
                    assert(self@.outputs[index as int] == self.inner.outputs@[index as int]@);
                    assert(tx@.outputs[index as int] == tx.outputs@[index as int]@);
                }
                match &self.inner.outputs[index].script {
                    Some(s) => {
                        if !bytes_eq(s, &tx.outputs[index].script) {
                            return Err(FinalizeError::OutputMismatch { output_index: index });
                        }
                    }
                    None => {}
                }
                match &self.inner.outputs[index].amount {
                    Some(a) => {
                        if *a < 0 {
                            return Err(FinalizeError::OutputMismatch { output_index: index });
                        }
                        if (*a as u64) != tx.outputs[index].value {
                            return Err(FinalizeError::OutputMismatch { output_index: index });
                        }
                    }
                    None => {}
                }
                Ok(())
            }
        }
    }

    /// Builds the broadcastable transaction from a fully finalized container,
    /// substituting every input's final scriptSig and witness into the
    /// skeleton (or, for a v2 container without one, assembling the
    /// transaction from the declared fields). Fails with the lowest index of
    /// a non-finalized input, in ascending order.
    pub fn extract_transaction(&self) -> (r: Result<Transaction, ExtractError>)
        requires
            self.valid(),
        ensures
            match r {
                Ok(tx) => (forall|i: int| 0 <= i < self@.inputs.len()
                    ==> is_finalized_view(#[trigger] self@.inputs[i])) && tx@ == extract_spec(
                    self@,
                ),
                Err(ExtractError::NotFinalized(i)) => {
                    &&& i < self@.inputs.len()
                    &&& !is_finalized_view(self@.inputs[i as int])
                    &&& forall|j: int| 0 <= j < i
                        ==> is_finalized_view(#[trigger] self@.inputs[j])
                },
            },
    {
        let mut i: usize = 0;
        while i < self.inner.inputs.len()
            invariant
                i <= self@.inputs.len(),
                self@.inputs.len() == self.inner.inputs@.len(),
                forall|j: int| 0 <= j < i ==> is_finalized_view(#[trigger] self@.inputs[j]),
            decreases self@.inputs.len() - i,
        {
            proof {
                assert(self@.inputs[i as int] == self.inner.inputs@[i as int]@);
            }
            if !self.inner.inputs[i].is_finalized() {
                return Err(ExtractError::NotFinalized(i));
            }
            i = i + 1;
        }
        let mut txins: Vec<crate::transaction::TxIn> = Vec::new();
        let mut k: usize = 0;
        while k < self.inner.inputs.len()
            invariant
                k <= self@.inputs.len(),
                self@.inputs.len() == self.inner.inputs@.len(),
                self.valid(),
                txins@.len() == k,
                forall|j: int| 0 <= j < k ==> (#[trigger] txins@[j])@ == extracted_input(self@, j),
            decreases self@.inputs.len() - k,
        {
            proof {
                assert(self@.inputs[k as int] == self.inner.inputs@[k as int]@);
            }
            let rec = &self.inner.inputs[k];
            let fss = match &rec.final_script_sig {
                Some(s) => clone_bytes(s),
                None => Vec::new(),
            };
            let fsw = match &rec.final_script_witness {
                Some(w) => crate::bytes::clone_witness(w),
                None => Vec::new(),
            };
            let ti = match &self.inner.unsigned_tx {
                Some(tx) => {
                    proof {
                        assert(self@.unsigned_tx == Some(tx@));
                        assert(tx@.inputs.len() == self@.inputs.len());
                        assert(tx@.inputs[k as int] == tx.inputs@[k as int]@);
                    }
                    crate::transaction::TxIn {
                        previous_txid: clone_bytes(&tx.inputs[k].previous_txid),
                        vout: tx.inputs[k].vout,
                        script_sig: fss,
                        sequence: tx.inputs[k].sequence,
                        witness: fsw,
                    }
                }
                None => {
                    let op = outpoint_at(&self.inner, k);
                    let seqn = match &rec.sequence {
                        Some(s) => *s,
                        None => 0xffffffffu32,
                    };
                    crate::transaction::TxIn {
                        previous_txid: op.0,
                        vout: op.1,
                        script_sig: fss,
                        sequence: seqn,
                        witness: fsw,
                    }
                }
            };
            proof {
                assert(ti@ =~= extracted_input(self@, k as int));
            }
            txins.push(ti);
            k = k + 1;
        }
        let mut txouts: Vec<crate::transaction::TxOut> = Vec::new();
        let mut o: usize = 0;
        while o < self.inner.outputs.len()
            invariant
                o <= self@.outputs.len(),
                self@.outputs.len() == self.inner.outputs@.len(),
                self.valid(),
                txouts@.len() == o,
                forall|j: int| 0 <= j < o
                    ==> (#[trigger] txouts@[j])@ == extracted_output(self@, j),
            decreases self@.outputs.len() - o,
        {
            proof {
                assert(self@.outputs[o as int] == self.inner.outputs@[o as int]@);
            }
            let to = match &self.inner.unsigned_tx {
                Some(tx) => {
                    proof {
                        assert(self@.unsigned_tx == Some(tx@));
                        assert(tx@.outputs.len() == self@.outputs.len());
                        assert(tx@.outputs[o as int] == tx.outputs@[o as int]@);
                    }
                    tx.outputs[o].clone_out()
                }
                None => {
                    proof {
                        if self@.version == Version::V0 {
                            assert(self@.unsigned_tx is Some);
                            assert(false);
                        }
                        assert(v2_valid(self@));
                    }
                    let value = match &self.inner.outputs[o].amount {
                        Some(a) => {
                            proof {
                                assert(self@.outputs[o as int].amount->Some_0 >= 0);
                            }
                            *a as u64
                        }
                        None => {
                            proof {
                                assert(false);
                            }
                            0u64
                        }
                    };
                    let script = match &self.inner.outputs[o].script {
                        Some(s) => clone_bytes(s),
                        None => {
                            proof {
                                assert(false);
                            }
                            Vec::new()
                        }
                    };
                    crate::transaction::TxOut { value, script }
                }
            };
            proof {
                assert(to@ =~= extracted_output(self@, o as int));
            }
            txouts.push(to);
            o = o + 1;
        }
        let (version, lock_time) = match &self.inner.unsigned_tx {
            Some(tx) => (tx.version, tx.lock_time),
            None => (2u32, locktime_of(&self.inner)),
        };
        let tx = Transaction { version, lock_time, inputs: txins, outputs: txouts };
        proof {
            assert(tx@.inputs =~= extract_spec(self@).inputs);
            assert(tx@.outputs =~= extract_spec(self@).outputs);
            assert(tx@ =~= extract_spec(self@));
        }
        Ok(tx)
    }
}

/// Whether the output at position `o` agrees with the embedded unsigned
/// transaction: its declared script and amount, where present, match the
/// skeleton's entry. Without a skeleton there is nothing to contradict.
pub open spec fn output_matches_tx(p: PsbtView, o: int) -> bool {
    match p.unsigned_tx {
        Some(tx) => {
            &&& (p.outputs[o].script matches Some(s) ==> s == tx.outputs[o].script)
            &&& (p.outputs[o].amount matches Some(a) ==> a >= 0 && a as u64 == tx.outputs[o].value)
        }
        None => true,
    }
}

/// The largest required locktime floor of the container's inputs.
fn locktime_of(psbt: &PartiallySignedTransactionInner) -> (lt: u32)
    ensures
        lt == locktime_floor(psbt@.inputs),
{
    let mut lt: u32 = 0;
    let mut k: usize = 0;
    proof {
        assert(psbt@.inputs.take(0) =~= Seq::<InputView>::empty());
    }
    while k < psbt.inputs.len()
        invariant
            k <= psbt@.inputs.len(),
            psbt@.inputs.len() == psbt.inputs@.len(),
            lt == locktime_floor(psbt@.inputs.take(k as int)),
        decreases psbt@.inputs.len() - k,
    {
        proof {
            assert(psbt@.inputs[k as int] == psbt.inputs@[k as int]@);
            assert(psbt@.inputs.take(k as int + 1).drop_last() =~= psbt@.inputs.take(k as int));
            assert(psbt@.inputs.take(k as int + 1).last() == psbt@.inputs[k as int]);
        }
        let t = match &psbt.inputs[k].required_time_locktime {
            Some(x) => *x,
            None => 0,
        };
        let h = match &psbt.inputs[k].required_height_locktime {
            Some(x) => *x,
            None => 0,
        };
        let cur = if t > h {
            t
        } else {
            h
        };
        if cur > lt {
            lt = cur;
        }
        k = k + 1;
    }
    proof {
        assert(psbt@.inputs.take(psbt@.inputs.len() as int) =~= psbt@.inputs);
    }
    lt
}

} // verus!
