//! End-to-end exercises of the PSBT engines: validation, combine,
//! finalization, extraction, and the record maps.

use psbt::input::Input;
use psbt::input::SigningState;
use psbt::kvmap::ByteMap;
use psbt::output::Output;
use psbt::primitives::KeySource;
use psbt::primitives::PreviousTxId;
use psbt::primitives::Version;
use psbt::psbt::CombineError;
use psbt::psbt::ExtractError;
use psbt::psbt::FinalizeError;
use psbt::psbt::PartiallySignedTransaction;
use psbt::psbt::PartiallySignedTransactionInner;
use psbt::psbt::Psbt;
use psbt::psbt::PsbtUnchecked;
use psbt::psbt::ValidationError;
use psbt::psbt::validate_psbt_inner;
use psbt::transaction::Transaction;
use psbt::transaction::TxIn;
use psbt::transaction::TxOut;

fn sample_tx(n_inputs: usize) -> Transaction {
    let mut inputs = Vec::new();
    for i in 0..n_inputs {
        inputs.push(TxIn {
            previous_txid: vec![i as u8; 4],
            vout: 0,
            script_sig: Vec::new(),
            sequence: 0xffffffff,
            witness: Vec::new(),
        });
    }
    Transaction {
        version: 1,
        lock_time: 0,
        inputs,
        outputs: vec![TxOut { value: 50_000, script: vec![0x51] }],
    }
}

fn v0_inner(n_inputs: usize) -> PartiallySignedTransactionInner {
    let mut inner = PartiallySignedTransactionInner::new(Version::V0);
    inner.unsigned_tx = Some(sample_tx(n_inputs));
    for _ in 0..n_inputs {
        inner.inputs.push(Input::new());
    }
    inner.outputs.push(Output::new());
    inner
}

fn v2_input(txid_byte: u8, vout: u32) -> Input {
    let mut input = Input::new();
    input.previous_tx_id = Some(PreviousTxId(vec![txid_byte; 32]));
    input.output_index = Some(vout);
    input
}

fn v2_output(amount: i64) -> Output {
    let mut output = Output::new();
    output.amount = Some(amount);
    output.script = Some(vec![0x51]);
    output
}

fn v2_inner() -> PartiallySignedTransactionInner {
    let mut inner = PartiallySignedTransactionInner::new(Version::V2);
    inner.inputs.push(v2_input(7, 0));
    inner.outputs.push(v2_output(25_000));
    inner
}

/// A v0 PSBT whose single input carries a 2-of-2 redeem script and the named
/// signatures.
fn multisig_v0(sigs: &[(&[u8], &[u8])]) -> Psbt {
    let mut inner = v0_inner(1);
    inner.inputs[0].redeem_script = Some(vec![0x52, 0xae]);
    for (pk, sig) in sigs {
        inner.inputs[0].partial_sigs.insert(pk.to_vec(), sig.to_vec());
    }
    Psbt::from_inner(inner).expect("a well-formed v0 container validates")
}

#[test]
fn validate_v0_ok() {
    assert!(validate_psbt_inner(&v0_inner(2)).is_ok());
}

#[test]
fn validate_v0_missing_unsigned_tx() {
    let inner = PartiallySignedTransactionInner::new(Version::V0);
    assert_eq!(validate_psbt_inner(&inner), Err(ValidationError::MissingUnsignedTx));
}

#[test]
fn validate_v0_input_count_mismatch() {
    let mut inner = v0_inner(2);
    inner.inputs.pop();
    assert_eq!(validate_psbt_inner(&inner), Err(ValidationError::InputCountMismatch));
}

#[test]
fn validate_v0_output_count_mismatch() {
    let mut inner = v0_inner(1);
    inner.outputs.pop();
    assert_eq!(validate_psbt_inner(&inner), Err(ValidationError::OutputCountMismatch));
}

#[test]
fn validate_v0_non_empty_script_sig() {
    let mut inner = v0_inner(2);
    inner.unsigned_tx.as_mut().unwrap().inputs[1].script_sig = vec![0x00];
    assert_eq!(
        validate_psbt_inner(&inner),
        Err(ValidationError::NonEmptyScriptSig { input_index: 1 })
    );
}

#[test]
fn validate_v0_non_empty_witness() {
    let mut inner = v0_inner(1);
    inner.unsigned_tx.as_mut().unwrap().inputs[0].witness = vec![vec![0x01]];
    assert_eq!(
        validate_psbt_inner(&inner),
        Err(ValidationError::NonEmptyWitness { input_index: 0 })
    );
}

#[test]
fn validate_v0_forbidden_v2_field() {
    let mut inner = v0_inner(2);
    inner.inputs[1].previous_tx_id = Some(PreviousTxId(vec![9; 32]));
    assert_eq!(
        validate_psbt_inner(&inner),
        Err(ValidationError::ForbiddenV2Field { input_index: 1 })
    );
}

#[test]
fn validate_v0_duplicate_outpoint() {
    let mut inner = v0_inner(2);
    let tx = inner.unsigned_tx.as_mut().unwrap();
    let txid = tx.inputs[0].previous_txid.clone();
    tx.inputs[1].previous_txid = txid;
    assert_eq!(
        validate_psbt_inner(&inner),
        Err(ValidationError::DuplicateOutPoint { input_index: 1 })
    );
}

#[test]
fn validate_v2_ok() {
    assert!(validate_psbt_inner(&v2_inner()).is_ok());
}

// A v2 input without its coin reference is rejected with the
// input's index.
#[test]
fn validate_v2_missing_previous_txid() {
    let mut inner = v2_inner();
    inner.inputs.push(Input::new());
    assert_eq!(
        validate_psbt_inner(&inner),
        Err(ValidationError::MissingPreviousTxId { input_index: 1 })
    );
}

#[test]
fn validate_v2_missing_output_index() {
    let mut inner = v2_inner();
    inner.inputs[0].output_index = None;
    assert_eq!(
        validate_psbt_inner(&inner),
        Err(ValidationError::MissingOutputIndex { input_index: 0 })
    );
}

#[test]
fn validate_v2_missing_amount() {
    let mut inner = v2_inner();
    inner.outputs[0].amount = None;
    assert_eq!(
        validate_psbt_inner(&inner),
        Err(ValidationError::MissingAmount { output_index: 0 })
    );
}

#[test]
fn validate_v2_negative_amount() {
    let mut inner = v2_inner();
    inner.outputs[0].amount = Some(-1);
    assert_eq!(
        validate_psbt_inner(&inner),
        Err(ValidationError::NegativeAmount { output_index: 0 })
    );
}

#[test]
fn validate_v2_missing_script() {
    let mut inner = v2_inner();
    inner.outputs[0].script = None;
    assert_eq!(
        validate_psbt_inner(&inner),
        Err(ValidationError::MissingScript { output_index: 0 })
    );
}

#[test]
fn validate_v2_duplicate_outpoint() {
    let mut inner = v2_inner();
    inner.inputs.push(v2_input(7, 0));
    assert_eq!(
        validate_psbt_inner(&inner),
        Err(ValidationError::DuplicateOutPoint { input_index: 1 })
    );
}

// Validation idempotence: the container of a checked PSBT validates again.
#[test]
fn validate_idempotent() {
    let unchecked = PartiallySignedTransaction::<PsbtUnchecked>::new(v0_inner(1));
    let checked = unchecked.validate().expect("first validation succeeds");
    assert!(validate_psbt_inner(checked.container()).is_ok());
}

#[test]
fn validate_failure_reports_rule() {
    let mut inner = v0_inner(1);
    inner.unsigned_tx = None;
    let unchecked = PartiallySignedTransaction::<PsbtUnchecked>::new(inner);
    assert_eq!(unchecked.validate().err(), Some(ValidationError::MissingUnsignedTx));
}

// One input, two signatures meeting a 2-of-2 redeem script:
// finalizing builds the scriptSig and clears the signing material.
#[test]
fn finalize_two_of_two() {
    let mut psbt = multisig_v0(&[(&[0x01], &[0xaa]), (&[0x02], &[0xbb])]);
    assert!(psbt.finalize_input(0).is_ok());
    let input = &psbt.container().inputs[0];
    assert_eq!(
        input.final_script_sig,
        Some(vec![0x01, 0xaa, 0x01, 0xbb, 0x02, 0x52, 0xae])
    );
    assert_eq!(input.final_script_witness, None);
    assert_eq!(input.partial_sigs.len(), 0);
    assert_eq!(input.redeem_script, None);
    assert_eq!(input.bip32_derivation.len(), 0);
}

// Finalize idempotence: finalizing twice yields the same record as once.
#[test]
fn finalize_idempotent() {
    let mut psbt = multisig_v0(&[(&[0x01], &[0xaa]), (&[0x02], &[0xbb])]);
    assert!(psbt.finalize_input(0).is_ok());
    let once = psbt.container().inputs[0].final_script_sig.clone();
    assert!(psbt.finalize_input(0).is_ok());
    let twice = psbt.container().inputs[0].final_script_sig.clone();
    assert_eq!(once, twice);
    assert_eq!(psbt.container().inputs[0].partial_sigs.len(), 0);
}

#[test]
fn finalize_insufficient_signatures() {
    let mut psbt = multisig_v0(&[(&[0x01], &[0xaa])]);
    assert_eq!(
        psbt.finalize_input(0),
        Err(FinalizeError::InsufficientSignatures { input_index: 0 })
    );
    // Nothing changed.
    assert_eq!(psbt.container().inputs[0].partial_sigs.len(), 1);
}

#[test]
fn finalize_ambiguous_script() {
    let mut psbt = Psbt::from_inner(v0_inner(1)).unwrap();
    assert_eq!(
        psbt.finalize_input(0),
        Err(FinalizeError::AmbiguousScript { input_index: 0 })
    );
}

#[test]
fn finalize_taproot_key_spend() {
    let mut inner = v0_inner(1);
    inner.inputs[0].tap_key_sig = Some(vec![0xcc; 64]);
    let mut psbt = Psbt::from_inner(inner).unwrap();
    assert!(psbt.finalize_input(0).is_ok());
    let input = &psbt.container().inputs[0];
    assert_eq!(input.final_script_witness, Some(vec![vec![0xcc; 64]]));
    assert_eq!(input.final_script_sig, None);
    assert_eq!(input.tap_key_sig, None);
}

#[test]
fn finalize_witness_script() {
    let mut inner = v0_inner(1);
    inner.inputs[0].witness_script = Some(vec![0x52, 0xae]);
    inner.inputs[0].partial_sigs.insert(vec![0x01], vec![0xaa]);
    inner.inputs[0].partial_sigs.insert(vec![0x02], vec![0xbb]);
    let mut psbt = Psbt::from_inner(inner).unwrap();
    assert!(psbt.finalize_input(0).is_ok());
    let input = &psbt.container().inputs[0];
    assert_eq!(
        input.final_script_witness,
        Some(vec![vec![0xaa], vec![0xbb], vec![0x52, 0xae]])
    );
    assert_eq!(input.witness_script, None);
}

#[test]
fn finalize_single_key_witness() {
    let mut inner = v0_inner(1);
    inner.inputs[0].witness_utxo = Some(TxOut { value: 10, script: vec![0x00] });
    inner.inputs[0].partial_sigs.insert(vec![0x03], vec![0xdd]);
    let mut psbt = Psbt::from_inner(inner).unwrap();
    assert!(psbt.finalize_input(0).is_ok());
    let input = &psbt.container().inputs[0];
    assert_eq!(input.final_script_witness, Some(vec![vec![0xdd], vec![0x03]]));
}

#[test]
fn finalize_single_key_legacy() {
    let mut inner = v0_inner(1);
    inner.inputs[0].non_witness_utxo = Some(sample_tx(1));
    inner.inputs[0].partial_sigs.insert(vec![0x03], vec![0xdd]);
    let mut psbt = Psbt::from_inner(inner).unwrap();
    assert!(psbt.finalize_input(0).is_ok());
    let input = &psbt.container().inputs[0];
    assert_eq!(input.final_script_sig, Some(vec![0x01, 0xdd, 0x01, 0x03]));
}

#[test]
fn signing_states() {
    let mut input = Input::new();
    assert_eq!(input.signing_state(), SigningState::Unsigned);
    input.partial_sigs.insert(vec![0x01], vec![0xaa]);
    assert_eq!(input.signing_state(), SigningState::PartiallySigned);
    input.final_script_sig = Some(vec![0x00]);
    assert_eq!(input.signing_state(), SigningState::Finalized);
}

#[test]
fn finalize_output_checks_skeleton() {
    let mut inner = v0_inner(1);
    inner.outputs[0].amount = Some(50_000);
    inner.outputs[0].script = Some(vec![0x51]);
    let psbt = Psbt::from_inner(inner).unwrap();
    assert!(psbt.finalize_output(0).is_ok());
}

#[test]
fn finalize_output_mismatch() {
    let mut inner = v0_inner(1);
    inner.outputs[0].amount = Some(49_999);
    let psbt = Psbt::from_inner(inner).unwrap();
    assert_eq!(
        psbt.finalize_output(0),
        Err(FinalizeError::OutputMismatch { output_index: 0 })
    );
}

// Two copies, one signature each: combine unions the signatures
// and the combined input then finalizes.
#[test]
fn combine_two_signed_copies() {
    let a = multisig_v0(&[(&[0x01], &[0xaa])]);
    let b = multisig_v0(&[(&[0x02], &[0xbb])]);
    let mut merged = a.combine(b).expect("both describe the same transaction");
    {
        let input = &merged.container().inputs[0];
        assert_eq!(input.partial_sigs.len(), 2);
        assert_eq!(input.partial_sigs.get(&vec![0x01]), Some(&vec![0xaa]));
        assert_eq!(input.partial_sigs.get(&vec![0x02]), Some(&vec![0xbb]));
    }
    assert!(merged.finalize_input(0).is_ok());
    assert_eq!(
        merged.container().inputs[0].final_script_sig,
        Some(vec![0x01, 0xaa, 0x01, 0xbb, 0x02, 0x52, 0xae])
    );
}

// Two PSBTs with different unsigned transactions do not combine.
#[test]
fn combine_transaction_mismatch() {
    let a = Psbt::from_inner(v0_inner(1)).unwrap();
    let mut other = v0_inner(1);
    other.unsigned_tx.as_mut().unwrap().lock_time = 99;
    let b = Psbt::from_inner(other).unwrap();
    assert_eq!(a.combine(b).err(), Some(CombineError::TransactionMismatch));
}

#[test]
fn combine_conflicting_signature() {
    let a = multisig_v0(&[(&[0x01], &[0xaa])]);
    let b = multisig_v0(&[(&[0x01], &[0xee])]);
    assert_eq!(a.combine(b).err(), Some(CombineError::Conflict));
}

// Combine commutativity on concrete values: both orders succeed and agree.
#[test]
fn combine_commutative() {
    let r1 = multisig_v0(&[(&[0x01], &[0xaa])])
        .combine(multisig_v0(&[(&[0x02], &[0xbb])]))
        .unwrap();
    let r2 = multisig_v0(&[(&[0x02], &[0xbb])])
        .combine(multisig_v0(&[(&[0x01], &[0xaa])]))
        .unwrap();
    let s1 = &r1.container().inputs[0].partial_sigs;
    let s2 = &r2.container().inputs[0].partial_sigs;
    assert_eq!(s1.len(), 2);
    assert_eq!(s2.len(), 2);
    assert_eq!(s1.get(&vec![0x01]), s2.get(&vec![0x01]));
    assert_eq!(s1.get(&vec![0x02]), s2.get(&vec![0x02]));
}

// Combine associativity on concrete values.
#[test]
fn combine_associative() {
    let lhs = multisig_v0(&[(&[0x01], &[0xaa])])
        .combine(multisig_v0(&[(&[0x02], &[0xbb])]))
        .unwrap()
        .combine(multisig_v0(&[(&[0x03], &[0xcc])]))
        .unwrap();
    let rhs = multisig_v0(&[(&[0x01], &[0xaa])])
        .combine(
            multisig_v0(&[(&[0x02], &[0xbb])])
                .combine(multisig_v0(&[(&[0x03], &[0xcc])]))
                .unwrap(),
        )
        .unwrap();
    for key in [vec![0x01u8], vec![0x02], vec![0x03]] {
        assert_eq!(
            lhs.container().inputs[0].partial_sigs.get(&key),
            rhs.container().inputs[0].partial_sigs.get(&key)
        );
    }
    assert_eq!(lhs.container().inputs[0].partial_sigs.len(), 3);
}

#[test]
fn combine_unions_global_maps() {
    let mut ia = v0_inner(1);
    ia.xpub.insert(vec![0x10], KeySource { fingerprint: 1, path: vec![44, 0] });
    ia.unknown.insert(vec![0xf0], vec![0x01]);
    let mut ib = v0_inner(1);
    ib.xpub.insert(vec![0x11], KeySource { fingerprint: 2, path: vec![44, 1] });
    ib.unknown.insert(vec![0xf1], vec![0x02]);
    let merged = Psbt::from_inner(ia)
        .unwrap()
        .combine(Psbt::from_inner(ib).unwrap())
        .unwrap();
    let xpub = &merged.container().xpub;
    assert_eq!(xpub.len(), 2);
    assert_eq!(merged.container().unknown.len(), 2);
    assert_eq!(xpub.get(&vec![0x10]).unwrap().fingerprint, 1);
    assert_eq!(xpub.get(&vec![0x11]).unwrap().fingerprint, 2);
    // Entries keep their order: first all of one side, then the other's.
    assert_eq!(xpub.key_at(0), &vec![0x10]);
    assert_eq!(xpub.key_at(1), &vec![0x11]);
    assert_eq!(xpub.source_at(0).path, vec![44, 0]);
    assert_eq!(xpub.source_at(1).path, vec![44, 1]);
}

// Extraction names the lowest non-finalized input.
#[test]
fn extract_names_first_unfinalized() {
    let mut inner = v0_inner(4);
    inner.inputs[0].final_script_sig = Some(vec![0x01, 0xaa]);
    inner.inputs[1].final_script_witness = Some(vec![vec![0xbb]]);
    inner.inputs[3].final_script_sig = Some(vec![0x01, 0xcc]);
    let psbt = Psbt::from_inner(inner).unwrap();
    assert_eq!(psbt.extract_transaction().err(), Some(ExtractError::NotFinalized(2)));
}

#[test]
fn extract_substitutes_final_scripts() {
    let mut inner = v0_inner(2);
    inner.inputs[0].final_script_sig = Some(vec![0x01, 0xaa]);
    inner.inputs[1].final_script_witness = Some(vec![vec![0xbb], vec![0x02]]);
    let psbt = Psbt::from_inner(inner).unwrap();
    let tx = psbt.extract_transaction().expect("all inputs finalized");
    assert_eq!(tx.version, 1);
    assert_eq!(tx.inputs.len(), 2);
    assert_eq!(tx.inputs[0].script_sig, vec![0x01, 0xaa]);
    assert!(tx.inputs[0].witness.is_empty());
    assert!(tx.inputs[1].script_sig.is_empty());
    assert_eq!(tx.inputs[1].witness, vec![vec![0xbb], vec![0x02]]);
    assert_eq!(tx.outputs[0].value, 50_000);
    assert_eq!(tx.outputs[0].script, vec![0x51]);
}

#[test]
fn extract_v2_builds_from_fields() {
    let mut inner = v2_inner();
    inner.inputs[0].final_script_witness = Some(vec![vec![0xee]]);
    inner.inputs[0].required_height_locktime = Some(800_000);
    let psbt = Psbt::from_inner(inner).unwrap();
    let tx = psbt.extract_transaction().unwrap();
    assert_eq!(tx.version, 2);
    assert_eq!(tx.lock_time, 800_000);
    assert_eq!(tx.inputs[0].previous_txid, vec![7; 32]);
    assert_eq!(tx.inputs[0].vout, 0);
    assert_eq!(tx.inputs[0].sequence, 0xffffffff);
    assert_eq!(tx.inputs[0].witness, vec![vec![0xee]]);
    assert_eq!(tx.outputs[0].value, 25_000);
    assert_eq!(tx.outputs[0].script, vec![0x51]);
}

#[test]
fn add_input_extends_v2() {
    let mut psbt = Psbt::from_inner(v2_inner()).unwrap();
    assert!(psbt.validate_input(&v2_input(8, 1)));
    assert!(psbt.add_input(v2_input(8, 1)).is_ok());
    assert_eq!(psbt.container().inputs.len(), 2);
}

#[test]
fn add_input_rejects_duplicate_coin() {
    let mut psbt = Psbt::from_inner(v2_inner()).unwrap();
    assert!(!psbt.validate_input(&v2_input(7, 0)));
    assert_eq!(
        psbt.add_input(v2_input(7, 0)),
        Err(ValidationError::DuplicateOutPoint { input_index: 1 })
    );
    assert_eq!(psbt.container().inputs.len(), 1);
}

#[test]
fn add_input_rejects_v0() {
    let mut psbt = Psbt::from_inner(v0_inner(1)).unwrap();
    assert_eq!(psbt.add_input(v2_input(8, 1)), Err(ValidationError::NotModifiable));
}

#[test]
fn add_input_requires_coin_reference() {
    let mut psbt = Psbt::from_inner(v2_inner()).unwrap();
    assert_eq!(
        psbt.add_input(Input::new()),
        Err(ValidationError::MissingPreviousTxId { input_index: 1 })
    );
}

#[test]
fn add_output_extends_v2() {
    let mut psbt = Psbt::from_inner(v2_inner()).unwrap();
    assert!(psbt.validate_output(&v2_output(1)));
    assert!(psbt.add_output(v2_output(1)).is_ok());
    assert_eq!(psbt.container().outputs.len(), 2);
}

#[test]
fn add_output_requires_amount_and_script() {
    let mut psbt = Psbt::from_inner(v2_inner()).unwrap();
    assert!(!psbt.validate_output(&Output::new()));
    assert_eq!(
        psbt.add_output(Output::new()),
        Err(ValidationError::MissingAmount { output_index: 1 })
    );
    let mut negative = v2_output(0);
    negative.amount = Some(-5);
    assert_eq!(
        psbt.add_output(negative),
        Err(ValidationError::NegativeAmount { output_index: 1 })
    );
}

#[test]
fn byte_map_insert_get_replace() {
    let mut map = ByteMap::new();
    map.insert(vec![0x01], vec![0xaa]);
    map.insert(vec![0x02], vec![0xbb]);
    assert_eq!(map.len(), 2);
    assert_eq!(map.get(&vec![0x01]), Some(&vec![0xaa]));
    map.insert(vec![0x01], vec![0xcc]);
    assert_eq!(map.len(), 2);
    assert_eq!(map.get(&vec![0x01]), Some(&vec![0xcc]));
    assert_eq!(map.get(&vec![0x03]), None);
    assert!(map.contains_key(&vec![0x02]));
}

#[test]
fn combine_conflicting_derivation() {
    let mut ia = v0_inner(1);
    ia.inputs[0]
        .bip32_derivation
        .insert(vec![0x05], KeySource { fingerprint: 1, path: vec![0] });
    let mut ib = v0_inner(1);
    ib.inputs[0]
        .bip32_derivation
        .insert(vec![0x05], KeySource { fingerprint: 2, path: vec![0] });
    let a = Psbt::from_inner(ia).unwrap();
    let b = Psbt::from_inner(ib).unwrap();
    assert_eq!(a.combine(b).err(), Some(CombineError::Conflict));
}

#[test]
fn combine_version_mismatch() {
    let a = Psbt::from_inner(v0_inner(1)).unwrap();
    let b = Psbt::from_inner(v2_inner()).unwrap();
    assert_eq!(a.combine(b).err(), Some(CombineError::TransactionMismatch));
}

#[test]
fn to_inner_returns_container() {
    let psbt = Psbt::from_inner(v0_inner(1)).unwrap();
    let inner = psbt.to_inner();
    assert_eq!(inner.version, Version::V0);
    assert_eq!(inner.inputs.len(), 1);
}
