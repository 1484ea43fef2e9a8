//! The algebra of the engines, proved once and for all: validation is
//! idempotent, combining is commutative and associative up to map order, and
//! finalizing an input is idempotent.
//!
//! Two containers are *equivalent* when they agree structurally, with map
//! fields compared as finite maps — the serialization contract keys records,
//! so entry order inside one map field carries no meaning, while the input
//! and output sequences stay order-sensitive.

use vstd::prelude::*;
use crate::input::FinalizeOutcome;
use crate::input::InputView;
use crate::input::finalize_spec;
use crate::input::input_compatible;
use crate::input::input_merge;
use crate::input::is_finalized_view;
use crate::kvmap::keys_unique;
use crate::kvmap::lemma_merge_seq_map;
use crate::kvmap::map_of;
use crate::kvmap::maps_compatible;
use crate::kvmap::merge_seq;
use crate::output::OutputView;
use crate::output::output_compatible;
use crate::output::output_merge;
use crate::psbt::PartiallySignedTransaction;
use crate::psbt::PsbtChecked;
use crate::psbt::PsbtView;
use crate::psbt::combine_spec;
use crate::psbt::input_view_wf;
use crate::psbt::outpoint_of;
use crate::psbt::output_view_wf;
use crate::psbt::psbt_compatible;
use crate::psbt::psbt_merge;
use crate::psbt::psbt_view_wf;
use crate::psbt::same_transaction;
use crate::psbt::valid_psbt;
use crate::primitives::Version;

verus! {

/// Two input records agree structurally, with each map field compared as a
/// finite map.
pub open spec fn input_equivalent(x: InputView, y: InputView) -> bool {
    &&& x.non_witness_utxo == y.non_witness_utxo
    &&& x.witness_utxo == y.witness_utxo
    &&& map_of(x.partial_sigs) == map_of(y.partial_sigs)
    &&& x.sighash_type == y.sighash_type
    &&& x.redeem_script == y.redeem_script
    &&& x.witness_script == y.witness_script
    &&& map_of(x.bip32_derivation) == map_of(y.bip32_derivation)
    &&& x.final_script_sig == y.final_script_sig
    &&& x.final_script_witness == y.final_script_witness
    &&& map_of(x.ripemd160_preimages) == map_of(y.ripemd160_preimages)
    &&& map_of(x.sha256_preimages) == map_of(y.sha256_preimages)
    &&& map_of(x.hash160_preimages) == map_of(y.hash160_preimages)
    &&& map_of(x.hash256_preimages) == map_of(y.hash256_preimages)
    &&& x.tap_key_sig == y.tap_key_sig
    &&& map_of(x.tap_script_sigs) == map_of(y.tap_script_sigs)
    &&& map_of(x.tap_scripts) == map_of(y.tap_scripts)
    &&& map_of(x.tap_key_origins) == map_of(y.tap_key_origins)
    &&& x.tap_internal_key == y.tap_internal_key
    &&& x.tap_merkle_root == y.tap_merkle_root
    &&& map_of(x.proprietary) == map_of(y.proprietary)
    &&& map_of(x.unknown) == map_of(y.unknown)
    &&& x.previous_tx_id == y.previous_tx_id
    &&& x.output_index == y.output_index
    &&& x.sequence == y.sequence
    &&& x.required_time_locktime == y.required_time_locktime
    &&& x.required_height_locktime == y.required_height_locktime
}

/// Two output records agree structurally, with each map field compared as a
/// finite map.
pub open spec fn output_equivalent(x: OutputView, y: OutputView) -> bool {
    &&& x.redeem_script == y.redeem_script
    &&& x.witness_script == y.witness_script
    &&& map_of(x.bip32_derivation) == map_of(y.bip32_derivation)
    &&& x.tap_internal_key == y.tap_internal_key
    &&& x.tap_tree == y.tap_tree
    &&& map_of(x.tap_key_origins) == map_of(y.tap_key_origins)
    &&& map_of(x.proprietary) == map_of(y.proprietary)
    &&& map_of(x.unknown) == map_of(y.unknown)
    &&& x.amount == y.amount
    &&& x.script == y.script
}

/// Two containers agree structurally, order-insensitive inside each map
/// field, order-sensitive over the input and output sequences.
pub open spec fn psbt_equivalent(x: PsbtView, y: PsbtView) -> bool {
    &&& x.unsigned_tx == y.unsigned_tx
    &&& x.version == y.version
    &&& map_of(x.xpub) == map_of(y.xpub)
    &&& map_of(x.proprietary) == map_of(y.proprietary)
    &&& map_of(x.unknown) == map_of(y.unknown)
    &&& x.inputs.len() == y.inputs.len()
    &&& forall|i: int| 0 <= i < x.inputs.len()
        ==> input_equivalent(#[trigger] x.inputs[i], y.inputs[i])
    &&& x.outputs.len() == y.outputs.len()
    &&& forall|o: int| 0 <= o < x.outputs.len()
        ==> output_equivalent(#[trigger] x.outputs[o], y.outputs[o])
}

/// Validation idempotence: the container behind a checked wrapper still
/// satisfies the validation predicate, so validating it again returns the
/// checked state — `validate` reads, and never mutates, the container.
pub proof fn lemma_validation_idempotent(c: PartiallySignedTransaction<PsbtChecked>)
    requires
        c.valid(),
    ensures
        valid_psbt(c@),
{
}

/// The union of two compatible maps does not depend on the order of its
/// arguments.
pub proof fn lemma_union_commutes<Vl>(m1: Map<Seq<u8>, Vl>, m2: Map<Seq<u8>, Vl>)
    requires
        maps_compatible(m1, m2),
    ensures
        m1.union_prefer_right(m2) == m2.union_prefer_right(m1),
{
    assert(m1.union_prefer_right(m2) =~= m2.union_prefer_right(m1));
}

/// The union of two well-formed compatible records is the same finite map in
/// either order.
pub proof fn lemma_merge_seq_commutes<Vl>(s1: Seq<(Seq<u8>, Vl)>, s2: Seq<(Seq<u8>, Vl)>)
    requires
        keys_unique(s1),
        keys_unique(s2),
        maps_compatible(map_of(s1), map_of(s2)),
    ensures
        maps_compatible(map_of(s2), map_of(s1)),
        map_of(merge_seq(s1, s2)) == map_of(merge_seq(s2, s1)),
{
    lemma_merge_seq_map(s1, s2);
    lemma_merge_seq_map(s2, s1);
    lemma_union_commutes(map_of(s1), map_of(s2));
}

/// Combine commutativity: whenever two checked containers combine, they
/// combine in the other order too, and the results are equivalent — the
/// field-union merge is symmetric.
pub proof fn lemma_combine_commutative(a: PsbtView, b: PsbtView)
    requires
        psbt_view_wf(a),
        psbt_view_wf(b),
        combine_spec(a, b) is Ok,
    ensures
        combine_spec(b, a) is Ok,
        psbt_equivalent(combine_spec(a, b)->Ok_0, combine_spec(b, a)->Ok_0),
{
    assert(same_transaction(a, b));
    assert(psbt_compatible(a, b));
    // The relation is symmetric clause by clause.
    if a.version == Version::V2 {
        assert forall|i: int| 0 <= i < b.inputs.len() implies #[trigger] outpoint_of(b, i)
            == outpoint_of(a, i) by {
            assert(outpoint_of(a, i) == outpoint_of(b, i));
        }
    }
    assert(same_transaction(b, a));
    assert forall|i: int| 0 <= i < b.inputs.len() implies input_compatible(
        #[trigger] b.inputs[i],
        a.inputs[i],
    ) by {
        assert(input_compatible(a.inputs[i], b.inputs[i]));
    }
    assert forall|o: int| 0 <= o < b.outputs.len() implies output_compatible(
        #[trigger] b.outputs[o],
        a.outputs[o],
    ) by {
        assert(output_compatible(a.outputs[o], b.outputs[o]));
    }
    assert(psbt_compatible(b, a));
    let ab = psbt_merge(a, b);
    let ba = psbt_merge(b, a);
    lemma_merge_seq_commutes(a.xpub, b.xpub);
    lemma_merge_seq_commutes(a.proprietary, b.proprietary);
    lemma_merge_seq_commutes(a.unknown, b.unknown);
    assert forall|i: int| 0 <= i < ab.inputs.len() implies input_equivalent(
        #[trigger] ab.inputs[i],
        ba.inputs[i],
    ) by {
        let x = a.inputs[i];
        let y = b.inputs[i];
        assert(input_view_wf(x));
        assert(input_view_wf(y));
        assert(input_compatible(x, y));
        assert(ab.inputs[i] == input_merge(x, y));
        assert(ba.inputs[i] == input_merge(y, x));
        lemma_merge_seq_commutes(x.partial_sigs, y.partial_sigs);
        lemma_merge_seq_commutes(x.bip32_derivation, y.bip32_derivation);
        lemma_merge_seq_commutes(x.ripemd160_preimages, y.ripemd160_preimages);
        lemma_merge_seq_commutes(x.sha256_preimages, y.sha256_preimages);
        lemma_merge_seq_commutes(x.hash160_preimages, y.hash160_preimages);
        lemma_merge_seq_commutes(x.hash256_preimages, y.hash256_preimages);
        lemma_merge_seq_commutes(x.tap_script_sigs, y.tap_script_sigs);
        lemma_merge_seq_commutes(x.tap_scripts, y.tap_scripts);
        lemma_merge_seq_commutes(x.tap_key_origins, y.tap_key_origins);
        lemma_merge_seq_commutes(x.proprietary, y.proprietary);
        lemma_merge_seq_commutes(x.unknown, y.unknown);
    }
    assert forall|o: int| 0 <= o < ab.outputs.len() implies output_equivalent(
        #[trigger] ab.outputs[o],
        ba.outputs[o],
    ) by {
        let x = a.outputs[o];
        let y = b.outputs[o];
        assert(output_view_wf(x));
        assert(output_view_wf(y));
        assert(output_compatible(x, y));
        assert(ab.outputs[o] == output_merge(x, y));
        assert(ba.outputs[o] == output_merge(y, x));
        lemma_merge_seq_commutes(x.bip32_derivation, y.bip32_derivation);
        lemma_merge_seq_commutes(x.tap_key_origins, y.tap_key_origins);
        lemma_merge_seq_commutes(x.proprietary, y.proprietary);
        lemma_merge_seq_commutes(x.unknown, y.unknown);
    }
    assert(psbt_equivalent(ab, ba));
}

/// Compatibility and union of maps associate: the two ways of folding three
/// maps together demand the same agreements and build the same map.
pub proof fn lemma_union_associates<Vl>(
    m1: Map<Seq<u8>, Vl>,
    m2: Map<Seq<u8>, Vl>,
    m3: Map<Seq<u8>, Vl>,
)
    ensures
        (maps_compatible(m1, m2) && maps_compatible(m1.union_prefer_right(m2), m3)) <==> (
        maps_compatible(m2, m3) && maps_compatible(m1, m2.union_prefer_right(m3))),
        (maps_compatible(m1, m2) && maps_compatible(m1.union_prefer_right(m2), m3))
            ==> m1.union_prefer_right(m2).union_prefer_right(m3) == m1.union_prefer_right(
            m2.union_prefer_right(m3),
        ),
{
    if maps_compatible(m1, m2) && maps_compatible(m1.union_prefer_right(m2), m3) {
        assert forall|k: Seq<u8>| #![auto] m2.contains_key(k) && m3.contains_key(k)
            implies m2[k] == m3[k] by {
            assert(m1.union_prefer_right(m2).contains_key(k));
            assert(m1.union_prefer_right(m2)[k] == m2[k]);
        }
        assert forall|k: Seq<u8>| #![auto]
            m1.contains_key(k) && m2.union_prefer_right(m3).contains_key(k)
            implies m1[k] == m2.union_prefer_right(m3)[k] by {
            assert(m1.union_prefer_right(m2).contains_key(k));
            if m3.contains_key(k) {
                if m2.contains_key(k) {
                    assert(m1[k] == m2[k]);
                    assert(m1.union_prefer_right(m2)[k] == m2[k]);
                } else {
                    assert(m1.union_prefer_right(m2)[k] == m1[k]);
                }
                assert(m1.union_prefer_right(m2)[k] == m3[k]);
                assert(m2.union_prefer_right(m3)[k] == m3[k]);
            } else {
                assert(m2.contains_key(k));
                assert(m1[k] == m2[k]);
                assert(m2.union_prefer_right(m3)[k] == m2[k]);
            }
        }
        assert(m1.union_prefer_right(m2).union_prefer_right(m3) =~= m1.union_prefer_right(
            m2.union_prefer_right(m3),
        ));
    }
    if maps_compatible(m2, m3) && maps_compatible(m1, m2.union_prefer_right(m3)) {
        assert forall|k: Seq<u8>| #![auto] m1.contains_key(k) && m2.contains_key(k)
            implies m1[k] == m2[k] by {
            assert(m2.union_prefer_right(m3).contains_key(k));
            if m3.contains_key(k) {
                assert(m2.union_prefer_right(m3)[k] == m3[k]);
                assert(m2[k] == m3[k]);
                assert(m1[k] == m3[k]);
            } else {
                assert(m2.union_prefer_right(m3)[k] == m2[k]);
                assert(m1[k] == m2[k]);
            }
        }
        assert forall|k: Seq<u8>| #![auto]
            m1.union_prefer_right(m2).contains_key(k) && m3.contains_key(k)
            implies m1.union_prefer_right(m2)[k] == m3[k] by {
            if m2.contains_key(k) {
                assert(m1.union_prefer_right(m2)[k] == m2[k]);
                assert(m2[k] == m3[k]);
            } else {
                assert(m1.contains_key(k));
                assert(m1.union_prefer_right(m2)[k] == m1[k]);
                assert(m2.union_prefer_right(m3).contains_key(k));
                assert(m2.union_prefer_right(m3)[k] == m3[k]);
                assert(m1[k] == m3[k]);
            }
        }
    }
}

/// The record form of `lemma_union_associates`, over well-formed entry
/// sequences and their deterministic unions.
pub proof fn lemma_merge_seq_associates<Vl>(
    s1: Seq<(Seq<u8>, Vl)>,
    s2: Seq<(Seq<u8>, Vl)>,
    s3: Seq<(Seq<u8>, Vl)>,
)
    requires
        keys_unique(s1),
        keys_unique(s2),
        keys_unique(s3),
    ensures
        (maps_compatible(map_of(s1), map_of(s2)) && maps_compatible(
            map_of(merge_seq(s1, s2)),
            map_of(s3),
        )) <==> (maps_compatible(map_of(s2), map_of(s3)) && maps_compatible(
            map_of(s1),
            map_of(merge_seq(s2, s3)),
        )),
        (maps_compatible(map_of(s1), map_of(s2)) && maps_compatible(
            map_of(merge_seq(s1, s2)),
            map_of(s3),
        )) ==> map_of(merge_seq(merge_seq(s1, s2), s3)) == map_of(
            merge_seq(s1, merge_seq(s2, s3)),
        ),
{
    lemma_union_associates(map_of(s1), map_of(s2), map_of(s3));
    if maps_compatible(map_of(s1), map_of(s2)) {
        lemma_merge_seq_map(s1, s2);
        if maps_compatible(map_of(merge_seq(s1, s2)), map_of(s3)) {
            lemma_merge_seq_map(s2, s3);
            lemma_merge_seq_map(merge_seq(s1, s2), s3);
            lemma_merge_seq_map(s1, merge_seq(s2, s3));
        }
    }
    if maps_compatible(map_of(s2), map_of(s3)) {
        lemma_merge_seq_map(s2, s3);
        if maps_compatible(map_of(s1), map_of(merge_seq(s2, s3))) {
            lemma_merge_seq_map(s1, s2);
            lemma_merge_seq_map(merge_seq(s1, s2), s3);
        }
    }
}

/// Compatibility and union of input records associate.
pub proof fn lemma_input_merge_associates(x: InputView, y: InputView, z: InputView)
    requires
        input_view_wf(x),
        input_view_wf(y),
        input_view_wf(z),
    ensures
        (input_compatible(x, y) && input_compatible(input_merge(x, y), z)) <==> (
        input_compatible(y, z) && input_compatible(x, input_merge(y, z))),
        (input_compatible(x, y) && input_compatible(input_merge(x, y), z))
            ==> input_equivalent(
            input_merge(input_merge(x, y), z),
            input_merge(x, input_merge(y, z)),
        ),
{
    lemma_merge_seq_associates(x.partial_sigs, y.partial_sigs, z.partial_sigs);
    lemma_merge_seq_associates(x.bip32_derivation, y.bip32_derivation, z.bip32_derivation);
    lemma_merge_seq_associates(
        x.ripemd160_preimages,
        y.ripemd160_preimages,
        z.ripemd160_preimages,
    );
    lemma_merge_seq_associates(x.sha256_preimages, y.sha256_preimages, z.sha256_preimages);
    lemma_merge_seq_associates(x.hash160_preimages, y.hash160_preimages, z.hash160_preimages);
    lemma_merge_seq_associates(x.hash256_preimages, y.hash256_preimages, z.hash256_preimages);
    lemma_merge_seq_associates(x.tap_script_sigs, y.tap_script_sigs, z.tap_script_sigs);
    lemma_merge_seq_associates(x.tap_scripts, y.tap_scripts, z.tap_scripts);
    lemma_merge_seq_associates(x.tap_key_origins, y.tap_key_origins, z.tap_key_origins);
    lemma_merge_seq_associates(x.proprietary, y.proprietary, z.proprietary);
    lemma_merge_seq_associates(x.unknown, y.unknown, z.unknown);
}

/// Compatibility and union of output records associate.
pub proof fn lemma_output_merge_associates(x: OutputView, y: OutputView, z: OutputView)
    requires
        output_view_wf(x),
        output_view_wf(y),
        output_view_wf(z),
    ensures
        (output_compatible(x, y) && output_compatible(output_merge(x, y), z)) <==> (
        output_compatible(y, z) && output_compatible(x, output_merge(y, z))),
        (output_compatible(x, y) && output_compatible(output_merge(x, y), z))
            ==> output_equivalent(
            output_merge(output_merge(x, y), z),
            output_merge(x, output_merge(y, z)),
        ),
{
    lemma_merge_seq_associates(x.bip32_derivation, y.bip32_derivation, z.bip32_derivation);
    lemma_merge_seq_associates(x.tap_key_origins, y.tap_key_origins, z.tap_key_origins);
    lemma_merge_seq_associates(x.proprietary, y.proprietary, z.proprietary);
    lemma_merge_seq_associates(x.unknown, y.unknown, z.unknown);
}

/// The union of two containers for the same transaction describes that same
/// transaction.
pub proof fn lemma_merge_tx_data(a: PsbtView, b: PsbtView)
    requires
        valid_psbt(a),
        same_transaction(a, b),
    ensures
        psbt_merge(a, b).version == a.version,
        psbt_merge(a, b).inputs.len() == a.inputs.len(),
        psbt_merge(a, b).outputs.len() == a.outputs.len(),
        a.version == Version::V0 ==> psbt_merge(a, b).unsigned_tx == a.unsigned_tx,
        a.version == Version::V2 ==> forall|i: int| 0 <= i < a.inputs.len()
            ==> #[trigger] outpoint_of(psbt_merge(a, b), i) == outpoint_of(a, i),
        same_transaction(psbt_merge(a, b), a),
        same_transaction(a, psbt_merge(a, b)),
{
    let m = psbt_merge(a, b);
    if a.version == Version::V0 {
        assert(a.unsigned_tx is Some);
    }
    if a.version == Version::V2 {
        assert forall|i: int| 0 <= i < a.inputs.len() implies #[trigger] outpoint_of(m, i)
            == outpoint_of(a, i) by {
            assert(m.inputs[i] == input_merge(a.inputs[i], b.inputs[i]));
            assert(a.inputs[i].previous_tx_id is Some);
            assert(a.inputs[i].output_index is Some);
        }
    }
}

/// Combine associativity: folding three checked containers together succeeds
/// one way exactly when it succeeds the other way, and the two results are
/// equivalent.
pub proof fn lemma_combine_associative(a: PsbtView, b: PsbtView, c: PsbtView)
    requires
        psbt_view_wf(a),
        psbt_view_wf(b),
        psbt_view_wf(c),
        valid_psbt(a),
        valid_psbt(b),
        valid_psbt(c),
    ensures
        (combine_spec(a, b) is Ok && combine_spec(combine_spec(a, b)->Ok_0, c) is Ok) <==> (
        combine_spec(b, c) is Ok && combine_spec(a, combine_spec(b, c)->Ok_0) is Ok),
        (combine_spec(a, b) is Ok && combine_spec(combine_spec(a, b)->Ok_0, c) is Ok)
            ==> psbt_equivalent(
            combine_spec(combine_spec(a, b)->Ok_0, c)->Ok_0,
            combine_spec(a, combine_spec(b, c)->Ok_0)->Ok_0,
        ),
{
    lemma_merge_seq_associates(a.xpub, b.xpub, c.xpub);
    lemma_merge_seq_associates(a.proprietary, b.proprietary, c.proprietary);
    lemma_merge_seq_associates(a.unknown, b.unknown, c.unknown);
    if combine_spec(a, b) is Ok && combine_spec(combine_spec(a, b)->Ok_0, c) is Ok {
        let ab = psbt_merge(a, b);
        lemma_merge_tx_data(a, b);
        assert(same_transaction(b, c)) by {
            if a.version == Version::V2 {
                assert forall|i: int| 0 <= i < b.inputs.len() implies #[trigger] outpoint_of(b, i)
                    == outpoint_of(c, i) by {
                    assert(outpoint_of(a, i) == outpoint_of(b, i));
                    assert(outpoint_of(ab, i) == outpoint_of(c, i));
                    assert(outpoint_of(ab, i) == outpoint_of(a, i));
                }
            }
        }
        assert forall|i: int| 0 <= i < a.inputs.len() implies input_compatible(
            #[trigger] b.inputs[i],
            c.inputs[i],
        ) && input_compatible(a.inputs[i], input_merge(b.inputs[i], c.inputs[i])) by {
            assert(input_compatible(a.inputs[i], b.inputs[i]));
            assert(ab.inputs[i] == input_merge(a.inputs[i], b.inputs[i]));
            assert(input_compatible(ab.inputs[i], c.inputs[i]));
            lemma_input_merge_associates(a.inputs[i], b.inputs[i], c.inputs[i]);
        }
        assert forall|o: int| 0 <= o < a.outputs.len() implies output_compatible(
            #[trigger] b.outputs[o],
            c.outputs[o],
        ) && output_compatible(a.outputs[o], output_merge(b.outputs[o], c.outputs[o])) by {
            assert(output_compatible(a.outputs[o], b.outputs[o]));
            assert(ab.outputs[o] == output_merge(a.outputs[o], b.outputs[o]));
            assert(output_compatible(ab.outputs[o], c.outputs[o]));
            lemma_output_merge_associates(a.outputs[o], b.outputs[o], c.outputs[o]);
        }
        let bc = psbt_merge(b, c);
        lemma_merge_tx_data(b, c);
        assert(same_transaction(a, bc)) by {
            if a.version == Version::V2 {
                assert forall|i: int| 0 <= i < a.inputs.len() implies #[trigger] outpoint_of(a, i)
                    == outpoint_of(bc, i) by {
                    assert(outpoint_of(bc, i) == outpoint_of(b, i));
                    assert(outpoint_of(a, i) == outpoint_of(b, i));
                }
            }
        }
        assert(psbt_compatible(b, c));
        assert(psbt_compatible(a, bc)) by {
            assert forall|i: int| 0 <= i < a.inputs.len() implies input_compatible(
                #[trigger] a.inputs[i],
                bc.inputs[i],
            ) by {
                assert(bc.inputs[i] == input_merge(b.inputs[i], c.inputs[i]));
            }
            assert forall|o: int| 0 <= o < a.outputs.len() implies output_compatible(
                #[trigger] a.outputs[o],
                bc.outputs[o],
            ) by {
                assert(bc.outputs[o] == output_merge(b.outputs[o], c.outputs[o]));
            }
        }
        assert(combine_spec(b, c) is Ok);
        assert(combine_spec(a, combine_spec(b, c)->Ok_0) is Ok);
        // The two results are equivalent, field by field.
        let lhs = psbt_merge(ab, c);
        let rhs = psbt_merge(a, bc);
        assert forall|i: int| 0 <= i < lhs.inputs.len() implies input_equivalent(
            #[trigger] lhs.inputs[i],
            rhs.inputs[i],
        ) by {
            assert(ab.inputs[i] == input_merge(a.inputs[i], b.inputs[i]));
            assert(bc.inputs[i] == input_merge(b.inputs[i], c.inputs[i]));
            assert(lhs.inputs[i] == input_merge(ab.inputs[i], c.inputs[i]));
            assert(rhs.inputs[i] == input_merge(a.inputs[i], bc.inputs[i]));
            assert(input_compatible(a.inputs[i], b.inputs[i]));
            assert(input_compatible(ab.inputs[i], c.inputs[i]));
            lemma_input_merge_associates(a.inputs[i], b.inputs[i], c.inputs[i]);
        }
        assert forall|o: int| 0 <= o < lhs.outputs.len() implies output_equivalent(
            #[trigger] lhs.outputs[o],
            rhs.outputs[o],
        ) by {
            assert(ab.outputs[o] == output_merge(a.outputs[o], b.outputs[o]));
            assert(bc.outputs[o] == output_merge(b.outputs[o], c.outputs[o]));
            assert(lhs.outputs[o] == output_merge(ab.outputs[o], c.outputs[o]));
            assert(rhs.outputs[o] == output_merge(a.outputs[o], bc.outputs[o]));
            assert(output_compatible(a.outputs[o], b.outputs[o]));
            assert(output_compatible(ab.outputs[o], c.outputs[o]));
            lemma_output_merge_associates(a.outputs[o], b.outputs[o], c.outputs[o]);
        }
        assert(psbt_equivalent(lhs, rhs));
    }
    if combine_spec(b, c) is Ok && combine_spec(a, combine_spec(b, c)->Ok_0) is Ok {
        let bc = psbt_merge(b, c);
        lemma_merge_tx_data(b, c);
        assert(same_transaction(a, b)) by {
            if a.version == Version::V2 {
                assert forall|i: int| 0 <= i < a.inputs.len() implies #[trigger] outpoint_of(a, i)
                    == outpoint_of(b, i) by {
                    assert(outpoint_of(a, i) == outpoint_of(bc, i));
                    assert(outpoint_of(bc, i) == outpoint_of(b, i));
                }
            }
        }
        assert forall|i: int| 0 <= i < a.inputs.len() implies input_compatible(
            #[trigger] a.inputs[i],
            b.inputs[i],
        ) && input_compatible(input_merge(a.inputs[i], b.inputs[i]), c.inputs[i]) by {
            assert(input_compatible(b.inputs[i], c.inputs[i]));
            assert(bc.inputs[i] == input_merge(b.inputs[i], c.inputs[i]));
            assert(input_compatible(a.inputs[i], bc.inputs[i]));
            lemma_input_merge_associates(a.inputs[i], b.inputs[i], c.inputs[i]);
        }
        assert forall|o: int| 0 <= o < a.outputs.len() implies output_compatible(
            #[trigger] a.outputs[o],
            b.outputs[o],
        ) && output_compatible(output_merge(a.outputs[o], b.outputs[o]), c.outputs[o]) by {
            assert(output_compatible(b.outputs[o], c.outputs[o]));
            assert(bc.outputs[o] == output_merge(b.outputs[o], c.outputs[o]));
            assert(output_compatible(a.outputs[o], bc.outputs[o]));
            lemma_output_merge_associates(a.outputs[o], b.outputs[o], c.outputs[o]);
        }
        assert(psbt_compatible(a, b));
        let ab = psbt_merge(a, b);
        lemma_merge_tx_data(a, b);
        assert(same_transaction(ab, c)) by {
            if a.version == Version::V2 {
                assert forall|i: int| 0 <= i < a.inputs.len() implies #[trigger] outpoint_of(ab, i)
                    == outpoint_of(c, i) by {
                    assert(outpoint_of(ab, i) == outpoint_of(a, i));
                    assert(outpoint_of(a, i) == outpoint_of(bc, i));
                    assert(outpoint_of(bc, i) == outpoint_of(b, i));
                    assert(outpoint_of(b, i) == outpoint_of(c, i));
                }
            }
        }
        assert(psbt_compatible(ab, c)) by {
            assert forall|i: int| 0 <= i < a.inputs.len() implies input_compatible(
                #[trigger] ab.inputs[i],
                c.inputs[i],
            ) by {
                assert(ab.inputs[i] == input_merge(a.inputs[i], b.inputs[i]));
            }
            assert forall|o: int| 0 <= o < a.outputs.len() implies output_compatible(
                #[trigger] ab.outputs[o],
                c.outputs[o],
            ) by {
                assert(ab.outputs[o] == output_merge(a.outputs[o], b.outputs[o]));
            }
        }
        assert(combine_spec(a, b) is Ok);
        assert(combine_spec(combine_spec(a, b)->Ok_0, c) is Ok);
    }
}

/// Finalize idempotence: a record that finalization has produced is already
/// finalized, so finalizing it again is a no-op returning the same record.
pub proof fn lemma_finalize_idempotent(x: InputView, f: InputView)
    requires
        finalize_spec(x) == FinalizeOutcome::Done(f),
    ensures
        is_finalized_view(f),
        finalize_spec(f) == FinalizeOutcome::Done(f),
{
    if is_finalized_view(x) {
        assert(f == x);
    }
}

} // verus!
