//! Views of byte strings, optional scalars and witness stacks, and small
//! executable helpers (deep copies, equality tests) whose results are pinned
//! to those views.

use vstd::prelude::*;

verus! {

/// The contents of an optional byte string.
pub open spec fn opt_bytes_view(o: Option<Vec<u8>>) -> Option<Seq<u8>> {
    match o {
        None => None,
        Some(v) => Some(v@),
    }
}

/// The contents of a witness: a stack of byte strings.
pub open spec fn witness_view(w: Vec<Vec<u8>>) -> Seq<Seq<u8>> {
    Seq::new(w@.len(), |i: int| w@[i]@)
}

/// The contents of an optional witness.
pub open spec fn opt_witness_view(o: Option<Vec<Vec<u8>>>) -> Option<Seq<Seq<u8>>> {
    match o {
        None => None,
        Some(w) => Some(witness_view(w)),
    }
}

/// Copies a byte string; the copy has exactly the same contents.
pub fn clone_bytes(v: &Vec<u8>) -> (r: Vec<u8>)
    ensures
        r@ == v@,
{
    let r = v.clone();
    proof {
        assert(r@ =~= v@);
    }
    r
}

/// Tests two byte strings for equality of their contents.
pub fn bytes_eq(a: &Vec<u8>, b: &Vec<u8>) -> (r: bool)
    ensures
        r == (a@ == b@),
{
    let r = *a == *b;
    proof {
        if r {
            assert(a@ =~= b@);
        } else {
            if a@ == b@ {
                assert(a@.len() == b@.len());
                assert(forall|i: int| 0 <= i < a@.len() ==> a@[i] == b@[i]);
                assert(false);
            }
        }
    }
    r
}

/// Copies an optional byte string.
pub fn clone_opt_bytes(v: &Option<Vec<u8>>) -> (r: Option<Vec<u8>>)
    ensures
        opt_bytes_view(r) == opt_bytes_view(*v),
{
    match v {
        None => None,
        Some(b) => Some(clone_bytes(b)),
    }
}

/// Copies a witness.
pub fn clone_witness(v: &Vec<Vec<u8>>) -> (r: Vec<Vec<u8>>)
    ensures
        witness_view(r) == witness_view(*v),
{
    let mut out: Vec<Vec<u8>> = Vec::new();
    let mut i: usize = 0;
    while i < v.len()
        invariant
            i <= v.len(),
            out.len() == i,
            forall|j: int| 0 <= j < i ==> out@[j]@ == v@[j]@,
        decreases v.len() - i,
    {
        out.push(clone_bytes(&v[i]));
        i = i + 1;
    }
    proof {
        assert(witness_view(out) =~= witness_view(*v));
    }
    out
}

/// Tests two witnesses for equality of their contents.
pub fn witness_eq(a: &Vec<Vec<u8>>, b: &Vec<Vec<u8>>) -> (r: bool)
    ensures
        r == (witness_view(*a) == witness_view(*b)),
{
    if a.len() != b.len() {
        proof {
            assert(witness_view(*a).len() != witness_view(*b).len());
        }
        return false;
    }
    let mut i: usize = 0;
    while i < a.len()
        invariant
            i <= a.len(),
            a.len() == b.len(),
            forall|j: int| 0 <= j < i ==> a@[j]@ == b@[j]@,
        decreases a.len() - i,
    {
        if !bytes_eq(&a[i], &b[i]) {
            proof {
                assert(witness_view(*a)[i as int] != witness_view(*b)[i as int]);
            }
            return false;
        }
        i = i + 1;
    }
    proof {
        assert(witness_view(*a) =~= witness_view(*b));
    }
    true
}

/// Copies an optional witness.
pub fn clone_opt_witness(v: &Option<Vec<Vec<u8>>>) -> (r: Option<Vec<Vec<u8>>>)
    ensures
        opt_witness_view(r) == opt_witness_view(*v),
{
    match v {
        None => None,
        Some(w) => Some(clone_witness(w)),
    }
}

/// Unions two optional byte-string fields; two different values conflict.
pub fn merge_opt_bytes(a: &Option<Vec<u8>>, b: &Option<Vec<u8>>) -> (r: Result<
    Option<Vec<u8>>,
    (),
>)
    ensures
        match r {
            Ok(m) => crate::kvmap::opt_compatible(opt_bytes_view(*a), opt_bytes_view(*b))
                && opt_bytes_view(m) == crate::kvmap::opt_merge(
                opt_bytes_view(*a),
                opt_bytes_view(*b),
            ),
            Err(()) => !crate::kvmap::opt_compatible(opt_bytes_view(*a), opt_bytes_view(*b)),
        },
{
    match (a, b) {
        (Some(x), Some(y)) => {
            if bytes_eq(x, y) {
                Ok(Some(clone_bytes(x)))
            } else {
                Err(())
            }
        }
        (Some(x), None) => Ok(Some(clone_bytes(x))),
        (None, Some(y)) => Ok(Some(clone_bytes(y))),
        (None, None) => Ok(None),
    }
}

/// Unions two optional witness fields; two different values conflict.
pub fn merge_opt_witness(a: &Option<Vec<Vec<u8>>>, b: &Option<Vec<Vec<u8>>>) -> (r: Result<
    Option<Vec<Vec<u8>>>,
    (),
>)
    ensures
        match r {
            Ok(m) => crate::kvmap::opt_compatible(opt_witness_view(*a), opt_witness_view(*b))
                && opt_witness_view(m) == crate::kvmap::opt_merge(
                opt_witness_view(*a),
                opt_witness_view(*b),
            ),
            Err(()) => !crate::kvmap::opt_compatible(opt_witness_view(*a), opt_witness_view(*b)),
        },
{
    match (a, b) {
        (Some(x), Some(y)) => {
            if witness_eq(x, y) {
                Ok(Some(clone_witness(x)))
            } else {
                Err(())
            }
        }
        (Some(x), None) => Ok(Some(clone_witness(x))),
        (None, Some(y)) => Ok(Some(clone_witness(y))),
        (None, None) => Ok(None),
    }
}

/// Unions two optional 32-bit scalar fields; two different values conflict.
pub fn merge_opt_u32(a: &Option<u32>, b: &Option<u32>) -> (r: Result<Option<u32>, ()>)
    ensures
        match r {
            Ok(m) => crate::kvmap::opt_compatible(*a, *b) && m == crate::kvmap::opt_merge(*a, *b),
            Err(()) => !crate::kvmap::opt_compatible(*a, *b),
        },
{
    match (a, b) {
        (Some(x), Some(y)) => {
            if *x == *y {
                Ok(Some(*x))
            } else {
                Err(())
            }
        }
        (Some(x), None) => Ok(Some(*x)),
        (None, Some(y)) => Ok(Some(*y)),
        (None, None) => Ok(None),
    }
}

/// Unions two optional amount fields; two different values conflict.
pub fn merge_opt_i64(a: &Option<i64>, b: &Option<i64>) -> (r: Result<Option<i64>, ()>)
    ensures
        match r {
            Ok(m) => crate::kvmap::opt_compatible(*a, *b) && m == crate::kvmap::opt_merge(*a, *b),
            Err(()) => !crate::kvmap::opt_compatible(*a, *b),
        },
{
    match (a, b) {
        (Some(x), Some(y)) => {
            if *x == *y {
                Ok(Some(*x))
            } else {
                Err(())
            }
        }
        (Some(x), None) => Ok(Some(*x)),
        (None, Some(y)) => Ok(Some(*y)),
        (None, None) => Ok(None),
    }
}

} // verus!
