//! The state-machine table generator, for enums whose variants are all field-less.
use vstd::prelude::*;
use vstd::arithmetic::div_mod::{lemma_fundamental_div_mod, lemma_fundamental_div_mod_converse};
use vstd::arithmetic::mul::lemma_mul_strict_inequality;
use crate::model::{EnumDescription, FieldShape, ItemData, VariantDesc};
use crate::naming::{snake_case_of, to_snake_case};
use crate::plan::DeriveError;

verus! {

/// The dispatch tables of a state machine whose states are the enum's variants.
pub struct FsmPlan {
    /// The module that holds the per-variant types.
    pub module: String,
    /// The states, by variant position: the enter and the exit table each hold one
    /// entry per state, firing the state's type.
    pub states: Vec<usize>,
    /// The transition table: one entry per ordered pair `(from, to)` of states.
    pub transitions: Vec<(usize, usize)>,
}

/// Every ordered pair of states below `n`, `from` first, in row order.
pub open spec fn all_pairs(n: nat) -> Seq<(usize, usize)> {
    Seq::new(n * n, |k: int| ((k / n as int) as usize, (k % n as int) as usize))
}

/// The states `0..n`.
pub open spec fn all_states(n: nat) -> Seq<usize> {
    Seq::new(n, |i: int| i as usize)
}

/// The transition predicate that the generator provides: every transition is allowed.
pub fn can_transition(from: usize, to: usize) -> (r: bool)
    ensures
        r,
{
    true
}

/// Builds the state tables for `desc`. Every variant must be field-less: the
/// first one that is not is reported.
pub fn derive_fsm_tables(desc: &EnumDescription) -> (r: Result<FsmPlan, DeriveError>)
    requires
        desc.data matches ItemData::Enum(vs) ==> vs@.len() * vs@.len() <= usize::MAX,
    ensures
        desc.data is NotEnum ==> r == Err::<FsmPlan, DeriveError>(DeriveError::NotAnEnum),
        desc.data matches ItemData::Enum(vs) ==> match r {
            Ok(p) => {
                &&& forall|i: int| 0 <= i < vs@.len() ==> (#[trigger] vs@[i]).shape is Unit
                &&& p.module@ == snake_case_of(desc.name@)
                &&& p.states@ == all_states(vs@.len())
                &&& p.transitions@ == all_pairs(vs@.len())
            },
            Err(e) => exists|i: int| {
                &&& 0 <= i < vs@.len()
                &&& e == DeriveError::StateWithFields { variant: i as usize }
                &&& !((#[trigger] vs@[i]).shape is Unit)
                &&& forall|j: int| 0 <= j < i ==> (#[trigger] vs@[j]).shape is Unit
            },
        },
{
    let vs = match &desc.data {
        ItemData::NotEnum => return Err(DeriveError::NotAnEnum),
        ItemData::Enum(vs) => vs,
    };
    let n = vs.len();
    let mut states: Vec<usize> = Vec::new();
    let mut i: usize = 0;
    while i < n
        invariant
            desc.data == ItemData::Enum(*vs),
            n == vs@.len(),
            i <= n,
            forall|j: int| 0 <= j < i ==> (#[trigger] vs@[j]).shape is Unit,
            states@ == all_states(i as nat),
        decreases n - i,
    {
        let unit = match &vs[i].shape {
            FieldShape::Unit => true,
            _ => false,
        };
        if !unit {
            return Err(DeriveError::StateWithFields { variant: i });
        }
        proof {
            assert forall|j: int| 0 <= j < i + 1 implies (#[trigger] vs@[j]).shape is Unit by {}
        }
        states.push(i);
        assert(states@ =~= all_states((i + 1) as nat));
        i += 1;
    }
    let total = n * n;
    let mut transitions: Vec<(usize, usize)> = Vec::new();
    let mut k: usize = 0;
    while k < total
        invariant
            desc.data == ItemData::Enum(*vs),
            n == vs@.len(),
            total == n * n,
            k <= total,
            transitions@ == Seq::new(k as nat, |x: int| ((x / n as int) as usize, (x % n as int) as usize)),
        decreases total - k,
    {
        proof {
            if n == 0 {
                assert(total == 0);
            }
        }
        transitions.push((k / n, k % n));
        assert(transitions@ =~= Seq::new((k + 1) as nat, |x: int| ((x / n as int) as usize, (x % n as int) as usize)));
        k += 1;
    }
    let module = to_snake_case(desc.name.as_str());
    Ok(FsmPlan { module, states, transitions })
}

/// The transition table of `n` states has `n * n` entries, and each ordered pair
/// of states stands in it exactly once, at `from * n + to`.
pub proof fn lemma_transitions_cover_each_pair_once(n: nat, from: int, to: int)
    requires
        n <= usize::MAX,
        0 <= from < n,
        0 <= to < n,
    ensures
        all_pairs(n).len() == n * n,
        0 <= from * n + to < n * n,
        all_pairs(n)[from * n + to] == (from as usize, to as usize),
        forall|k: int| 0 <= k < n * n && #[trigger] all_pairs(n)[k] == (from as usize, to as usize) ==> k == from * n + to,
{
    let m = n as int;
    let k0 = from * m + to;
    assert(0 <= from * m) by (nonlinear_arith)
        requires
            0 <= from,
            0 <= m,
    ;
    assert(k0 < m * m) by (nonlinear_arith)
        requires
            0 <= from < m,
            0 <= to < m,
            k0 == from * m + to,
    ;
    lemma_fundamental_div_mod_converse(k0, m, from, to);
    assert forall|k: int| 0 <= k < n * n && #[trigger] all_pairs(n)[k] == (from as usize, to as usize) implies k
        == from * n + to by {
        lemma_fundamental_div_mod(k, m);
        let q = k / m;
        let r = k % m;
        assert(0 <= r < m);
        assert(0 <= q < m) by (nonlinear_arith)
            requires
                0 <= k < m * m,
                k == m * q + r,
                0 <= r < m,
        ;
        assert(q == from);
        assert(r == to);
        assert(k == from * m + to) by (nonlinear_arith)
            requires
                k == m * q + r,
                q == from,
                r == to,
        ;
    }
}

} // verus!
