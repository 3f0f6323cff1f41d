//! The sponge permutations, evaluated directly on field elements.
//!
//! A permutation is a chain of layers over a state of `rate + capacity`
//! lanes: one linear mixing layer, then one layer per round (add the round's
//! constants, raise the active lanes to the fifth power, mix), then one more
//! mixing layer.

use crate::field::{all_canonical, is_canonical, spec_add, spec_pow5, values, Felt, MODULUS};
use vstd::arithmetic::div_mod::*;
use vstd::prelude::*;

verus! {

/// The two round structures.
#[derive(Clone, Copy, Debug, PartialEq, Eq, Structural, Hash)]
pub enum GateFamily {
    /// Every round raises every lane to the fifth power.
    Poseidon,
    /// Rounds alternate: the first, third, ... raise every lane, the
    /// others only the leading `partial_width` lanes.
    Poseidon2,
}

/// The mathematical content of a parameter set.
pub struct PermutationSpec {
    pub rate: nat,
    pub capacity: nat,
    pub partial_width: nat,
    pub mds: Seq<Seq<int>>,
    pub round_constants: Seq<Seq<int>>,
}

impl PermutationSpec {
    /// Number of lanes of the state.
    pub open spec fn width(self) -> nat {
        self.rate + self.capacity
    }

    /// Number of rounds.
    pub open spec fn rounds(self) -> nat {
        self.round_constants.len()
    }

    /// Number of layers: the rounds and the two mixing layers around them.
    pub open spec fn layers(self) -> nat {
        self.rounds() + 2
    }

    /// The shape that every parameter set has.
    pub open spec fn wf(self) -> bool {
        &&& self.partial_width <= self.width()
        &&& self.mds.len() == self.width()
        &&& forall|i: int| 0 <= i < self.mds.len() ==> (#[trigger] self.mds[i]).len() == self.width()
        &&& forall|r: int|
            0 <= r < self.round_constants.len() ==> (#[trigger] self.round_constants[r]).len()
                == self.width()
    }
}

/// `a[0] * b[0] + ... + a[n - 1] * b[n - 1]`, over the integers.
pub open spec fn inner_product(a: Seq<int>, b: Seq<int>, n: int) -> int
    decreases n,
{
    if n <= 0 {
        0
    } else {
        inner_product(a, b, n - 1) + a[n - 1] * b[n - 1]
    }
}

/// One lane of the mixing layer: a row of the matrix times the state.
pub open spec fn spec_mix_lane(row: Seq<int>, state: Seq<int>) -> int {
    inner_product(row, state, state.len() as int) % (MODULUS as int)
}

/// The mixing layer: the matrix times the state.
pub open spec fn spec_mix(mds: Seq<Seq<int>>, state: Seq<int>) -> Seq<int> {
    Seq::new(state.len(), |i: int| spec_mix_lane(mds[i], state))
}

/// The state with a round's constants added lane by lane.
pub open spec fn spec_add_constants(state: Seq<int>, constants: Seq<int>) -> Seq<int> {
    Seq::new(state.len(), |i: int| spec_add(state[i], constants[i]))
}

/// The state with its leading `active` lanes raised to the fifth power.
pub open spec fn spec_sbox(state: Seq<int>, active: nat) -> Seq<int> {
    Seq::new(
        state.len(),
        |i: int|
            if i < active {
                spec_pow5(state[i])
            } else {
                state[i]
            },
    )
}

/// How many lanes round `round` raises to the fifth power.
pub open spec fn spec_active_lanes(family: GateFamily, p: PermutationSpec, round: int) -> nat {
    match family {
        GateFamily::Poseidon => p.width(),
        GateFamily::Poseidon2 => if round % 2 == 0 {
            p.width()
        } else {
            p.partial_width
        },
    }
}

/// What layer `layer` makes of `state`.
pub open spec fn spec_layer(
    family: GateFamily,
    p: PermutationSpec,
    layer: int,
    state: Seq<int>,
) -> Seq<int> {
    if 1 <= layer <= p.rounds() {
        spec_mix(
            p.mds,
            spec_sbox(
                spec_add_constants(state, p.round_constants[layer - 1]),
                spec_active_lanes(family, p, layer - 1),
            ),
        )
    } else {
        spec_mix(p.mds, state)
    }
}

/// The state after the first `count` layers.
pub open spec fn spec_apply_layers(
    family: GateFamily,
    p: PermutationSpec,
    state: Seq<int>,
    count: int,
) -> Seq<int>
    decreases count,
{
    if count <= 0 {
        state
    } else {
        spec_layer(family, p, count - 1, spec_apply_layers(family, p, state, count - 1))
    }
}

/// The permuted state.
pub open spec fn spec_permutation(family: GateFamily, p: PermutationSpec, state: Seq<int>) -> Seq<
    int,
> {
    spec_apply_layers(family, p, state, p.layers() as int)
}

/// The residues of a matrix, row by row.
pub open spec fn matrix_values(m: Seq<Vec<Felt>>) -> Seq<Seq<int>> {
    Seq::new(m.len(), |i: int| values(m[i]@))
}

/// Every layer keeps the number of lanes.
pub proof fn lemma_layer_len(family: GateFamily, p: PermutationSpec, layer: int, state: Seq<int>)
    ensures
        spec_layer(family, p, layer, state).len() == state.len(),
{
}

/// Every prefix of the chain keeps the number of lanes.
pub proof fn lemma_apply_layers_len(
    family: GateFamily,
    p: PermutationSpec,
    state: Seq<int>,
    count: int,
)
    ensures
        spec_apply_layers(family, p, state, count).len() == state.len(),
    decreases count,
{
    if count > 0 {
        lemma_apply_layers_len(family, p, state, count - 1);
    }
}

/// Every lane that leaves a layer is a canonical residue.
pub proof fn lemma_layer_canonical(
    family: GateFamily,
    p: PermutationSpec,
    layer: int,
    state: Seq<int>,
)
    ensures
        all_canonical(spec_layer(family, p, layer, state)),
{
    let out = spec_layer(family, p, layer, state);
    assert forall|i: int| 0 <= i < out.len() implies is_canonical(#[trigger] out[i]) by {
        if 1 <= layer <= p.rounds() {
            let inner = spec_sbox(
                spec_add_constants(state, p.round_constants[layer - 1]),
                spec_active_lanes(family, p, layer - 1),
            );
            lemma_mod_bound(inner_product(p.mds[i], inner, inner.len() as int), MODULUS as int);
        } else {
            lemma_mod_bound(inner_product(p.mds[i], state, state.len() as int), MODULUS as int);
        }
    }
}

/// The constants of a permutation: its widths, its mixing matrix and the
/// constants of each round.
#[derive(Debug)]
pub struct PermutationParams {
    rate: usize,
    capacity: usize,
    partial_width: usize,
    mds: Vec<Vec<Felt>>,
    round_constants: Vec<Vec<Felt>>,
}

impl View for PermutationParams {
    type V = PermutationSpec;

    closed spec fn view(&self) -> PermutationSpec {
        PermutationSpec {
            rate: self.rate as nat,
            capacity: self.capacity as nat,
            partial_width: self.partial_width as nat,
            mds: matrix_values(self.mds@),
            round_constants: matrix_values(self.round_constants@),
        }
    }
}

/// Whether every row of `m` has `width` entries.
fn rows_have_width(m: &Vec<Vec<Felt>>, width: usize) -> (ok: bool)
    ensures
        ok == (forall|i: int| 0 <= i < m@.len() ==> (#[trigger] m@[i])@.len() == width),
{
    let mut i: usize = 0;
    while i < m.len()
        invariant
            i <= m.len(),
            forall|k: int| 0 <= k < i ==> (#[trigger] m@[k])@.len() == width,
        decreases m.len() - i,
    {
        if m[i].len() != width {
            return false;
        }
        i += 1;
    }
    true
}

impl PermutationParams {
    #[verifier::type_invariant]
    spec fn shaped(&self) -> bool {
        Self::spec_accepts(
            self.rate,
            self.capacity,
            self.partial_width,
            self.mds@,
            self.round_constants@,
        )
    }

    proof fn lemma_shaped_wf(&self)
        requires
            self.shaped(),
        ensures
            self@.wf(),
    {
        let p = self@;
        assert forall|i: int| 0 <= i < p.mds.len() implies (#[trigger] p.mds[i]).len()
            == p.width() by {
            assert(self.mds@[i]@.len() == p.width());
        }
        assert forall|r: int| 0 <= r < p.round_constants.len() implies (
        #[trigger] p.round_constants[r]).len() == p.width() by {
            assert(self.round_constants@[r]@.len() == p.width());
        }
    }

    /// Whether the parts make a parameter set: a square matrix of the
    /// state's width, constants for every lane of every round, no more
    /// partial lanes than lanes, and widths and layers that can be counted.
    pub open spec fn spec_accepts(
        rate: usize,
        capacity: usize,
        partial_width: usize,
        mds: Seq<Vec<Felt>>,
        round_constants: Seq<Vec<Felt>>,
    ) -> bool {
        &&& rate + capacity <= usize::MAX
        &&& partial_width <= rate + capacity
        &&& mds.len() == rate + capacity
        &&& forall|i: int| 0 <= i < mds.len() ==> (#[trigger] mds[i])@.len() == rate + capacity
        &&& forall|r: int|
            0 <= r < round_constants.len() ==> (#[trigger] round_constants[r])@.len() == rate
                + capacity
        &&& round_constants.len() + 2 <= usize::MAX
    }

    /// A parameter set from its parts, or `None` where they do not fit
    /// together.
    pub fn new(
        rate: usize,
        capacity: usize,
        partial_width: usize,
        mds: Vec<Vec<Felt>>,
        round_constants: Vec<Vec<Felt>>,
    ) -> (r: Option<PermutationParams>)
        ensures
            r is Some <==> Self::spec_accepts(
                rate,
                capacity,
                partial_width,
                mds@,
                round_constants@,
            ),
            r matches Some(p) ==> p@ == (PermutationSpec {
                rate: rate as nat,
                capacity: capacity as nat,
                partial_width: partial_width as nat,
                mds: matrix_values(mds@),
                round_constants: matrix_values(round_constants@),
            }) && p@.wf(),
    {
        if rate > usize::MAX - capacity {
            return None;
        }
        let width: usize = rate + capacity;
        if partial_width > width || mds.len() != width || round_constants.len() > usize::MAX - 2 {
            return None;
        }
        if !rows_have_width(&mds, width) || !rows_have_width(&round_constants, width) {
            return None;
        }
        let params = PermutationParams { rate, capacity, partial_width, mds, round_constants };
        proof {
            params.lemma_shaped_wf();
        }
        Some(params)
    }

    /// Number of lanes that take input.
    pub fn rate(&self) -> (r: usize)
        ensures
            r == self@.rate,
    {
        self.rate
    }

    /// Number of lanes held back.
    pub fn capacity(&self) -> (r: usize)
        ensures
            r == self@.capacity,
    {
        self.capacity
    }

    /// Number of lanes of the state.
    pub fn width(&self) -> (r: usize)
        ensures
            r == self@.width(),
            self@.wf(),
            self@.layers() <= usize::MAX,
    {
        proof {
            use_type_invariant(self);
            self.lemma_shaped_wf();
        }
        self.rate + self.capacity
    }

    /// Number of rounds.
    pub fn rounds(&self) -> (r: usize)
        ensures
            r == self@.rounds(),
    {
        self.round_constants.len()
    }

    /// Number of layers.
    pub fn layers(&self) -> (r: usize)
        ensures
            r == self@.layers(),
    {
        proof {
            use_type_invariant(self);
        }
        self.round_constants.len() + 2
    }

    /// How many lanes round `round` raises to the fifth power.
    pub fn active_lanes(&self, family: GateFamily, round: usize) -> (r: usize)
        ensures
            r == spec_active_lanes(family, self@, round as int),
            r <= self@.width(),
    {
        proof {
            use_type_invariant(self);
        }
        match family {
            GateFamily::Poseidon => self.rate + self.capacity,
            GateFamily::Poseidon2 => if round % 2 == 0 {
                self.rate + self.capacity
            } else {
                self.partial_width
            },
        }
    }

    /// The mixing layer applied to `state`.
    pub fn mix(&self, state: &Vec<Felt>) -> (out: Vec<Felt>)
        requires
            state@.len() == self@.width(),
        ensures
            values(out@) == spec_mix(self@.mds, values(state@)),
    {
        proof {
            use_type_invariant(self);
        }
        let width: usize = state.len();
        let ghost s = values(state@);
        let mut out: Vec<Felt> = Vec::new();
        let mut i: usize = 0;
        while i < width
            invariant
                i <= width,
                width == state@.len(),
                width == self.mds@.len(),
                s == values(state@),
                forall|k: int| 0 <= k < self.mds@.len() ==> (#[trigger] self.mds@[k])@.len() == width,
                out@.len() == i,
                forall|k: int| 0 <= k < i ==> (#[trigger] out@[k])@ == spec_mix_lane(self@.mds[k], s),
            decreases width - i,
        {
            let row = &self.mds[i];
            let ghost r = values(row@);
            assert(self@.mds[i as int] == r);
            let mut acc = Felt::zero();
            let mut j: usize = 0;
            while j < width
                invariant
                    j <= width,
                    width == state@.len(),
                    width == row@.len(),
                    s == values(state@),
                    r == values(row@),
                    acc@ == inner_product(r, s, j as int) % (MODULUS as int),
                decreases width - j,
            {
                let term = row[j].mul(&state[j]);
                acc = acc.add(&term);
                proof {
                    lemma_add_mod_noop(
                        inner_product(r, s, j as int),
                        r[j as int] * s[j as int],
                        MODULUS as int,
                    );
                }
                j += 1;
            }
            out.push(acc);
            i += 1;
        }
        assert(values(out@) =~= spec_mix(self@.mds, s));
        out
    }

    /// What layer `layer` makes of `state`.
    pub fn apply_layer(&self, family: GateFamily, layer: usize, state: &Vec<Felt>) -> (out: Vec<
        Felt,
    >)
        requires
            state@.len() == self@.width(),
        ensures
            values(out@) == spec_layer(family, self@, layer as int, values(state@)),
            out@.len() == state@.len(),
    {
        proof {
            use_type_invariant(self);
        }
        if 1 <= layer && layer <= self.round_constants.len() {
            let width: usize = state.len();
            let active: usize = self.active_lanes(family, layer - 1);
            let constants = &self.round_constants[layer - 1];
            let ghost s = values(state@);
            let ghost c = values(constants@);
            assert(self@.round_constants[layer - 1] == c);
            let mut inner: Vec<Felt> = Vec::new();
            let mut i: usize = 0;
            while i < width
                invariant
                    i <= width,
                    width == state@.len(),
                    width == constants@.len(),
                    s == values(state@),
                    c == values(constants@),
                    inner@.len() == i,
                    forall|k: int|
                        0 <= k < i ==> (#[trigger] inner@[k])@ == spec_sbox(
                            spec_add_constants(s, c),
                            active as nat,
                        )[k],
                decreases width - i,
            {
                let shifted = state[i].add(&constants[i]);
                let lane = if i < active {
                    shifted.pow5()
                } else {
                    shifted
                };
                inner.push(lane);
                i += 1;
            }
            assert(values(inner@) =~= spec_sbox(spec_add_constants(s, c), active as nat));
            let out = self.mix(&inner);
            assert(out@.len() == values(out@).len());
            out
        } else {
            let out = self.mix(state);
            assert(out@.len() == values(out@).len());
            out
        }
    }
}

/// Replaces `state` by its permutation under `family`.
pub fn permutation(params: &PermutationParams, family: GateFamily, state: &mut Vec<Felt>)
    requires
        old(state)@.len() == params@.width(),
    ensures
        values(final(state)@) == spec_permutation(family, params@, values(old(state)@)),
        final(state)@.len() == old(state)@.len(),
{
    let layers: usize = params.layers();
    let mut layer: usize = 0;
    while layer < layers
        invariant
            layer <= layers,
            layers == params@.layers(),
            state@.len() == params@.width(),
            state@.len() == old(state)@.len(),
            values(state@) == spec_apply_layers(
                family,
                params@,
                values(old(state)@),
                layer as int,
            ),
        decreases layers - layer,
    {
        let next = params.apply_layer(family, layer, state);
        *state = next;
        layer += 1;
    }
}

/// Replaces `state` by its permutation with fifth powers on every lane of
/// every round.
pub fn poseidon_permutation(params: &PermutationParams, state: &mut Vec<Felt>)
    requires
        old(state)@.len() == params@.width(),
    ensures
        values(final(state)@) == spec_permutation(
            GateFamily::Poseidon,
            params@,
            values(old(state)@),
        ),
        final(state)@.len() == old(state)@.len(),
{
    permutation(params, GateFamily::Poseidon, state)
}

/// Replaces `state` by its permutation with alternating full and partial
/// rounds.
pub fn poseidon2_permutation(params: &PermutationParams, state: &mut Vec<Felt>)
    requires
        old(state)@.len() == params@.width(),
    ensures
        values(final(state)@) == spec_permutation(
            GateFamily::Poseidon2,
            params@,
            values(old(state)@),
        ),
        final(state)@.len() == old(state)@.len(),
{
    permutation(params, GateFamily::Poseidon2, state)
}

} // verus!
