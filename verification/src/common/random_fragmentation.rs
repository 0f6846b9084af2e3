//! Deterministic workload generators: seeded shuffles, entity orders,
//! random component masks and the values that a query over them must see.

use std::collections::BTreeSet;

use vstd::prelude::*;
use vstd::wrapping::u64_specs;

use super::fixtures::RANDOM_FRAGMENT_ENTITY_COUNT;
use super::fixtures::RANDOM_ORDER_COUNT;

verus! {

broadcast use vstd::laws_cmp::group_laws_cmp;

/// `slice::swap` exchanges the two elements; it panics when either index is
/// out of bounds, so both must be in bounds.
pub assume_specification<Item>[ <[Item]>::swap ](slice: &mut [Item], a: usize, b: usize)
    requires
        a < old(slice)@.len(),
        b < old(slice)@.len(),
    ensures
        final(slice)@ == old(slice)@.update(a as int, old(slice)@[b as int]).update(
            b as int,
            old(slice)@[a as int],
        ),
;

/// Seed of [`deterministic_shuffle`] and of the entity deletion order.
pub const DEFAULT_SHUFFLE_SEED: u64 = 0xDEAD_BEEF_CAFE_BABE;

/// Seed of the component-add order.
pub const COMPONENT_ADD_SEED: u64 = 0xA076_1D64_78BD_642F;

/// Seed of the component-remove order.
pub const COMPONENT_REMOVE_SEED: u64 = 0xE703_7ED1_A0B4_28DB;

/// The golden-ratio increment shared by the order seeds and the mask stream.
pub const GOLDEN_GAMMA: u64 = 0x9E37_79B9_7F4A_7C15;

/// Initial state of the random-fragment mask stream.
pub const RANDOM_FRAGMENT_SEED: u64 = 0x243F_6A88_85A3_08D3;

/// One xorshift64 step (shifts 13, 7, 17).
pub open spec fn xorshift_step(state: u64) -> u64 {
    let a = state ^ (state << 13u64);
    let b = a ^ (a >> 7u64);
    b ^ (b << 17u64)
}

/// `s` with the elements at `i` and `j` exchanged.
pub open spec fn seq_swap<T>(s: Seq<T>, i: int, j: int) -> Seq<T> {
    s.update(i, s[j]).update(j, s[i])
}

/// The Fisher-Yates pass over positions `i, i - 1, ..., 1` of `s`, drawing
/// each partner index from the xorshift stream that continues from `state`.
pub open spec fn shuffle_from<T>(s: Seq<T>, state: u64, i: int) -> Seq<T>
    decreases i,
{
    if i < 1 {
        s
    } else {
        let next = xorshift_step(state);
        let j = (next as usize) as int % (i + 1);
        shuffle_from(seq_swap(s, i, j), next, i - 1)
    }
}

/// The order that the seeded Fisher-Yates shuffle gives to `s`.
pub open spec fn shuffled<T>(s: Seq<T>, seed: u64) -> Seq<T> {
    shuffle_from(s, seed, s.len() - 1)
}

/// Shuffles `slice` in place, reproducibly, from the fixed default seed.
pub fn deterministic_shuffle<T>(slice: &mut [T])
    ensures
        final(slice)@ == shuffled(old(slice)@, DEFAULT_SHUFFLE_SEED),
        final(slice)@.to_multiset() == old(slice)@.to_multiset(),
{
    deterministic_shuffle_with_seed(slice, DEFAULT_SHUFFLE_SEED);
}

/// Shuffles `slice` in place with a Fisher-Yates pass driven by xorshift64
/// from `state`: the same input and seed always give the same order.
pub fn deterministic_shuffle_with_seed<T>(slice: &mut [T], state: u64)
    ensures
        final(slice)@ == shuffled(old(slice)@, state),
        final(slice)@.to_multiset() == old(slice)@.to_multiset(),
{
    proof {
        lemma_shuffle_permutes(old(slice)@, state, old(slice)@.len() - 1);
    }
    let n = slice.len();
    if n == 0 {
        return;
    }
    let ghost seed = state;
    let mut state = state;
    let mut i: usize = n - 1;
    while i >= 1
        invariant
            n == slice@.len(),
            i < n,
            shuffled(old(slice)@, seed) == shuffle_from(slice@, state, i as int),
        decreases i,
    {
        state ^= state << 13u64;
        state ^= state >> 7u64;
        state ^= state << 17u64;
        let j = (state as usize) % (i + 1);
        slice.swap(i, j);
        i = i - 1;
    }
}

/// Swapping two elements keeps the multiset of elements.
pub proof fn lemma_swap_permutes<T>(s: Seq<T>, i: int, j: int)
    requires
        0 <= i < s.len(),
        0 <= j < s.len(),
    ensures
        seq_swap(s, i, j).to_multiset() == s.to_multiset(),
        seq_swap(s, i, j).len() == s.len(),
{
    broadcast use vstd::multiset::group_multiset_axioms;

    let m = s.to_multiset();
    let a = s[i];
    let b = s[j];
    let t = s.update(i, b);
    vstd::seq_lib::to_multiset_update(s, i, b);
    assert(t[j] == b);
    vstd::seq_lib::to_multiset_update(t, j, a);
    vstd::seq_lib::to_multiset_contains(s, a);
    vstd::seq_lib::to_multiset_contains(t, b);
    assert(s.contains(a));
    assert(t.contains(b));
    assert(t.update(j, a).to_multiset() =~= m);
}

/// The shuffle only reorders: it keeps the length and the multiset of elements.
pub proof fn lemma_shuffle_permutes<T>(s: Seq<T>, state: u64, i: int)
    requires
        i < s.len(),
    ensures
        shuffle_from(s, state, i).to_multiset() == s.to_multiset(),
        shuffle_from(s, state, i).len() == s.len(),
    decreases i,
{
    if i >= 1 {
        let next = xorshift_step(state);
        let j = (next as usize) as int % (i + 1);
        lemma_swap_permutes(s, i, j);
        lemma_shuffle_permutes(seq_swap(s, i, j), next, i - 1);
    }
}

/// The pass from position `i` down leaves every position above `m - 1`
/// alone and works on the first `m` elements as if they stood alone.
proof fn lemma_shuffle_prefix<T>(s: Seq<T>, state: u64, i: int, m: int)
    requires
        0 <= m <= s.len(),
        i < m,
    ensures
        shuffle_from(s, state, i) == shuffle_from(s.take(m), state, i) + s.skip(m),
    decreases i,
{
    if i < 1 {
        assert(s =~= s.take(m) + s.skip(m));
    } else {
        let next = xorshift_step(state);
        let j = (next as usize) as int % (i + 1);
        let t = seq_swap(s, i, j);
        assert(t.take(m) =~= seq_swap(s.take(m), i, j));
        assert(t.skip(m) =~= s.skip(m));
        lemma_shuffle_prefix(t, next, i - 1, m);
    }
}

/// How the seeded shuffle of `n` elements is built: the first xorshift draw
/// after `seed`, reduced modulo `n`, picks which of the `n` elements (the
/// last one included) ends up last; the other `n - 1` elements, with the
/// chosen one's place taken by the former last element, are then shuffled
/// in front of it from the next state of the stream. In particular the
/// last element stays in place exactly when the draw picks its own index.
pub proof fn lemma_shuffle_picks_last<T>(s: Seq<T>, seed: u64)
    requires
        s.len() >= 1,
    ensures
        ({
            let n = s.len() as int;
            let next = xorshift_step(seed);
            let j = (next as usize) as int % n;
            let t = seq_swap(s, n - 1, j);
            &&& shuffled(s, seed)[n - 1] == s[j]
            &&& shuffled(s, seed) == shuffled(t.take(n - 1), next).push(t[n - 1])
        }),
{
    let n = s.len() as int;
    let next = xorshift_step(seed);
    let j = (next as usize) as int % n;
    let t = seq_swap(s, n - 1, j);
    if n == 1 {
        assert(j == 0);
        assert(t =~= s);
        assert(shuffled(t.take(0), next) =~= Seq::<T>::empty());
        assert(s =~= Seq::<T>::empty().push(s[0]));
    } else {
        lemma_shuffle_prefix(t, next, n - 2, n - 1);
        assert(t.skip(n - 1) =~= seq![t[n - 1]]);
        assert(shuffle_from(t.take(n - 1), next, n - 2) + seq![t[n - 1]] =~= shuffle_from(
            t.take(n - 1),
            next,
            n - 2,
        ).push(t[n - 1]));
        lemma_shuffle_permutes(t.take(n - 1), next, n - 2);
    }
}

/// The seed of the `order`-th random entity order.
pub open spec fn order_seed(order: u64) -> u64 {
    DEFAULT_SHUFFLE_SEED ^ u64_specs::wrapping_mul(order, GOLDEN_GAMMA)
}

/// [`RANDOM_ORDER_COUNT`] reproducible random orders of `entities`: the
/// `k`-th is `entities` shuffled from the `k`-th order seed.
pub fn deterministic_orders<T: Copy>(entities: &[T]) -> (r: Vec<Vec<T>>)
    ensures
        r@.len() == RANDOM_ORDER_COUNT,
        forall|k: int|
            0 <= k < r@.len() ==> #[trigger] r@[k]@ == shuffled(entities@, order_seed(k as u64)),
{
    let mut r: Vec<Vec<T>> = Vec::new();
    let mut order: usize = 0;
    while order < RANDOM_ORDER_COUNT
        invariant
            order <= RANDOM_ORDER_COUNT,
            r@.len() == order,
            forall|k: int|
                0 <= k < order ==> #[trigger] r@[k]@ == shuffled(entities@, order_seed(k as u64)),
        decreases RANDOM_ORDER_COUNT - order,
    {
        let mut shuffled_entities = copy_to_vec(entities);
        deterministic_shuffle_with_seed(
            shuffled_entities.as_mut_slice(),
            DEFAULT_SHUFFLE_SEED ^ (order as u64).wrapping_mul(GOLDEN_GAMMA),
        );
        r.push(shuffled_entities);
        order = order + 1;
    }
    r
}

/// A vector holding a copy of each element of `s`.
fn copy_to_vec<T: Copy>(s: &[T]) -> (r: Vec<T>)
    ensures
        r@ == s@,
{
    let mut r: Vec<T> = Vec::new();
    let mut i: usize = 0;
    while i < s.len()
        invariant
            i <= s@.len(),
            r@ == s@.subrange(0, i as int),
        decreases s@.len() - i,
    {
        r.push(s[i]);
        i = i + 1;
        assert(r@ =~= s@.subrange(0, i as int));
    }
    assert(r@ =~= s@);
    r
}

/// The indices `0..n` in increasing order.
pub open spec fn index_seq(n: nat) -> Seq<usize> {
    Seq::new(n, |i: int| i as usize)
}

/// The indices `0..entity_count`, shuffled from `seed`.
pub fn entity_order_with_seed(entity_count: usize, seed: u64) -> (r: Vec<usize>)
    ensures
        r@ == shuffled(index_seq(entity_count as nat), seed),
        r@.to_multiset() == index_seq(entity_count as nat).to_multiset(),
{
    let mut order: Vec<usize> = Vec::new();
    let mut i: usize = 0;
    while i < entity_count
        invariant
            i <= entity_count,
            order@ == index_seq(i as nat),
        decreases entity_count - i,
    {
        order.push(i);
        i = i + 1;
        assert(order@ =~= index_seq(i as nat));
    }
    deterministic_shuffle_with_seed(order.as_mut_slice(), seed);
    order
}

/// The reproducible order in which the entity-operation benchmarks despawn
/// `entity_count` entities.
pub fn entity_deletion_order(entity_count: usize) -> (r: Vec<usize>)
    ensures
        r@ == shuffled(index_seq(entity_count as nat), DEFAULT_SHUFFLE_SEED),
        is_index_permutation(r@, entity_count as nat),
{
    let r = entity_order_with_seed(entity_count, DEFAULT_SHUFFLE_SEED);
    proof {
        lemma_index_permutation(r@, entity_count as nat);
    }
    r
}

/// The reproducible orders in which the component benchmarks add and then
/// remove a component on `entity_count` entities.
pub fn component_change_orders(entity_count: usize) -> (r: (Vec<usize>, Vec<usize>))
    ensures
        r.0@ == shuffled(index_seq(entity_count as nat), COMPONENT_ADD_SEED),
        r.1@ == shuffled(index_seq(entity_count as nat), COMPONENT_REMOVE_SEED),
        is_index_permutation(r.0@, entity_count as nat),
        is_index_permutation(r.1@, entity_count as nat),
{
    let add = entity_order_with_seed(entity_count, COMPONENT_ADD_SEED);
    let remove = entity_order_with_seed(entity_count, COMPONENT_REMOVE_SEED);
    proof {
        lemma_index_permutation(add@, entity_count as nat);
        lemma_index_permutation(remove@, entity_count as nat);
    }
    (add, remove)
}

/// `s` lists every index below `n` exactly once.
pub open spec fn is_index_permutation(s: Seq<usize>, n: nat) -> bool {
    &&& s.len() == n
    &&& forall|k: int| 0 <= k < s.len() ==> #[trigger] s[k] < n
    &&& s.no_duplicates()
    &&& forall|i: usize| i < n ==> s.contains(i)
}

/// A sequence with the multiset of `0..n` lists every index below `n` once.
pub proof fn lemma_index_permutation(s: Seq<usize>, n: nat)
    requires
        n <= usize::MAX,
        s.to_multiset() == index_seq(n).to_multiset(),
    ensures
        is_index_permutation(s, n),
{
    let idx = index_seq(n);
    s.to_multiset_ensures();
    idx.to_multiset_ensures();
    assert(idx.no_duplicates()) by {
        assert forall|a: int, b: int|
            0 <= a < idx.len() && 0 <= b < idx.len() && a != b implies idx[a] != idx[b] by {}
    }
    idx.lemma_multiset_has_no_duplicates();
    s.lemma_multiset_has_no_duplicates_conv();
    assert forall|k: int| 0 <= k < s.len() implies #[trigger] s[k] < n by {
        assert(s.contains(s[k]));
        assert(idx.to_multiset().count(s[k]) > 0);
        assert(idx.contains(s[k]));
    }
    assert forall|i: usize| i < n implies s.contains(i) by {
        assert(idx[i as int] == i);
        assert(idx.contains(i));
        assert(s.to_multiset().count(i) > 0);
    }
}

/// `count` entities spread evenly over `entities` (every
/// `entities.len() / count`-th one), then shuffled from the default seed.
pub open spec fn sampled_entities<T>(entities: Seq<T>, count: nat) -> Seq<T> {
    Seq::new(count, |i: int| entities[i * entities.len() / count as int])
}

/// Picks `count` evenly spaced entities and shuffles them. `count` must be
/// positive and at most the number of entities.
pub fn sample_entities<T: Copy>(entities: &[T], count: usize) -> (r: Vec<T>)
    requires
        count > 0,
        entities@.len() >= count,
        (count - 1) * entities@.len() <= usize::MAX,
    ensures
        r@ == shuffled(sampled_entities(entities@, count as nat), DEFAULT_SHUFFLE_SEED),
{
    let n = entities.len();
    let mut sampled: Vec<T> = Vec::new();
    let mut index: usize = 0;
    while index < count
        invariant
            n == entities@.len(),
            0 < count <= n,
            (count - 1) * n <= usize::MAX,
            index <= count,
            sampled@ == sampled_entities(entities@, count as nat).subrange(0, index as int),
        decreases count - index,
    {
        assert(index * n <= (count - 1) * n) by (nonlinear_arith)
            requires
                index < count,
        ;
        assert(index * n / (count as int) < n) by (nonlinear_arith)
            requires
                index < count,
                0 < count,
                0 < n,
        ;
        sampled.push(entities[index * n / count]);
        index = index + 1;
        assert(sampled@ =~= sampled_entities(entities@, count as nat).subrange(0, index as int));
    }
    assert(sampled@ =~= sampled_entities(entities@, count as nat));
    deterministic_shuffle(sampled.as_mut_slice());
    sampled
}

/// Adds the bit pattern `x_bits` of a position's x coordinate to a
/// position checksum, wrapping.
pub fn add_position_checksum(checksum: u64, x_bits: u32) -> (r: u64)
    ensures
        r == u64_specs::wrapping_add(checksum, x_bits as u64),
{
    checksum.wrapping_add(x_bits as u64)
}

/// The position checksum of `count` entities whose x coordinates all have
/// the bit pattern `x_bits`: the pattern times the count, wrapping.
pub fn position_checksum_value(x_bits: u32, count: usize) -> (r: u64)
    ensures
        r == u64_specs::wrapping_mul(x_bits as u64, count as u64),
{
    (x_bits as u64).wrapping_mul(count as u64)
}

/// The checksum of `count` positions whose x coordinates all have the bit
/// pattern `x_bits`, folded one at a time from zero.
pub open spec fn folded_positions(x_bits: u32, count: nat) -> u64
    decreases count,
{
    if count == 0 {
        0
    } else {
        u64_specs::wrapping_add(folded_positions(x_bits, (count - 1) as nat), x_bits as u64)
    }
}

/// Folding `count` identical x coordinates into a position checksum gives
/// the value that [`position_checksum_value`] predicts for them.
pub proof fn lemma_position_checksum_folds(x_bits: u32, count: nat)
    requires
        count <= u64::MAX,
    ensures
        folded_positions(x_bits, count) == u64_specs::wrapping_mul(x_bits as u64, count as u64),
    decreases count,
{
    let m = 0x1_0000_0000_0000_0000int;
    if count > 0 {
        lemma_position_checksum_folds(x_bits, (count - 1) as nat);
        let x = x_bits as int;
        let c = count as int;
        let previous = (x * (c - 1)) % m;
        assert(x * c == x * (c - 1) + x) by (nonlinear_arith);
        vstd::arithmetic::div_mod::lemma_add_mod_noop(x * (c - 1), x, m);
        vstd::arithmetic::div_mod::lemma_small_mod(x as nat, m as nat);
        vstd::arithmetic::div_mod::lemma_mod_bound(x * (c - 1), m);
        assert(0 <= x * (c - 1)) by (nonlinear_arith)
            requires
                0 <= x,
                1 <= c,
        ;
        assert(previous + x < 2 * m);
        if previous + x >= m {
            vstd::arithmetic::div_mod::lemma_fundamental_div_mod_converse_mod(
                previous + x,
                m,
                1,
                previous + x - m,
            );
        } else {
            vstd::arithmetic::div_mod::lemma_small_mod((previous + x) as nat, m as nat);
        }
        let before = folded_positions(x_bits, (count - 1) as nat);
        assert(before as int == previous);
        assert((x * c) % m == (previous + x) % m);
        assert(u64_specs::wrapping_mul(x_bits as u64, count as u64) as int == (x * c) % m);
        assert(folded_positions(x_bits, count) == u64_specs::wrapping_add(before, x_bits as u64));
        assert(u64_specs::wrapping_add(before, x_bits as u64) as int == (previous + x) % m);
        assert(folded_positions(x_bits, count) as int == u64_specs::wrapping_mul(
            x_bits as u64,
            count as u64,
        ) as int);
    } else {
        assert(x_bits as nat * 0nat == 0) by (nonlinear_arith);
        vstd::arithmetic::div_mod::lemma_small_mod(0nat, m as nat);
    }
}

/// Adds the bit patterns of a position's three coordinates to a position
/// checksum, wrapping.
pub fn add_full_position_checksum(checksum: u64, x_bits: u32, y_bits: u32, z_bits: u32) -> (r: u64)
    ensures
        r == u64_specs::wrapping_add(
            u64_specs::wrapping_add(u64_specs::wrapping_add(checksum, x_bits as u64), y_bits as u64),
            z_bits as u64,
        ),
{
    checksum.wrapping_add(x_bits as u64).wrapping_add(y_bits as u64).wrapping_add(z_bits as u64)
}

/// The key that identifies an entity by index and generation: the
/// generation in the high 32 bits, the index in the low 32 bits.
pub fn generational_entity_key(index: u32, generation: u32) -> (r: u64)
    ensures
        r == generation * 0x1_0000_0000 + index,
{
    let r = ((generation as u64) << 32u64) | (index as u64);
    assert(((generation as u64) << 32u64) | (index as u64) == (generation as u64) * 0x1_0000_0000
        + (index as u64)) by (bit_vector);
    r
}

/// The mask of the components `0..component_count`.
pub open spec fn active_component_mask(component_count: nat) -> u16 {
    if component_count >= 16 {
        0xffff
    } else {
        ((1u16 << component_count) - 1) as u16
    }
}

/// The mask of the components at or above `component_count`.
pub open spec fn inactive_component_mask(component_count: nat) -> u16 {
    if component_count >= 16 {
        0
    } else {
        (0xffffu16 << component_count) as u16
    }
}

/// The splitmix64 finaliser.
pub open spec fn splitmix_finish(state: u64) -> u64 {
    let a = u64_specs::wrapping_mul(state ^ (state >> 30u64), 0xBF58_476D_1CE4_E5B9);
    let b = u64_specs::wrapping_mul(a ^ (a >> 27u64), 0x94D0_49BB_1331_11EB);
    b ^ (b >> 31u64)
}

/// The splitmix64 state from which the mask of entity `k` is drawn.
pub open spec fn fragment_state(k: nat) -> u64
    decreases k,
{
    if k == 0 {
        u64_specs::wrapping_add(RANDOM_FRAGMENT_SEED, GOLDEN_GAMMA)
    } else {
        u64_specs::wrapping_add(fragment_state((k - 1) as nat), GOLDEN_GAMMA)
    }
}

/// The component mask of entity `k` when `component_count` components exist.
pub open spec fn fragment_mask(k: nat, component_count: nat) -> u16 {
    (splitmix_finish(fragment_state(k)) as u16) & active_component_mask(component_count)
}

/// The masks of entities `0..entity_count`.
pub open spec fn fragment_masks(component_count: nat, entity_count: nat) -> Seq<u16> {
    Seq::new(entity_count, |k: int| fragment_mask(k as nat, component_count))
}

/// The component masks of the standard random-fragmentation population.
pub fn random_fragment_masks(component_count: usize) -> (r: Vec<u16>)
    requires
        1 <= component_count <= 16,
    ensures
        r@ == fragment_masks(component_count as nat, RANDOM_FRAGMENT_ENTITY_COUNT as nat),
        forall|k: int|
            0 <= k < r@.len() ==> #[trigger] r@[k] & inactive_component_mask(component_count as nat)
                == 0,
{
    random_fragment_masks_for(component_count, RANDOM_FRAGMENT_ENTITY_COUNT)
}

/// Reproducible component masks for `entity_count` entities: each entity
/// independently receives a subset of the first `component_count`
/// components, drawn from a splitmix64 stream. `component_count` must be
/// between 1 and 16.
pub fn random_fragment_masks_for(component_count: usize, entity_count: usize) -> (r: Vec<u16>)
    requires
        1 <= component_count <= 16,
    ensures
        r@ == fragment_masks(component_count as nat, entity_count as nat),
        forall|k: int|
            0 <= k < r@.len() ==> #[trigger] r@[k] & inactive_component_mask(component_count as nat)
                == 0,
{
    let active_mask: u16 = if component_count == 16 {
        u16::MAX
    } else {
        assert(1u16 << component_count >= 1) by (bit_vector)
            requires
                component_count < 16,
        ;
        (1u16 << component_count) - 1
    };
    assert(active_mask == active_component_mask(component_count as nat));
    let mut state: u64 = RANDOM_FRAGMENT_SEED;
    let mut masks: Vec<u16> = Vec::new();
    let mut k: usize = 0;
    while k < entity_count
        invariant
            1 <= component_count <= 16,
            active_mask == active_component_mask(component_count as nat),
            k <= entity_count,
            masks@ == fragment_masks(component_count as nat, k as nat),
            k == 0 ==> state == RANDOM_FRAGMENT_SEED,
            k > 0 ==> state == fragment_state((k - 1) as nat),
        decreases entity_count - k,
    {
        state = state.wrapping_add(GOLDEN_GAMMA);
        assert(state == fragment_state(k as nat));
        let mut value = state;
        value = (value ^ (value >> 30u64)).wrapping_mul(0xBF58_476D_1CE4_E5B9);
        value = (value ^ (value >> 27u64)).wrapping_mul(0x94D0_49BB_1331_11EB);
        let mask = ((value ^ (value >> 31u64)) as u16) & active_mask;
        masks.push(mask);
        k = k + 1;
        assert(masks@ =~= fragment_masks(component_count as nat, k as nat));
    }
    assert forall|k: int|
        0 <= k < masks@.len() implies #[trigger] masks@[k] & inactive_component_mask(
        component_count as nat,
    ) == 0 by {
        lemma_active_masks_exclude_inactive(
            splitmix_finish(fragment_state(k as nat)) as u16,
            component_count as u64,
        );
    }
    masks
}

/// Restricting to the active components clears every inactive one.
pub proof fn lemma_active_masks_exclude_inactive(x: u16, component_count: u64)
    requires
        1 <= component_count <= 16,
    ensures
        (x & active_component_mask(component_count as nat)) & inactive_component_mask(
            component_count as nat,
        ) == 0,
{
    if component_count < 16 {
        assert((x & (((1u16 << component_count) - 1) as u16)) & ((0xffffu16 << component_count) as u16)
            == 0) by (bit_vector)
            requires
                component_count < 16,
        ;
    } else {
        assert((x & 0xffffu16) & 0u16 == 0) by (bit_vector);
    }
}

/// The query mask of the first `term_count` components.
pub open spec fn query_mask(term_count: nat) -> u16 {
    active_component_mask(term_count)
}

/// How many of `masks` contain every component of `query`.
pub open spec fn count_matching(masks: Seq<u16>, query: u16) -> nat
    decreases masks.len(),
{
    if masks.len() == 0 {
        0
    } else {
        count_matching(masks.drop_last(), query) + if masks.last() & query == query {
            1nat
        } else {
            0nat
        }
    }
}

/// A mask that holds the eight-term query holds the four-term one, and one
/// that holds the four-term query holds the one-term one.
proof fn lemma_query_masks_nest(m: u16)
    ensures
        m & query_mask(8) == query_mask(8) ==> m & query_mask(4) == query_mask(4),
        m & query_mask(4) == query_mask(4) ==> m & query_mask(1) == query_mask(1),
{
    assert(((1u16 << 8u16) - 1) as u16 == 0xffu16) by (bit_vector);
    assert(((1u16 << 4u16) - 1) as u16 == 0xfu16) by (bit_vector);
    assert(((1u16 << 1u16) - 1) as u16 == 1u16) by (bit_vector);
    assert(m & 0xffu16 == 0xffu16 ==> m & 0xfu16 == 0xfu16) by (bit_vector);
    assert(m & 0xfu16 == 0xfu16 ==> m & 1u16 == 1u16) by (bit_vector);
}

/// A query over more terms matches fewer entities: the eight-term count is
/// at most the four-term count, which is at most the one-term count, which
/// is at most the number of masks.
pub proof fn lemma_match_count_decreases_with_terms(masks: Seq<u16>)
    ensures
        count_matching(masks, query_mask(8)) <= count_matching(masks, query_mask(4)),
        count_matching(masks, query_mask(4)) <= count_matching(masks, query_mask(1)),
        count_matching(masks, query_mask(1)) <= masks.len(),
    decreases masks.len(),
{
    if masks.len() > 0 {
        lemma_match_count_decreases_with_terms(masks.drop_last());
        lemma_query_masks_nest(masks.last());
    }
}

/// The number of entities that a query over the first `term_count`
/// components matches. `term_count` must be 1, 4 or 8.
pub fn random_fragment_match_count(masks: &[u16], term_count: usize) -> (r: usize)
    requires
        term_count == 1 || term_count == 4 || term_count == 8,
    ensures
        r == count_matching(masks@, query_mask(term_count as nat)),
        r <= masks@.len(),
{
    assert(1u16 << term_count >= 1) by (bit_vector)
        requires
            term_count < 16,
    ;
    let query: u16 = (1u16 << term_count) - 1;
    count_masks_containing(masks, query)
}

/// How many of `masks` contain every bit of `query`.
pub fn count_masks_containing(masks: &[u16], query: u16) -> (r: usize)
    ensures
        r == count_matching(masks@, query),
        r <= masks@.len(),
{
    let mut count: usize = 0;
    let mut i: usize = 0;
    while i < masks.len()
        invariant
            i <= masks@.len(),
            count == count_matching(masks@.subrange(0, i as int), query),
            count <= i,
        decreases masks@.len() - i,
    {
        assert(masks@.subrange(0, i + 1).drop_last() =~= masks@.subrange(0, i as int));
        if masks[i] & query == query {
            count = count + 1;
        }
        i = i + 1;
    }
    assert(masks@.subrange(0, masks@.len() as int) =~= masks@);
    count
}

/// The value that one matched entity adds to the query checksum: its key,
/// then ten for each of the `term_count` queried components.
pub open spec fn fragment_checksum_step(checksum: u64, entity_key: u64, term_count: nat) -> u64 {
    u64_specs::wrapping_add(u64_specs::wrapping_add(checksum, entity_key), (10 * term_count) as u64)
}

/// The checksum over the first `n` entities.
pub open spec fn fragment_checksum(keys: Seq<u64>, masks: Seq<u16>, term_count: nat, n: int) -> u64
    decreases n,
{
    if n <= 0 {
        0
    } else {
        let previous = fragment_checksum(keys, masks, term_count, n - 1);
        if masks[n - 1] & query_mask(term_count) == query_mask(term_count) {
            fragment_checksum_step(previous, keys[n - 1], term_count)
        } else {
            previous
        }
    }
}

/// The integer sum of the keys of the entities among the first `n` that a
/// query over the first `term_count` components matches.
pub open spec fn matched_key_sum(keys: Seq<u64>, masks: Seq<u16>, term_count: nat, n: int) -> int
    decreases n,
{
    if n <= 0 {
        0
    } else {
        matched_key_sum(keys, masks, term_count, n - 1) + if masks[n - 1] & query_mask(term_count)
            == query_mask(term_count) {
            keys[n - 1] as int
        } else {
            0
        }
    }
}

/// `wrapping_add` on `u64` is addition modulo 2^64.
proof fn lemma_wrapping_add_mod(x: u64, y: u64)
    ensures
        u64_specs::wrapping_add(x, y) as int == (x + y) % 0x1_0000_0000_0000_0000,
{
    let m: int = 0x1_0000_0000_0000_0000;
    if x + y > u64::MAX {
        vstd::arithmetic::div_mod::lemma_fundamental_div_mod_converse_mod(x + y, m, 1, x + y - m);
    } else {
        vstd::arithmetic::div_mod::lemma_small_mod((x + y) as nat, m as nat);
    }
}

/// The checksum in closed form: the sum of the matched keys plus ten for
/// each queried component of each matched entity, modulo 2^64.
#[verifier::spinoff_prover]
pub proof fn lemma_fragment_checksum_closed_form(
    keys: Seq<u64>,
    masks: Seq<u16>,
    term_count: nat,
    n: int,
)
    requires
        0 <= n <= masks.len(),
        n <= keys.len(),
        10 * term_count <= u64::MAX,
    ensures
        fragment_checksum(keys, masks, term_count, n) as int == (matched_key_sum(
            keys,
            masks,
            term_count,
            n,
        ) + 10 * term_count * count_matching(masks.subrange(0, n), query_mask(term_count)))
            % 0x1_0000_0000_0000_0000,
    decreases n,
{
    let m: int = 0x1_0000_0000_0000_0000;
    if n == 0 {
        assert(masks.subrange(0, 0) =~= Seq::<u16>::empty());
    } else {
        lemma_fragment_checksum_closed_form(keys, masks, term_count, n - 1);
        assert(masks.subrange(0, n).drop_last() =~= masks.subrange(0, n - 1));
        let q = query_mask(term_count);
        let previous = fragment_checksum(keys, masks, term_count, n - 1);
        let sum = matched_key_sum(keys, masks, term_count, n - 1);
        let count = count_matching(masks.subrange(0, n - 1), q);
        let before: int = sum + 10 * term_count * count;
        assert(10 * term_count * (count + 1) == 10 * term_count * count + 10 * term_count)
            by (nonlinear_arith);
        if masks[n - 1] & q == q {
            let key = keys[n - 1];
            let added = (10 * term_count) as u64;
            let inner = u64_specs::wrapping_add(previous, key);
            lemma_wrapping_add_mod(previous, key);
            lemma_wrapping_add_mod(inner, added);
            // previous == before % m, so adding the key and the term weight
            // modulo m gives (before + key + weight) % m.
            vstd::arithmetic::div_mod::lemma_add_mod_noop(before, key as int, m);
            vstd::arithmetic::div_mod::lemma_small_mod(key as nat, m as nat);
            vstd::arithmetic::div_mod::lemma_mod_twice(before, m);
            vstd::arithmetic::div_mod::lemma_add_mod_noop(before + key, added as int, m);
            vstd::arithmetic::div_mod::lemma_small_mod(added as nat, m as nat);
            vstd::arithmetic::div_mod::lemma_mod_twice(before + key, m);
        }
    }
}

/// The checksum that a query over the first `term_count` components must
/// report when every queried component holds 10. The two slices must have
/// the same length, and a matched entity must be queried with a term count
/// of 1, 4 or 8.
pub fn expected_random_fragment_checksum(entity_keys: &[u64], masks: &[u16], term_count: usize) -> (r:
    u64)
    requires
        entity_keys@.len() == masks@.len(),
        term_count < 16,
        term_count == 1 || term_count == 4 || term_count == 8 || count_matching(
            masks@,
            query_mask(term_count as nat),
        ) == 0,
    ensures
        r == fragment_checksum(entity_keys@, masks@, term_count as nat, masks@.len() as int),
        r as int == (matched_key_sum(entity_keys@, masks@, term_count as nat, masks@.len() as int) + 10
            * term_count * count_matching(masks@, query_mask(term_count as nat)))
            % 0x1_0000_0000_0000_0000,
{
    assert(1u16 << term_count >= 1) by (bit_vector)
        requires
            term_count < 16,
    ;
    let query: u16 = (1u16 << term_count) - 1;
    let added: u64 = 10 * term_count as u64;
    let mut checksum: u64 = 0;
    let mut i: usize = 0;
    while i < masks.len()
        invariant
            entity_keys@.len() == masks@.len(),
            term_count < 16,
            query == query_mask(term_count as nat),
            added == 10 * term_count,
            i <= masks@.len(),
            checksum == fragment_checksum(entity_keys@, masks@, term_count as nat, i as int),
        decreases masks@.len() - i,
    {
        if masks[i] & query == query {
            checksum = checksum.wrapping_add(entity_keys[i]).wrapping_add(added);
        }
        i = i + 1;
    }
    proof {
        lemma_fragment_checksum_closed_form(
            entity_keys@,
            masks@,
            term_count as nat,
            masks@.len() as int,
        );
        assert(masks@.subrange(0, masks@.len() as int) =~= masks@);
    }
    checksum
}

/// The mask of the components `0..bits`.
pub open spec fn low_bits(bits: nat) -> u16 {
    active_component_mask(bits)
}

/// The archetypes that adding the components of `mask` one at a time, in
/// component order, passes through: the part of `mask` below and including
/// each present component.
pub open spec fn is_transition_shape(masks: Seq<u16>, component_count: nat, shape: u16) -> bool {
    ||| shape == 0
    ||| exists|k: int, bit: nat|
        0 <= k < masks.len() && bit < component_count && #[trigger] masks[k] & (1u16 << bit) != 0
            && shape == #[trigger] (masks[k] & low_bits(bit + 1))
}

/// The shapes contributed by the single mask `mask`.
pub open spec fn is_shape_of_mask(mask: u16, component_count: nat, shape: u16) -> bool {
    exists|bit: nat|
        bit < component_count && #[trigger] (mask & (1u16 << bit)) != 0 && shape == #[trigger] (mask
            & low_bits(bit + 1))
}

/// The shapes of a prefix one longer are those of the shorter prefix and
/// those of the added mask.
pub proof fn lemma_transition_shapes_extend(masks: Seq<u16>, k: int, component_count: nat, shape: u16)
    requires
        0 <= k < masks.len(),
    ensures
        is_transition_shape(masks.subrange(0, k + 1), component_count, shape) <==> (
        is_transition_shape(masks.subrange(0, k), component_count, shape) || is_shape_of_mask(
            masks[k],
            component_count,
            shape,
        )),
{
    let p0 = masks.subrange(0, k);
    let p1 = masks.subrange(0, k + 1);
    if is_transition_shape(p1, component_count, shape) && shape != 0 {
        let (k2, bit) = choose|k2: int, bit: nat|
            0 <= k2 < p1.len() && bit < component_count && #[trigger] p1[k2] & (1u16 << bit) != 0
                && shape == #[trigger] (p1[k2] & low_bits(bit + 1));
        if k2 < k {
            assert(p0[k2] == p1[k2]);
            assert(p0[k2] & (1u16 << bit) != 0 && shape == (p0[k2] & low_bits(bit + 1)));
        } else {
            assert(p1[k2] == masks[k]);
            assert((masks[k] & (1u16 << bit)) != 0 && shape == (masks[k] & low_bits(bit + 1)));
        }
    }
    if is_transition_shape(p0, component_count, shape) && shape != 0 {
        let (k2, bit) = choose|k2: int, bit: nat|
            0 <= k2 < p0.len() && bit < component_count && #[trigger] p0[k2] & (1u16 << bit) != 0
                && shape == #[trigger] (p0[k2] & low_bits(bit + 1));
        assert(p0[k2] == p1[k2]);
        assert(p1[k2] & (1u16 << bit) != 0 && shape == (p1[k2] & low_bits(bit + 1)));
    }
    if is_shape_of_mask(masks[k], component_count, shape) {
        let bit = choose|bit: nat|
            bit < component_count && #[trigger] (masks[k] & (1u16 << bit)) != 0 && shape
                == #[trigger] (masks[k] & low_bits(bit + 1));
        assert(p1[k] == masks[k]);
        assert(p1[k] & (1u16 << bit) != 0 && shape == (p1[k] & low_bits(bit + 1)));
    }
}

/// Adding component `bit` to the shape built from the components below it.
pub proof fn lemma_shape_step(mask: u16, bit: u16)
    requires
        bit < 16,
    ensures
        mask & low_bits(0) == 0,
        (mask & (1u16 << bit)) != 0 ==> (mask & low_bits(bit as nat)) | (1u16 << bit) == mask
            & low_bits(bit as nat + 1),
        (mask & (1u16 << bit)) == 0 ==> mask & low_bits(bit as nat) == mask & low_bits(
            bit as nat + 1,
        ),
{
    assert(mask & (((1u16 << 0u16) - 1) as u16) == 0) by (bit_vector);
    assert(low_bits(0) == ((1u16 << 0u16) - 1) as u16);
    if bit < 15 {
        assert(low_bits(bit as nat) == ((1u16 << bit) - 1) as u16);
        assert(low_bits(bit as nat + 1) == ((1u16 << ((bit + 1) as u16)) - 1) as u16);
        assert((mask & (1u16 << bit)) != 0 ==> (mask & (((1u16 << bit) - 1) as u16)) | (1u16 << bit)
            == mask & (((1u16 << ((bit + 1) as u16)) - 1) as u16)) by (bit_vector)
            requires
                bit < 15,
        ;
        assert((mask & (1u16 << bit)) == 0 ==> mask & (((1u16 << bit) - 1) as u16) == mask & (((1u16
            << ((bit + 1) as u16)) - 1) as u16)) by (bit_vector)
            requires
                bit < 15,
        ;
    } else {
        assert(low_bits(bit as nat) == ((1u16 << 15u16) - 1) as u16);
        assert(low_bits(bit as nat + 1) == 0xffffu16);
        assert((mask & (1u16 << 15u16)) != 0 ==> (mask & (((1u16 << 15u16) - 1) as u16)) | (1u16
            << 15u16) == mask & 0xffffu16) by (bit_vector);
        assert((mask & (1u16 << 15u16)) == 0 ==> mask & (((1u16 << 15u16) - 1) as u16) == mask
            & 0xffffu16) by (bit_vector);
    }
}

/// Every archetype visited while the entities of `masks` gain their
/// components one at a time in component order, starting from the empty
/// archetype. `component_count` must be between 1 and 16.
pub fn random_fragment_transition_shapes(masks: &[u16], component_count: usize) -> (r: BTreeSet<u16>)
    requires
        1 <= component_count <= 16,
    ensures
        forall|shape: u16| #[trigger]
            r@.contains(shape) <==> is_transition_shape(masks@, component_count as nat, shape),
{
    let mut shapes: BTreeSet<u16> = BTreeSet::new();
    shapes.insert(0);
    let mut k: usize = 0;
    while k < masks.len()
        invariant
            1 <= component_count <= 16,
            k <= masks@.len(),
            forall|shape: u16| #[trigger]
                shapes@.contains(shape) <==> is_transition_shape(
                    masks@.subrange(0, k as int),
                    component_count as nat,
                    shape,
                ),
        decreases masks@.len() - k,
    {
        let mask = masks[k];
        let mut shape: u16 = 0;
        let mut bit: usize = 0;
        proof {
            lemma_shape_step(mask, 0);
        }
        while bit < component_count
            invariant
                1 <= component_count <= 16,
                k < masks@.len(),
                mask == masks@[k as int],
                bit <= component_count,
                shape == mask & low_bits(bit as nat),
                forall|s: u16| #[trigger]
                    shapes@.contains(s) <==> (is_transition_shape(
                        masks@.subrange(0, k as int),
                        component_count as nat,
                        s,
                    ) || is_shape_of_mask(mask, bit as nat, s)),
            decreases component_count - bit,
        {
            let component: u16 = 1u16 << bit;
            proof {
                lemma_shape_step(mask, bit as u16);
                assert(component == 1u16 << (bit as u16));
            }
            let ghost old_shapes = shapes@;
            if mask & component != 0 {
                shape = shape | component;
                shapes.insert(shape);
            }
            proof {
                assert forall|s: u16| #[trigger]
                    shapes@.contains(s) <==> (is_transition_shape(
                        masks@.subrange(0, k as int),
                        component_count as nat,
                        s,
                    ) || is_shape_of_mask(mask, (bit + 1) as nat, s)) by {
                    if is_shape_of_mask(mask, (bit + 1) as nat, s) {
                        let b = choose|b: nat|
                            b < bit + 1 && #[trigger] (mask & (1u16 << b)) != 0 && s == #[trigger] (
                            mask & low_bits(b + 1));
                        if b < bit {
                            assert(is_shape_of_mask(mask, bit as nat, s));
                        }
                    }
                    if is_shape_of_mask(mask, bit as nat, s) {
                        let b = choose|b: nat|
                            b < bit && #[trigger] (mask & (1u16 << b)) != 0 && s == #[trigger] (mask
                                & low_bits(b + 1));
                        assert(is_shape_of_mask(mask, (bit + 1) as nat, s));
                    }
                    if mask & component != 0 && s == shape {
                        assert((mask & (1u16 << (bit as nat))) != 0 && s == (mask & low_bits(
                            bit as nat + 1,
                        )));
                        assert(is_shape_of_mask(mask, (bit + 1) as nat, s));
                    }
                }
            }
            bit = bit + 1;
        }
        proof {
            assert forall|s: u16| #[trigger]
                shapes@.contains(s) <==> is_transition_shape(
                    masks@.subrange(0, k + 1),
                    component_count as nat,
                    s,
                ) by {
                lemma_transition_shapes_extend(masks@, k as int, component_count as nat, s);
            }
        }
        k = k + 1;
    }
    assert(masks@.subrange(0, masks@.len() as int) =~= masks@);
    shapes
}

} // verus!
