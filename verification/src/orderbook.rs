//! The local order book kept from the websocket's snapshot and delta
//! messages.
//!
//! Prices and quantities arrive as IEEE 754 double-precision numbers; the
//! book holds them by their 64-bit patterns. A price is filed under an
//! integer key that orders prices exactly as a total order on doubles does
//! (NaN above everything, `-0.0` equal to `0.0`), so that walking the keys in
//! ascending order visits the price levels from the lowest price up.

use std::collections::BTreeMap;
use vstd::prelude::*;
use vstd::std_specs::cmp::OrdSpec;
use vstd::std_specs::iter::IteratorSpec;

verus! {

/// The sign bit of a double's bit pattern.
pub const SIGN_BIT: u64 = 0x8000_0000_0000_0000u64;

/// The bit pattern of positive infinity; larger magnitudes are NaNs.
pub const INFINITY_BITS: u64 = 0x7ff0_0000_0000_0000u64;

/// Whether the sign bit of the pattern is set.
pub open spec fn is_negative(bits: u64) -> bool {
    bits >= SIGN_BIT
}

/// The pattern with its sign bit cleared: exponent and fraction.
pub open spec fn magnitude(bits: u64) -> int {
    if is_negative(bits) {
        bits - SIGN_BIT
    } else {
        bits as int
    }
}

/// Whether the pattern is a NaN: all exponent bits set and a nonzero fraction.
pub open spec fn is_nan(bits: u64) -> bool {
    magnitude(bits) > INFINITY_BITS
}

/// Whether the pattern is `0.0` or `-0.0`, the two doubles equal to zero.
pub open spec fn is_zero(bits: u64) -> bool {
    magnitude(bits) == 0
}

/// The magnitude with the sign applied. For doubles that are not NaN the
/// numeric order is the order of this value, since the magnitudes of
/// IEEE 754 doubles compare as their bit patterns do.
pub open spec fn signed_magnitude(bits: u64) -> int {
    if is_negative(bits) {
        -magnitude(bits)
    } else {
        magnitude(bits)
    }
}

/// The total order on doubles under which prices are kept: NaN is above
/// every other value, and other values compare numerically.
pub open spec fn total_lt(a: u64, b: u64) -> bool {
    if is_nan(a) {
        false
    } else if is_nan(b) {
        true
    } else {
        signed_magnitude(a) < signed_magnitude(b)
    }
}

/// Equality under the same total order: all NaNs are equal, and other
/// values are equal when they are numerically equal.
pub open spec fn total_eq(a: u64, b: u64) -> bool {
    if is_nan(a) || is_nan(b) {
        is_nan(a) && is_nan(b)
    } else {
        signed_magnitude(a) == signed_magnitude(b)
    }
}

/// The key under which a price is filed.
pub open spec fn price_key(bits: u64) -> u64 {
    if is_nan(bits) {
        u64::MAX
    } else {
        (SIGN_BIT + signed_magnitude(bits)) as u64
    }
}

/// Computes the key under which a price is filed.
pub fn price_key_of(bits: u64) -> (key: u64)
    ensures
        key == price_key(bits),
{
    let magnitude: u64 = if bits >= SIGN_BIT {
        bits - SIGN_BIT
    } else {
        bits
    };
    if magnitude > INFINITY_BITS {
        u64::MAX
    } else if bits >= SIGN_BIT {
        SIGN_BIT - magnitude
    } else {
        SIGN_BIT + magnitude
    }
}

/// Whether a quantity pattern is a zero quantity.
pub fn is_zero_quantity(bits: u64) -> (b: bool)
    ensures
        b == is_zero(bits),
{
    bits == 0 || bits == SIGN_BIT
}

/// Keys order prices as the total order on doubles does: one key is below
/// another exactly when its price is below the other's, and two prices
/// share a key exactly when they are equal.
pub proof fn lemma_price_key_order(a: u64, b: u64)
    ensures
        (price_key(a) < price_key(b)) <==> total_lt(a, b),
        (price_key(a) == price_key(b)) <==> total_eq(a, b),
{
}

/// One side of the book after the levels of a snapshot were filed in
/// order: a later level at the same price replaces an earlier one.
pub open spec fn level_map(levels: Seq<(u64, u64)>) -> Map<u64, u64>
    decreases levels.len(),
{
    if levels.len() == 0 {
        Map::empty()
    } else {
        level_map(levels.drop_last()).insert(price_key(levels.last().0), levels.last().1)
    }
}

/// One side of the book after the levels of a delta were applied in order:
/// a zero quantity removes the price level, any other quantity sets it.
pub open spec fn apply_levels(side: Map<u64, u64>, levels: Seq<(u64, u64)>) -> Map<u64, u64>
    decreases levels.len(),
{
    if levels.len() == 0 {
        side
    } else {
        let prev = apply_levels(side, levels.drop_last());
        let (price, quantity) = levels.last();
        if is_zero(quantity) {
            prev.remove(price_key(price))
        } else {
            prev.insert(price_key(price), quantity)
        }
    }
}

/// The price levels of one order-book message, as `(price, quantity)` bit
/// patterns in the order in which the message lists them.
pub struct OrderbookUpdate {
    pub timestamp: u64,
    pub bids: Vec<(u64, u64)>,
    pub asks: Vec<(u64, u64)>,
}

/// The content of a book: its timestamp, and for each side the quantity
/// pattern filed under each price key.
#[verifier::ext_equal]
pub struct OrderbookView {
    pub timestamp: u64,
    pub bids: Map<u64, u64>,
    pub asks: Map<u64, u64>,
}

/// The content of an empty book with timestamp 0.
pub open spec fn empty_book() -> OrderbookView {
    OrderbookView { timestamp: 0, bids: Map::empty(), asks: Map::empty() }
}

/// The order book of one stream.
pub struct FinalOrderbook {
    pub timestamp: u64,
    /// The bid side: the quantity pattern filed under each price key.
    pub bids: BTreeMap<u64, u64>,
    /// The ask side: the quantity pattern filed under each price key.
    pub asks: BTreeMap<u64, u64>,
}

impl View for FinalOrderbook {
    type V = OrderbookView;

    open spec fn view(&self) -> OrderbookView {
        OrderbookView { timestamp: self.timestamp, bids: self.bids@, asks: self.asks@ }
    }
}

fn fill_side(levels: &Vec<(u64, u64)>) -> (side: BTreeMap<u64, u64>)
    ensures
        side@ == level_map(levels@),
{
    let mut side: BTreeMap<u64, u64> = BTreeMap::new();
    let mut i: usize = 0;
    while i < levels.len()
        invariant
            i <= levels.len(),
            side@ == level_map(levels@.take(i as int)),
        decreases levels.len() - i,
    {
        let (price, quantity) = levels[i];
        side.insert(price_key_of(price), quantity);
        assert(levels@.take(i + 1).drop_last() =~= levels@.take(i as int));
        i = i + 1;
    }
    assert(levels@.take(levels.len() as int) =~= levels@);
    side
}

fn apply_side(side: &mut BTreeMap<u64, u64>, levels: &Vec<(u64, u64)>)
    ensures
        final(side)@ == apply_levels(old(side)@, levels@),
{
    let ghost start = side@;
    let mut i: usize = 0;
    assert(levels@.take(0) =~= Seq::<(u64, u64)>::empty());
    while i < levels.len()
        invariant
            i <= levels.len(),
            side@ == apply_levels(start, levels@.take(i as int)),
        decreases levels.len() - i,
    {
        let (price, quantity) = levels[i];
        let key = price_key_of(price);
        if is_zero_quantity(quantity) {
            side.remove(&key);
        } else {
            side.insert(key, quantity);
        }
        assert(levels@.take(i + 1).drop_last() =~= levels@.take(i as int));
        i = i + 1;
    }
    assert(levels@.take(levels.len() as int) =~= levels@);
}

/// Whether a sequence of keys is strictly ascending.
pub open spec fn is_ascending(s: Seq<u64>) -> bool {
    forall|i: int, j: int| 0 <= i < j < s.len() ==> s[i] < s[j]
}

/// The keys of a side, in ascending order.
pub open spec fn ascending_keys(side: Map<u64, u64>) -> Seq<u64> {
    choose|s: Seq<u64>| is_ascending(s) && s.to_set() == side.dom()
}

/// Two ascending sequences that hold the same keys are the same sequence.
pub proof fn lemma_ascending_unique(s1: Seq<u64>, s2: Seq<u64>)
    requires
        is_ascending(s1),
        is_ascending(s2),
        s1.to_set() == s2.to_set(),
    ensures
        s1 == s2,
    decreases s1.len(),
{
    if s1.len() == 0 {
        if s2.len() > 0 {
            assert(s2.to_set().contains(s2[0]));
        }
        assert(s1 =~= s2);
    } else if s2.len() == 0 {
        assert(s1.to_set().contains(s1[0]));
    } else {
        let a = s1[0];
        let b = s2[0];
        assert(s1.to_set().contains(a));
        assert(s2.to_set().contains(b));
        assert(s2.contains(a));
        assert(s1.contains(b));
        assert(a == b);
        let t1 = s1.drop_first();
        let t2 = s2.drop_first();
        assert forall|x: u64| t1.to_set().contains(x) <==> t2.to_set().contains(x) by {
            if t1.to_set().contains(x) {
                assert(t1.contains(x));
                let i = choose|i: int| 0 <= i < t1.len() && t1[i] == x;
                assert(s1[i + 1] == x);
                assert(s1.to_set().contains(x));
                assert(s2.contains(x));
                let j = choose|j: int| 0 <= j < s2.len() && s2[j] == x;
                assert(j != 0);
                assert(t2[j - 1] == x);
                assert(t2.contains(x));
            }
            if t2.to_set().contains(x) {
                assert(t2.contains(x));
                let i = choose|i: int| 0 <= i < t2.len() && t2[i] == x;
                assert(s2[i + 1] == x);
                assert(s2.to_set().contains(x));
                assert(s1.contains(x));
                let j = choose|j: int| 0 <= j < s1.len() && s1[j] == x;
                assert(j != 0);
                assert(t1[j - 1] == x);
                assert(t1.contains(x));
            }
        }
        assert(t1.to_set() =~= t2.to_set());
        lemma_ascending_unique(t1, t2);
        assert forall|i: int| 0 <= i < s1.len() implies s1[i] == s2[i] by {
            if i > 0 {
                assert(s1[i] == t1[i - 1]);
                assert(s2[i] == t2[i - 1]);
            }
        }
        assert(s1 =~= s2);
    }
}

/// The order in which a map's iterators yield its keys is ascending.
proof fn lemma_increasing_is_ascending(ks: Seq<u64>)
    requires
        vstd::std_specs::btree::increasing_seq(ks),
    ensures
        is_ascending(ks),
{
    assert(vstd::laws_cmp::obeys_cmp::<u64>());
    assert forall|i: int, j: int| 0 <= i < j < ks.len() implies ks[i] < ks[j] by {
        assert(ks[i].cmp_spec(&ks[j]) is Less);
    }
}

/// The quantities of the first `depth` price levels of a side, from the
/// lowest key up; all of them when the side has fewer levels.
pub open spec fn top_quantities(side: Map<u64, u64>, depth: nat) -> Seq<u64> {
    let keys = ascending_keys(side);
    let n = if depth < keys.len() {
        depth
    } else {
        keys.len()
    };
    keys.take(n as int).map_values(|k: u64| side[k])
}

fn first_quantities(side: &BTreeMap<u64, u64>, depth: usize) -> (q: Vec<u64>)
    ensures
        q@ == top_quantities(side@, depth as nat),
        is_ascending(ascending_keys(side@)),
        ascending_keys(side@).to_set() == side@.dom(),
        ascending_keys(side@).len() == side@.dom().len(),
{
    let values = side.values();
    let ghost ks = choose|ks: Seq<u64>|
        {
            &&& vstd::std_specs::btree::increasing_seq(ks)
            &&& ks.to_set() == side@.dom()
            &&& ks.no_duplicates()
            &&& values.remaining() == ks.map(|i: int, k: u64| &side@[k])
        };
    let mut all: Vec<u64> = Vec::new();
    for q in it: values
        invariant
            all@ == it.seq().take(it.index()).map_values(|r: &u64| *r),
    {
        all.push(*q);
    }
    proof {
        lemma_increasing_is_ascending(ks);
        lemma_ascending_unique(ks, ascending_keys(side@));
        ks.unique_seq_to_set();
        assert(all@ =~= ascending_keys(side@).map_values(|k: u64| side@[k]));
    }
    let n: usize = if depth < all.len() {
        depth
    } else {
        all.len()
    };
    let mut q: Vec<u64> = Vec::new();
    let mut i: usize = 0;
    while i < n
        invariant
            n <= all.len(),
            i <= n,
            q@ == all@.take(i as int),
        decreases n - i,
    {
        q.push(all[i]);
        i = i + 1;
        assert(q@ =~= all@.take(i as int));
    }
    assert(q@ =~= top_quantities(side@, depth as nat));
    q
}

impl FinalOrderbook {
    /// An empty book with timestamp 0.
    pub fn new() -> (book: Self)
        ensures
            book@ == empty_book(),
    {
        let book = FinalOrderbook { timestamp: 0, bids: BTreeMap::new(), asks: BTreeMap::new() };
        assert(book@ =~= empty_book());
        book
    }

    /// Replaces the whole book by the levels of a snapshot message, zero
    /// quantities included, and takes its timestamp.
    pub fn update_snapshot(&mut self, update: &OrderbookUpdate)
        ensures
            final(self)@.timestamp == update.timestamp,
            final(self)@.bids == level_map(update.bids@),
            final(self)@.asks == level_map(update.asks@),
    {
        self.timestamp = update.timestamp;
        self.bids = fill_side(&update.bids);
        self.asks = fill_side(&update.asks);
    }

    /// The quantities of the first `depth` bid levels and of the first
    /// `depth` ask levels, from the lowest price up: what the imbalance at
    /// that depth is computed from.
    pub fn depth_quantities(&self, depth: usize) -> (q: (Vec<u64>, Vec<u64>))
        ensures
            q.0@ == top_quantities(self@.bids, depth as nat),
            q.1@ == top_quantities(self@.asks, depth as nat),
            is_ascending(ascending_keys(self@.bids)),
            ascending_keys(self@.bids).to_set() == self@.bids.dom(),
            ascending_keys(self@.bids).len() == self@.bids.dom().len(),
            is_ascending(ascending_keys(self@.asks)),
            ascending_keys(self@.asks).to_set() == self@.asks.dom(),
            ascending_keys(self@.asks).len() == self@.asks.dom().len(),
    {
        (first_quantities(&self.bids, depth), first_quantities(&self.asks, depth))
    }

    /// Applies the levels of a delta message and takes its timestamp.
    pub fn update_delta(&mut self, update: &OrderbookUpdate)
        ensures
            final(self)@.timestamp == update.timestamp,
            final(self)@.bids == apply_levels(old(self)@.bids, update.bids@),
            final(self)@.asks == apply_levels(old(self)@.asks, update.asks@),
    {
        self.timestamp = update.timestamp;
        apply_side(&mut self.bids, &update.bids);
        apply_side(&mut self.asks, &update.asks);
    }
}

/// The depths, in price levels, at which the imbalance of a book is taken.
pub const IMBALANCE_DEPTHS: [usize; 5] = [1, 5, 10, 25, 50];

/// Whether two sides file the same quantity, or nothing, under `key`.
pub open spec fn agree_at(a: Map<u64, u64>, b: Map<u64, u64>, key: u64) -> bool {
    &&& a.contains_key(key) <==> b.contains_key(key)
    &&& a.contains_key(key) ==> a[key] == b[key]
}

/// Whether some level of `levels` is at a price filed under `key`.
pub open spec fn touches(levels: Seq<(u64, u64)>, key: u64) -> bool {
    exists|i: int| 0 <= i < levels.len() && price_key(levels[i].0) == key
}

/// A delta leaves alone every price level that it does not name.
pub proof fn lemma_delta_untouched(side: Map<u64, u64>, levels: Seq<(u64, u64)>, key: u64)
    requires
        !touches(levels, key),
    ensures
        agree_at(apply_levels(side, levels), side, key),
    decreases levels.len(),
{
    if levels.len() > 0 {
        assert(!touches(levels.drop_last(), key)) by {
            if touches(levels.drop_last(), key) {
                let i = choose|i: int|
                    0 <= i < levels.drop_last().len() && price_key(levels.drop_last()[i].0) == key;
                assert(levels[i] == levels.drop_last()[i]);
            }
        }
        assert(price_key(levels[levels.len() - 1].0) != key);
        lemma_delta_untouched(side, levels.drop_last(), key);
    }
}

/// At a price level that a delta names, the book after the delta does not
/// depend on the book before it.
pub proof fn lemma_delta_touched(
    a: Map<u64, u64>,
    b: Map<u64, u64>,
    levels: Seq<(u64, u64)>,
    key: u64,
)
    requires
        touches(levels, key),
    ensures
        agree_at(apply_levels(a, levels), apply_levels(b, levels), key),
    decreases levels.len(),
{
    let last = levels.len() - 1;
    if price_key(levels[last].0) != key {
        let i = choose|i: int| 0 <= i < levels.len() && price_key(levels[i].0) == key;
        assert(i != last);
        assert(levels.drop_last()[i] == levels[i]);
        assert(touches(levels.drop_last(), key));
        lemma_delta_touched(a, b, levels.drop_last(), key);
    }
}

/// Applying the same delta twice leaves the book as applying it once does.
pub proof fn lemma_delta_idempotent(side: Map<u64, u64>, levels: Seq<(u64, u64)>)
    ensures
        apply_levels(apply_levels(side, levels), levels) == apply_levels(side, levels),
{
    let once = apply_levels(side, levels);
    let twice = apply_levels(once, levels);
    assert forall|key: u64| agree_at(twice, once, key) by {
        if touches(levels, key) {
            lemma_delta_touched(once, side, levels, key);
        } else {
            lemma_delta_untouched(once, levels, key);
        }
    }
    assert(twice.dom() =~= once.dom()) by {
        assert forall|key: u64| twice.dom().contains(key) <==> once.dom().contains(key) by {
            assert(agree_at(twice, once, key));
        }
    }
    assert(twice =~= once) by {
        assert forall|key: u64| #[trigger] twice.contains_key(key) implies twice[key] == once[key] by {
            assert(agree_at(twice, once, key));
        }
    }
}

/// A snapshot whose levels all have nonzero quantities builds the same
/// side as applying those levels as a delta to an empty side.
pub proof fn lemma_snapshot_is_delta_on_empty(levels: Seq<(u64, u64)>)
    requires
        forall|i: int| 0 <= i < levels.len() ==> !is_zero(#[trigger] levels[i].1),
    ensures
        level_map(levels) == apply_levels(Map::empty(), levels),
    decreases levels.len(),
{
    if levels.len() > 0 {
        assert forall|i: int| 0 <= i < levels.drop_last().len() implies !is_zero(
            #[trigger] levels.drop_last()[i].1,
        ) by {
            assert(levels.drop_last()[i] == levels[i]);
        }
        lemma_snapshot_is_delta_on_empty(levels.drop_last());
        assert(!is_zero(levels[levels.len() - 1].1));
    }
}

/// The last level of a message at a price filed under `key`, if any.
pub open spec fn last_level(levels: Seq<(u64, u64)>, key: u64) -> Option<(u64, u64)>
    decreases levels.len(),
{
    if levels.len() == 0 {
        None
    } else if price_key(levels.last().0) == key {
        Some(levels.last())
    } else {
        last_level(levels.drop_last(), key)
    }
}

/// The levels whose price keys `keep` accepts, in order.
pub open spec fn keep_levels(levels: Seq<(u64, u64)>, keep: spec_fn(u64) -> bool) -> Seq<(u64, u64)>
    decreases levels.len(),
{
    if levels.len() == 0 {
        Seq::empty()
    } else if keep(price_key(levels.last().0)) {
        keep_levels(levels.drop_last(), keep).push(levels.last())
    } else {
        keep_levels(levels.drop_last(), keep)
    }
}

/// Whether the last level of a message at the prices of `key` has a
/// nonzero quantity.
pub open spec fn ends_nonzero(levels: Seq<(u64, u64)>, key: u64) -> bool {
    last_level(levels, key) matches Some(l) && !is_zero(l.1)
}

/// The levels of a message without every level at a price whose last
/// level in the message has a zero quantity.
pub open spec fn final_levels(levels: Seq<(u64, u64)>) -> Seq<(u64, u64)> {
    keep_levels(levels, |key: u64| ends_nonzero(levels, key))
}

/// After a delta, a price key holds the quantity of the delta's last level
/// at that price, or nothing if that quantity is zero; a price the delta
/// does not name keeps what it had.
pub proof fn lemma_apply_levels_at(side: Map<u64, u64>, levels: Seq<(u64, u64)>, key: u64)
    ensures
        match last_level(levels, key) {
            Some(l) => if is_zero(l.1) {
                !apply_levels(side, levels).contains_key(key)
            } else {
                apply_levels(side, levels).contains_key(key) && apply_levels(side, levels)[key] == l.1
            },
            None => agree_at(apply_levels(side, levels), side, key),
        },
    decreases levels.len(),
{
    if levels.len() > 0 {
        lemma_apply_levels_at(side, levels.drop_last(), key);
    }
}

/// After a snapshot, a price key holds the quantity of the snapshot's last
/// level at that price, zero included; a price the snapshot does not name
/// holds nothing.
pub proof fn lemma_level_map_at(levels: Seq<(u64, u64)>, key: u64)
    ensures
        match last_level(levels, key) {
            Some(l) => level_map(levels).contains_key(key) && level_map(levels)[key] == l.1,
            None => !level_map(levels).contains_key(key),
        },
    decreases levels.len(),
{
    if levels.len() > 0 {
        lemma_level_map_at(levels.drop_last(), key);
    }
}

proof fn lemma_last_level_kept(levels: Seq<(u64, u64)>, keep: spec_fn(u64) -> bool, key: u64)
    ensures
        last_level(keep_levels(levels, keep), key) == if keep(key) {
            last_level(levels, key)
        } else {
            None
        },
    decreases levels.len(),
{
    if levels.len() > 0 {
        let init = levels.drop_last();
        lemma_last_level_kept(init, keep, key);
        if keep(price_key(levels.last().0)) {
            let kept = keep_levels(init, keep).push(levels.last());
            assert(kept.drop_last() =~= keep_levels(init, keep));
        }
    }
}

/// A delta applied to an empty side builds the same side as a snapshot of
/// the message's final levels: the levels that remain once every price
/// whose last level has a zero quantity is left out.
pub proof fn lemma_delta_on_empty_is_snapshot_of_final_levels(levels: Seq<(u64, u64)>)
    ensures
        apply_levels(Map::empty(), levels) == level_map(final_levels(levels)),
{
    let keep = |key: u64| ends_nonzero(levels, key);
    let a = apply_levels(Map::empty(), levels);
    let b = level_map(final_levels(levels));
    assert forall|key: u64| agree_at(a, b, key) by {
        lemma_apply_levels_at(Map::empty(), levels, key);
        lemma_last_level_kept(levels, keep, key);
        lemma_level_map_at(final_levels(levels), key);
    }
    assert(a.dom() =~= b.dom()) by {
        assert forall|key: u64| a.dom().contains(key) <==> b.dom().contains(key) by {
            assert(agree_at(a, b, key));
        }
    }
    assert(a =~= b) by {
        assert forall|key: u64| #[trigger] a.contains_key(key) implies a[key] == b[key] by {
            assert(agree_at(a, b, key));
        }
    }
}

/// The levels taken at a smaller depth are the first of those taken at a
/// larger depth.
pub proof fn lemma_top_quantities_prefix(side: Map<u64, u64>, d1: nat, d2: nat)
    requires
        d1 <= d2,
    ensures
        top_quantities(side, d1).len() <= top_quantities(side, d2).len(),
        top_quantities(side, d1) == top_quantities(side, d2).take(
            top_quantities(side, d1).len() as int,
        ),
{
    let a = top_quantities(side, d1);
    let b = top_quantities(side, d2);
    assert(a =~= b.take(a.len() as int));
}

} // verus!
