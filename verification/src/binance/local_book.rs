use std::collections::BTreeMap;

use vstd::prelude::*;

verus! {

/// A price level as the book receives it.
///
/// `price` and `quantity` are the IEEE-754 bit patterns of the `f32` values
/// that the exchange sent, and `key` is the integer under which the level is
/// filed: the price scaled by 10^9 and truncated, as the caller computed it.
#[derive(Clone, Copy, Debug, PartialEq, Eq)]
pub struct PriceLevel {
    pub key: u64,
    pub price: u32,
    pub quantity: u32,
}

/// A level kept in the book, with the range of update ids that last set it.
#[derive(Clone, Copy, Debug, PartialEq, Eq)]
pub struct LocalBookRow {
    pub price: u32,
    pub quantity: u32,
    pub first_update_id: u64,
    pub last_update_id: u64,
}

/// One side of a book: rows filed by price key.
pub type Side = Map<u64, LocalBookRow>;

/// A quantity of zero, positive or negative, clears a level; any other bit
/// pattern (NaN included) compares unequal to zero and sets it.
pub open spec fn is_zero_quantity(quantity: u32) -> bool {
    quantity == 0 || quantity == 0x8000_0000u32
}

/// The row that a level stores.
pub open spec fn level_row(level: PriceLevel, first_update_id: u64, last_update_id: u64) -> LocalBookRow {
    LocalBookRow {
        price: level.price,
        quantity: level.quantity,
        first_update_id,
        last_update_id,
    }
}

/// One side after one level was applied to it.
pub open spec fn apply_level(side: Side, level: PriceLevel, first_update_id: u64, last_update_id: u64) -> Side {
    if is_zero_quantity(level.quantity) {
        side.remove(level.key)
    } else {
        side.insert(level.key, level_row(level, first_update_id, last_update_id))
    }
}

/// One side after a sequence of levels was applied to it, in order.
pub open spec fn apply_levels(side: Side, levels: Seq<PriceLevel>, first_update_id: u64, last_update_id: u64) -> Side
    decreases levels.len(),
{
    if levels.len() == 0 {
        side
    } else {
        apply_level(
            apply_levels(side, levels.drop_last(), first_update_id, last_update_id),
            levels.last(),
            first_update_id,
            last_update_id,
        )
    }
}

/// `key` is the highest key of `side`.
pub open spec fn is_top_key(side: Side, key: u64) -> bool {
    &&& side.contains_key(key)
    &&& forall|k: u64| side.contains_key(k) ==> k <= key
}

/// `key` is the lowest key of `side`.
pub open spec fn is_bottom_key(side: Side, key: u64) -> bool {
    &&& side.contains_key(key)
    &&& forall|k: u64| side.contains_key(k) ==> key <= k
}

/// The rows of a side that were last set by an update newer than `update_id`.
pub open spec fn rows_newer_than(side: Side, update_id: u64) -> Side {
    side.restrict(side.dom().filter(|k: u64| side[k].last_update_id > update_id))
}

/// Read after write: after a level is applied, its key holds exactly that
/// level when the quantity is non-zero, and nothing when it is zero.
pub proof fn law_level_read_after_write(side: Side, level: PriceLevel, first_update_id: u64, last_update_id: u64)
    ensures
        ({
            let new = apply_level(side, level, first_update_id, last_update_id);
            &&& !is_zero_quantity(level.quantity) ==> new.contains_key(level.key) && new[level.key]
                == level_row(level, first_update_id, last_update_id)
            &&& is_zero_quantity(level.quantity) ==> !new.contains_key(level.key)
        }),
{
}

/// Only a quantity equal to zero (+0.0 or -0.0) clears a level: any other
/// bit pattern, a quantity below 1 such as 0.5 among them, files the level
/// at its key with exactly its price and quantity.
pub proof fn law_nonzero_quantity_sets_level(side: Side, level: PriceLevel, first_update_id: u64, last_update_id: u64)
    requires
        level.quantity != 0u32,
        level.quantity != 0x8000_0000u32,
    ensures
        apply_level(side, level, first_update_id, last_update_id).contains_key(level.key),
        apply_level(side, level, first_update_id, last_update_id)[level.key] == (LocalBookRow {
            price: level.price,
            quantity: level.quantity,
            first_update_id,
            last_update_id,
        }),
        apply_level(side, level, first_update_id, last_update_id).dom() == side.dom().insert(level.key),
{
    assert(apply_level(side, level, first_update_id, last_update_id).dom() =~= side.dom().insert(level.key));
}

/// A quantity of +0.0 or -0.0 clears the level at its key and nothing else.
pub proof fn law_zero_quantity_clears_level(side: Side, level: PriceLevel, first_update_id: u64, last_update_id: u64)
    requires
        level.quantity == 0u32 || level.quantity == 0x8000_0000u32,
    ensures
        apply_level(side, level, first_update_id, last_update_id).dom() == side.dom().remove(level.key),
{
    assert(apply_level(side, level, first_update_id, last_update_id).dom() =~= side.dom().remove(level.key));
}

/// Applying a level leaves every other key of the side as it was.
pub proof fn law_level_leaves_other_keys(side: Side, level: PriceLevel, first_update_id: u64, last_update_id: u64, k: u64)
    requires
        k != level.key,
    ensures
        apply_level(side, level, first_update_id, last_update_id).contains_key(k) == side.contains_key(k),
        side.contains_key(k) ==> apply_level(side, level, first_update_id, last_update_id)[k] == side[k],
{
}

/// Applying the same level twice is the same as applying it once.
pub proof fn law_level_idempotent(side: Side, level: PriceLevel, first_update_id: u64, last_update_id: u64)
    ensures
        apply_level(apply_level(side, level, first_update_id, last_update_id), level, first_update_id, last_update_id)
            == apply_level(side, level, first_update_id, last_update_id),
{
    let once = apply_level(side, level, first_update_id, last_update_id);
    assert(apply_level(once, level, first_update_id, last_update_id) =~= once);
}

/// A side has at most one highest and one lowest key, so `best_bid` and
/// `best_ask` name a single level.
pub proof fn law_top_and_bottom_unique(side: Side, a: u64, b: u64)
    ensures
        is_top_key(side, a) && is_top_key(side, b) ==> a == b,
        is_bottom_key(side, a) && is_bottom_key(side, b) ==> a == b,
{
}

/// A non-zero level filed above every key of a side becomes its best bid;
/// one filed below every key becomes its best ask.
pub proof fn law_new_extreme_level(side: Side, level: PriceLevel, first_update_id: u64, last_update_id: u64)
    requires
        !is_zero_quantity(level.quantity),
    ensures
        (forall|k: u64| side.contains_key(k) ==> k < level.key) ==> is_top_key(
            apply_level(side, level, first_update_id, last_update_id),
            level.key,
        ),
        (forall|k: u64| side.contains_key(k) ==> level.key < k) ==> is_bottom_key(
            apply_level(side, level, first_update_id, last_update_id),
            level.key,
        ),
{
}

/// The abstract state of a book.
pub struct BookView {
    pub last_updated_id: Option<u64>,
    pub bids: Side,
    pub asks: Side,
}

/// The local copy of one market's order book.
#[derive(Debug)]
pub struct LocalBook {
    last_updated_id: Option<u64>,
    bids: BTreeMap<u64, LocalBookRow>,
    asks: BTreeMap<u64, LocalBookRow>,
}

impl View for LocalBook {
    type V = BookView;

    closed spec fn view(&self) -> BookView {
        BookView { last_updated_id: self.last_updated_id, bids: self.bids@, asks: self.asks@ }
    }
}

/// The highest key of a side, by a walk over its keys.
fn top_key(side: &BTreeMap<u64, LocalBookRow>) -> (key: u64)
    requires
        side@.len() > 0,
    ensures
        is_top_key(side@, key),
{
    let mut best: Option<u64> = None;
    for k in it: side.keys()
        invariant
            it.seq().unref().to_set() == side@.dom(),
            best is None <==> it.index() == 0,
            best matches Some(b) ==> {
                &&& side@.contains_key(b)
                &&& forall|i: int| 0 <= i < it.index() ==> *it.seq()[i] <= b
            },
    {
        let k = *k;
        match best {
            None => {
                best = Some(k);
            },
            Some(b) => {
                if k > b {
                    best = Some(k);
                }
            },
        }
    }
    proof {
        assert(side@.dom().finite());
        assert(side@.dom().len() > 0);
    }
    match best {
        Some(b) => b,
        None => 0,
    }
}

/// The lowest key of a side, by a walk over its keys.
fn bottom_key(side: &BTreeMap<u64, LocalBookRow>) -> (key: u64)
    requires
        side@.len() > 0,
    ensures
        is_bottom_key(side@, key),
{
    let mut best: Option<u64> = None;
    for k in it: side.keys()
        invariant
            it.seq().unref().to_set() == side@.dom(),
            best is None <==> it.index() == 0,
            best matches Some(b) ==> {
                &&& side@.contains_key(b)
                &&& forall|i: int| 0 <= i < it.index() ==> b <= *it.seq()[i]
            },
    {
        let k = *k;
        match best {
            None => {
                best = Some(k);
            },
            Some(b) => {
                if k < b {
                    best = Some(k);
                }
            },
        }
    }
    proof {
        assert(side@.dom().finite());
        assert(side@.dom().len() > 0);
    }
    match best {
        Some(b) => b,
        None => 0,
    }
}

/// The rows of a side last set by an update newer than `update_id`.
fn keep_rows_newer_than(side: &BTreeMap<u64, LocalBookRow>, update_id: u64) -> (kept: BTreeMap<u64, LocalBookRow>)
    ensures
        kept@ == rows_newer_than(side@, update_id),
{
    let mut kept: BTreeMap<u64, LocalBookRow> = BTreeMap::new();
    for kv in it: side.iter()
        invariant
            it.seq().len() == side@.dom().len(),
            forall|i: int| 0 <= i < it.seq().len() ==> side@.contains_key(*it.seq()[i].0) && side@[*it.seq()[i].0] == *it.seq()[i].1,
            forall|k: u64| #[trigger] side@.contains_key(k) ==> it.seq().contains((&k, &side@[k])),
            forall|k: u64| #[trigger] kept@.contains_key(k) ==> {
                &&& side@.contains_key(k)
                &&& side@[k].last_update_id > update_id
                &&& kept@[k] == side@[k]
            },
            forall|i: int| 0 <= i < it.index() && side@[*it.seq()[i].0].last_update_id > update_id
                ==> kept@.contains_key(*it.seq()[i].0),
            it.index() == it.seq().len() ==> forall|k: u64| #[trigger] side@.contains_key(k) && side@[k].last_update_id > update_id
                ==> kept@.contains_key(k),
    {
        let (k, row) = kv;
        if row.last_update_id > update_id {
            kept.insert(*k, *row);
        }
    }
    assert(kept@ =~= rows_newer_than(side@, update_id));
    kept
}

impl LocalBook {
    /// An empty book.
    pub fn new() -> (book: LocalBook)
        ensures
            book@.last_updated_id == Some(0u64),
            book@.bids == Map::<u64, LocalBookRow>::empty(),
            book@.asks == Map::<u64, LocalBookRow>::empty(),
    {
        LocalBook { last_updated_id: Some(0), bids: BTreeMap::new(), asks: BTreeMap::new() }
    }

    /// Sets or clears one bid level. A zero quantity removes the level filed
    /// under `level.key`; any other quantity files the level there, replacing
    /// what was filed before.
    pub fn update_with_bid(&mut self, level: PriceLevel, first_update_id: u64, last_update_id: u64)
        ensures
            final(self)@.bids == apply_level(old(self)@.bids, level, first_update_id, last_update_id),
            final(self)@.asks == old(self)@.asks,
            final(self)@.last_updated_id == old(self)@.last_updated_id,
    {
        if level.quantity != 0 && level.quantity != 0x8000_0000u32 {
            self.bids.insert(
                level.key,
                LocalBookRow {
                    price: level.price,
                    quantity: level.quantity,
                    first_update_id,
                    last_update_id,
                },
            );
        } else {
            self.bids.remove(&level.key);
        }
    }

    /// Sets or clears one ask level, as `update_with_bid` does for bids.
    pub fn update_with_ask(&mut self, level: PriceLevel, first_update_id: u64, last_update_id: u64)
        ensures
            final(self)@.asks == apply_level(old(self)@.asks, level, first_update_id, last_update_id),
            final(self)@.bids == old(self)@.bids,
            final(self)@.last_updated_id == old(self)@.last_updated_id,
    {
        if level.quantity != 0 && level.quantity != 0x8000_0000u32 {
            self.asks.insert(
                level.key,
                LocalBookRow {
                    price: level.price,
                    quantity: level.quantity,
                    first_update_id,
                    last_update_id,
                },
            );
        } else {
            self.asks.remove(&level.key);
        }
    }

    /// Applies bid levels in order.
    pub fn update_with_bids(&mut self, levels: &Vec<PriceLevel>, first_update_id: u64, last_update_id: u64)
        ensures
            final(self)@.bids == apply_levels(old(self)@.bids, levels@, first_update_id, last_update_id),
            final(self)@.asks == old(self)@.asks,
            final(self)@.last_updated_id == old(self)@.last_updated_id,
    {
        let n = levels.len();
        for i in 0..n
            invariant
                n == levels@.len(),
                self@.bids == apply_levels(old(self)@.bids, levels@.take(i as int), first_update_id, last_update_id),
                self@.asks == old(self)@.asks,
                self@.last_updated_id == old(self)@.last_updated_id,
        {
            assert(levels@.take(i + 1).drop_last() =~= levels@.take(i as int));
            self.update_with_bid(levels[i], first_update_id, last_update_id);
        }
        assert(levels@.take(n as int) =~= levels@);
    }

    /// Applies ask levels in order.
    pub fn update_with_asks(&mut self, levels: &Vec<PriceLevel>, first_update_id: u64, last_update_id: u64)
        ensures
            final(self)@.asks == apply_levels(old(self)@.asks, levels@, first_update_id, last_update_id),
            final(self)@.bids == old(self)@.bids,
            final(self)@.last_updated_id == old(self)@.last_updated_id,
    {
        let n = levels.len();
        for i in 0..n
            invariant
                n == levels@.len(),
                self@.asks == apply_levels(old(self)@.asks, levels@.take(i as int), first_update_id, last_update_id),
                self@.bids == old(self)@.bids,
                self@.last_updated_id == old(self)@.last_updated_id,
        {
            assert(levels@.take(i + 1).drop_last() =~= levels@.take(i as int));
            self.update_with_ask(levels[i], first_update_id, last_update_id);
        }
        assert(levels@.take(n as int) =~= levels@);
    }

    /// Drops every row, on both sides, that no update newer than `update_id` set.
    pub fn drop_rows_up_to(&mut self, update_id: u64)
        ensures
            final(self)@.bids == rows_newer_than(old(self)@.bids, update_id),
            final(self)@.asks == rows_newer_than(old(self)@.asks, update_id),
            final(self)@.last_updated_id == old(self)@.last_updated_id,
    {
        let bids = keep_rows_newer_than(&self.bids, update_id);
        let asks = keep_rows_newer_than(&self.asks, update_id);
        self.bids = bids;
        self.asks = asks;
    }

    /// The number of bid levels.
    pub fn bid_count(&self) -> (n: usize)
        ensures
            n == self@.bids.len(),
    {
        self.bids.len()
    }

    /// The number of ask levels.
    pub fn ask_count(&self) -> (n: usize)
        ensures
            n == self@.asks.len(),
    {
        self.asks.len()
    }

    /// The price and quantity of the highest bid.
    pub fn best_bid(&self) -> (r: (u32, u32))
        requires
            self@.bids.len() > 0,
        ensures
            exists|k: u64| is_top_key(self@.bids, k) && r == (self@.bids[k].price, self@.bids[k].quantity),
    {
        let k = top_key(&self.bids);
        match self.bids.get(&k) {
            Some(row) => (row.price, row.quantity),
            None => (0, 0),
        }
    }

    /// The price and quantity of the lowest ask.
    pub fn best_ask(&self) -> (r: (u32, u32))
        requires
            self@.asks.len() > 0,
        ensures
            exists|k: u64| is_bottom_key(self@.asks, k) && r == (self@.asks[k].price, self@.asks[k].quantity),
    {
        let k = bottom_key(&self.asks);
        match self.asks.get(&k) {
            Some(row) => (row.price, row.quantity),
            None => (0, 0),
        }
    }
}

} // verus!
