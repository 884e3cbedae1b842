use vstd::prelude::*;

use crate::common::error::Error;
use crate::binance::schema::incoming::{level_text_view, levels_text_of, opt_levels_view, read_levels, LevelText};
use crate::common::json_value::{json_of, json_rendering, member, parse_json, render_json, u64_of, JsonNumber, JsonValue};

use crate::binance::local_book::{
    apply_level, apply_levels, is_zero_quantity, level_row, rows_newer_than, LocalBook, LocalBookRow, PriceLevel, Side,
};

verus! {

/// A full depth snapshot of one market, as the REST endpoint returns it.
pub struct DepthSnapshot {
    pub last_update_id: u64,
    pub bids: Vec<PriceLevel>,
    pub asks: Vec<PriceLevel>,
}

/// One side of a book after a snapshot taken at `update_id` with `levels` on
/// that side was applied: rows that no newer update set are dropped, then
/// the snapshot's levels are applied in order, stamped with `update_id`.
pub open spec fn side_after_snapshot(side: Side, levels: Seq<PriceLevel>, update_id: u64) -> Side {
    apply_levels(rows_newer_than(side, update_id), levels, update_id, update_id)
}

/// The last level of `levels` filed under `key` is at position `j`.
pub open spec fn last_level_at(levels: Seq<PriceLevel>, key: u64, j: int) -> bool {
    &&& 0 <= j < levels.len()
    &&& levels[j].key == key
    &&& forall|i: int| j < i < levels.len() ==> levels[i].key != key
}

/// Applying levels: the last level filed under a key decides it, and a key
/// that no level names keeps what it held.
pub proof fn lemma_apply_levels_key(side: Side, levels: Seq<PriceLevel>, first: u64, last: u64, key: u64)
    ensures
        (forall|i: int| 0 <= i < levels.len() ==> levels[i].key != key) ==> {
            &&& apply_levels(side, levels, first, last).contains_key(key) == side.contains_key(key)
            &&& side.contains_key(key) ==> apply_levels(side, levels, first, last)[key] == side[key]
        },
        forall|j: int| last_level_at(levels, key, j) ==> {
            &&& apply_levels(side, levels, first, last).contains_key(key) == !is_zero_quantity(levels[j].quantity)
            &&& !is_zero_quantity(levels[j].quantity) ==> apply_levels(side, levels, first, last)[key]
                == level_row(levels[j], first, last)
        },
    decreases levels.len(),
{
    if levels.len() > 0 {
        let rest = levels.drop_last();
        lemma_apply_levels_key(side, rest, first, last, key);
        assert forall|j: int| last_level_at(levels, key, j) && j < levels.len() - 1 implies last_level_at(rest, key, j) by {
        }
        if (forall|i: int| 0 <= i < levels.len() ==> levels[i].key != key) {
            assert(levels.last().key != key);
            assert forall|i: int| 0 <= i < rest.len() implies rest[i].key != key by {
                assert(levels[i].key != key);
            }
        }
    }
}

/// After a snapshot taken at `update_id`, no row of the side predates it:
/// every row was set either by an update newer than the snapshot or by the
/// snapshot itself.
pub proof fn law_snapshot_leaves_no_stale_row(side: Side, levels: Seq<PriceLevel>, update_id: u64, k: u64)
    requires
        side_after_snapshot(side, levels, update_id).contains_key(k),
    ensures
        side_after_snapshot(side, levels, update_id)[k].last_update_id >= update_id,
    decreases levels.len(),
{
    if levels.len() > 0 {
        let rest = levels.drop_last();
        let level = levels.last();
        if k != level.key || !is_zero_quantity(level.quantity) {
            if k != level.key {
                law_snapshot_leaves_no_stale_row(side, rest, update_id, k);
            }
        }
    }
}

/// After a snapshot, the snapshot's last level at a price decides that
/// price; a price that the snapshot does not name keeps its row only when a
/// newer update than the snapshot set it.
pub proof fn law_snapshot_decides_its_levels(side: Side, levels: Seq<PriceLevel>, update_id: u64, key: u64)
    ensures
        forall|j: int| last_level_at(levels, key, j) ==> {
            &&& side_after_snapshot(side, levels, update_id).contains_key(key) == !is_zero_quantity(levels[j].quantity)
            &&& !is_zero_quantity(levels[j].quantity) ==> side_after_snapshot(side, levels, update_id)[key]
                == level_row(levels[j], update_id, update_id)
        },
        (forall|i: int| 0 <= i < levels.len() ==> levels[i].key != key) ==> {
            &&& side_after_snapshot(side, levels, update_id).contains_key(key)
                == (side.contains_key(key) && side[key].last_update_id > update_id)
            &&& side_after_snapshot(side, levels, update_id).contains_key(key)
                ==> side_after_snapshot(side, levels, update_id)[key] == side[key]
        },
{
    lemma_apply_levels_key(rows_newer_than(side, update_id), levels, update_id, update_id, key);
}

/// Applying the same snapshot a second time changes nothing.
pub proof fn law_snapshot_idempotent(side: Side, levels: Seq<PriceLevel>, update_id: u64)
    ensures
        side_after_snapshot(side_after_snapshot(side, levels, update_id), levels, update_id)
            == side_after_snapshot(side, levels, update_id),
{
    let once = side_after_snapshot(side, levels, update_id);
    let twice = side_after_snapshot(once, levels, update_id);
    assert forall|k: u64| #[trigger] twice.contains_key(k) == once.contains_key(k)
        && (once.contains_key(k) ==> twice[k] == once[k]) by {
        law_snapshot_decides_its_levels(side, levels, update_id, k);
        law_snapshot_decides_its_levels(once, levels, update_id, k);
        if exists|j: int| 0 <= j < levels.len() && levels[j].key == k {
            lemma_last_level_exists(levels, k);
        }
    }
    assert(twice =~= once);
}

/// A key named by some level has a last level naming it.
pub proof fn lemma_last_level_exists(levels: Seq<PriceLevel>, key: u64)
    requires
        exists|j: int| 0 <= j < levels.len() && levels[j].key == key,
    ensures
        exists|j: int| last_level_at(levels, key, j),
    decreases levels.len(),
{
    if levels.last().key == key {
        assert(last_level_at(levels, key, levels.len() - 1));
    } else {
        let rest = levels.drop_last();
        let j0 = choose|j: int| 0 <= j < levels.len() && levels[j].key == key;
        assert(rest[j0].key == key);
        lemma_last_level_exists(rest, key);
        let j = choose|j: int| last_level_at(rest, key, j);
        assert forall|i: int| j < i < levels.len() implies levels[i].key != key by {
            if i < levels.len() - 1 {
                assert(rest[i].key != key);
            }
        }
        assert(last_level_at(levels, key, j));
    }
}

/// The upper case of a character, as Unicode defines it (one character may
/// become several).
pub uninterp spec fn char_upper(c: char) -> Seq<char>;

/// The upper case of a character.
///
/// Calls `char::to_uppercase` and collects what it yields. The standard
/// library documents it as the Unicode upper-case mapping, which takes an
/// ASCII lower-case letter to its capital and leaves every other ASCII
/// character as it is.
#[verifier::external_body]
fn upper_case(c: char) -> (r: String)
    ensures
        r@ == char_upper(c),
        'a' <= c <= 'z' ==> r@ == seq![((c as int) - 32) as char],
        (c as int) < 128 && !('a' <= c <= 'z') ==> r@ == seq![c],
{
    c.to_uppercase().collect::<String>()
}

/// A text in upper case, character by character.
pub open spec fn upper_text(s: Seq<char>) -> Seq<char>
    decreases s.len(),
{
    if s.len() == 0 {
        Seq::empty()
    } else {
        upper_text(s.drop_last()) + char_upper(s.last())
    }
}

/// The address of the depth snapshot of a market: its symbol in upper
/// case, with the largest depth the endpoint serves.
pub open spec fn snapshot_url_text(symbol: Seq<char>) -> Seq<char> {
    "https://api.binance.com/api/v3/depth?symbol="@ + upper_text(symbol) + "&limit=5000"@
}

/// The address of the depth snapshot of a market.
pub fn snapshot_url(symbol: &str) -> (r: String)
    ensures
        r@ == snapshot_url_text(symbol@),
{
    let mut url = String::from_str("https://api.binance.com/api/v3/depth?symbol=");
    let ghost start = url@;
    let n = symbol.unicode_len();
    let mut i: usize = 0;
    while i < n
        invariant
            n == symbol@.len(),
            i <= n,
            url@ == start + upper_text(symbol@.take(i as int)),
        decreases n - i,
    {
        let upper = upper_case(symbol.get_char(i));
        url.append(upper.as_str());
        proof {
            assert(symbol@.take(i + 1).drop_last() =~= symbol@.take(i as int));
        }
        i = i + 1;
    }
    proof {
        assert(symbol@.take(n as int) =~= symbol@);
    }
    url.append("&limit=5000");
    url
}

/// What a depth snapshot response writes, before any number in it is read:
/// the compact JSON text (carried by errors), the last update id where it
/// is a `u64`, and the bids and asks where they are arrays.
pub struct SnapshotText {
    pub rendering: String,
    pub last_update_id: Option<u64>,
    pub bids: Option<Vec<LevelText>>,
    pub asks: Option<Vec<LevelText>>,
}

/// The last update id that a snapshot response's JSON holds.
pub open spec fn snapshot_update_id(v: JsonValue) -> Option<u64> {
    match member(v, "lastUpdateId"@) {
        Some(id) => u64_of(id),
        None => None,
    }
}

/// The snapshot's last update id is its `lastUpdateId` member when that is
/// a non-negative integer, whole, with no narrowing; otherwise there is none.
pub proof fn law_snapshot_update_id(v: JsonValue, n: u64)
    ensures
        member(v, "lastUpdateId"@) == Some(JsonValue::Number(JsonNumber::PosInt(n))) ==> snapshot_update_id(v) == Some(n),
        snapshot_update_id(v) == Some(n) ==> member(v, "lastUpdateId"@) == Some(JsonValue::Number(JsonNumber::PosInt(n))),
{
}

/// Reads the body of a depth snapshot response: a body that is no JSON is
/// refused with the error that names the market and carries the body;
/// otherwise its `lastUpdateId`, `bids` and `asks` are taken out.
pub fn read_snapshot(symbol: &str, body: String) -> (r: Result<SnapshotText, Error>)
    ensures
        match json_of(body@) {
            None => (r matches Err(Error::SnapshotParsingError { symbol: s, message: m, body: b })
                && s@ == symbol@ && m@ == "Unable to parse body into JSON"@ && b@ == body@),
            Some(v) => (r matches Ok(t) && t.rendering@ == json_rendering(body@)
                && t.last_update_id == snapshot_update_id(v)
                && opt_levels_view(t.bids) == levels_text_of(member(v, "bids"@))
                && opt_levels_view(t.asks) == levels_text_of(member(v, "asks"@))),
        },
{
    let v = match parse_json(body.as_str()) {
        Some(v) => v,
        None => {
            return Err(Error::SnapshotParsingError {
                symbol: String::from_str(symbol),
                message: String::from_str("Unable to parse body into JSON"),
                body,
            });
        },
    };
    let rendering = match render_json(body.as_str()) {
        Some(text) => text,
        None => String::new(),
    };
    let last_update_id = match v.get("lastUpdateId") {
        Some(id) => id.as_u64(),
        None => None,
    };
    let bids = read_levels(v.get("bids"));
    let asks = read_levels(v.get("asks"));
    Ok(SnapshotText { rendering, last_update_id, bids, asks })
}

/// What the caller read as `f32` of a level's texts: the price's book key
/// and bits, the quantity's bits; `None` where the text is missing or no
/// number.
#[derive(Clone, Copy, Debug, PartialEq, Eq)]
pub struct LevelNumbers {
    pub price: Option<(u64, u32)>,
    pub quantity: Option<u32>,
}

/// A level's read: the price first, then the quantity; a missing text is
/// as bad as one that is no number.
pub open spec fn level_read_of(text: (Option<Seq<char>>, Option<Seq<char>>), n: LevelNumbers) -> LevelRead {
    match (text.0, n.price) {
        (Some(_), Some((key, price))) => match (text.1, n.quantity) {
            (Some(_), Some(quantity)) => LevelRead::Read(PriceLevel { key, price, quantity }),
            _ => LevelRead::BadQuantity,
        },
        _ => LevelRead::BadPrice,
    }
}

/// The reads of one side: each level's texts with what the caller read of
/// them.
pub open spec fn side_reads_of(
    texts: Option<Seq<(Option<Seq<char>>, Option<Seq<char>>)>>,
    numbers: Seq<LevelNumbers>,
) -> Option<Seq<LevelRead>> {
    match texts {
        Some(t) => Some(Seq::new(t.len(), |i: int| level_read_of(t[i], numbers[i]))),
        None => None,
    }
}

/// Pairs a side's level texts with what the caller read of them.
fn side_levels(texts: &Option<Vec<LevelText>>, numbers: &Vec<LevelNumbers>) -> (r: Option<Vec<LevelRead>>)
    requires
        texts matches Some(t) ==> t.len() == numbers.len(),
    ensures
        opt_reads(r) == side_reads_of(opt_levels_view(*texts), numbers@),
{
    match texts {
        None => None,
        Some(t) => {
            let ghost target = side_reads_of(opt_levels_view(*texts), numbers@)->Some_0;
            let mut reads: Vec<LevelRead> = Vec::new();
            let n = t.len();
            for i in 0..n
                invariant
                    n == t@.len(),
                    n == numbers@.len(),
                    target.len() == n,
                    forall|k: int| 0 <= k < n ==> #[trigger] target[k] == level_read_of(level_text_view(t@[k]), numbers@[k]),
                    reads@.len() == i,
                    forall|k: int| 0 <= k < i ==> #[trigger] reads@[k] == target[k],
            {
                let level = &t[i];
                let read = match (&level.price, numbers[i].price) {
                    (Some(_), Some((key, price))) => match (&level.quantity, numbers[i].quantity) {
                        (Some(_), Some(quantity)) => LevelRead::Read(PriceLevel { key, price, quantity }),
                        _ => LevelRead::BadQuantity,
                    },
                    _ => LevelRead::BadPrice,
                };
                reads.push(read);
            }
            assert(reads@ =~= target);
            Some(reads)
        },
    }
}

/// Makes a snapshot from a response's texts and what the caller read as
/// `f32` of each level's texts (one read per level, in order): the first
/// thing that is missing or no number, in the order of `snapshot_reads`,
/// is refused with its message and the response's compact JSON.
pub fn snapshot_from_text(text: SnapshotText, bids: &Vec<LevelNumbers>, asks: &Vec<LevelNumbers>) -> (r: Result<DepthSnapshot, Error>)
    requires
        text.bids matches Some(b) ==> b.len() == bids.len(),
        text.asks matches Some(a) ==> a.len() == asks.len(),
    ensures
        match snapshot_reads(
            text.last_update_id,
            side_reads_of(opt_levels_view(text.bids), bids@),
            side_reads_of(opt_levels_view(text.asks), asks@),
        ) {
            Ok((id, b, a)) => (r matches Ok(snap) && snap.last_update_id == id && snap.bids@ == b && snap.asks@ == a),
            Err(msg) => (r matches Err(Error::SnapshotParsingError { symbol, message, body })
                && symbol@ == ""@ && message@ == msg && body@ == text.rendering@),
        },
{
    let bid_reads = side_levels(&text.bids, bids);
    let ask_reads = side_levels(&text.asks, asks);
    snapshot_from_reads(text.rendering, text.last_update_id, bid_reads, ask_reads)
}

/// One level of a snapshot as the caller read it: its price and quantity,
/// or which of the two could not be read.
#[derive(Clone, Copy, Debug, PartialEq, Eq)]
pub enum LevelRead {
    Read(PriceLevel),
    BadPrice,
    BadQuantity,
}

/// The levels of one side, or the first level that could not be read:
/// `Err(true)` for its price, `Err(false)` for its quantity.
pub open spec fn side_reads(reads: Seq<LevelRead>) -> Result<Seq<PriceLevel>, bool>
    decreases reads.len(),
{
    if reads.len() == 0 {
        Ok(Seq::empty())
    } else {
        match side_reads(reads.drop_last()) {
            Err(e) => Err(e),
            Ok(levels) => match reads.last() {
                LevelRead::Read(level) => Ok(levels.push(level)),
                LevelRead::BadPrice => Err(true),
                LevelRead::BadQuantity => Err(false),
            },
        }
    }
}

/// The snapshot that the reads make, or the message of the first thing
/// that could not be read, in this order: the last update id, the bids
/// array, each bid's price then quantity, the asks array, each ask's price
/// then quantity.
pub open spec fn snapshot_reads(
    last_update_id: Option<u64>,
    bids: Option<Seq<LevelRead>>,
    asks: Option<Seq<LevelRead>>,
) -> Result<(u64, Seq<PriceLevel>, Seq<PriceLevel>), Seq<char>> {
    match last_update_id {
        None => Err("Error parsing lastUpdateId"@),
        Some(id) => match bids {
            None => Err("Error parsing bids"@),
            Some(b) => match side_reads(b) {
                Err(true) => Err("Error parsing bid.price_level"@),
                Err(false) => Err("Error parsing bid.quantity"@),
                Ok(bid_levels) => match asks {
                    None => Err("Error parsing asks"@),
                    Some(a) => match side_reads(a) {
                        Err(true) => Err("Error parsing ask.price_level"@),
                        Err(false) => Err("Error parsing ask.quantity"@),
                        Ok(ask_levels) => Ok((id, bid_levels, ask_levels)),
                    },
                },
            },
        },
    }
}

/// A side whose levels all read gives those levels, in order.
pub proof fn law_side_reads_all_read(reads: Seq<LevelRead>)
    requires
        forall|i: int| 0 <= i < reads.len() ==> reads[i] is Read,
    ensures
        side_reads(reads) matches Ok(levels) && levels.len() == reads.len()
            && forall|i: int| 0 <= i < reads.len() ==> reads[i] == LevelRead::Read(#[trigger] levels[i]),
    decreases reads.len(),
{
    if reads.len() > 0 {
        let rest = reads.drop_last();
        assert forall|i: int| 0 <= i < rest.len() implies rest[i] is Read by {
            assert(rest[i] == reads[i]);
        }
        law_side_reads_all_read(rest);
        assert(reads[reads.len() - 1] is Read);
        let levels = side_reads(reads)->Ok_0;
        let before = side_reads(rest)->Ok_0;
        assert forall|i: int| 0 <= i < reads.len() implies reads[i] == LevelRead::Read(#[trigger] levels[i]) by {
            if i < reads.len() - 1 {
                assert(levels[i] == before[i]);
                assert(rest[i] == reads[i]);
            }
        }
    }
}

/// The first level of a side that does not read decides its failure: a
/// bad price gives `Err(true)`, a bad quantity `Err(false)`, whatever
/// follows it.
pub proof fn law_side_reads_first_failure(reads: Seq<LevelRead>, k: int)
    requires
        0 <= k < reads.len(),
        forall|i: int| 0 <= i < k ==> reads[i] is Read,
        !(reads[k] is Read),
    ensures
        reads[k] is BadPrice ==> side_reads(reads) == Err::<Seq<PriceLevel>, bool>(true),
        reads[k] is BadQuantity ==> side_reads(reads) == Err::<Seq<PriceLevel>, bool>(false),
{
    let pre = reads.take(k);
    assert forall|i: int| 0 <= i < pre.len() implies pre[i] is Read by {
        assert(pre[i] == reads[i]);
    }
    law_side_reads_all_read(pre);
    assert(reads.take(k + 1).drop_last() =~= pre);
    lemma_side_reads_stops(reads, k + 1);
}

/// What a snapshot response is refused for, in order: no last update id;
/// then no bids array; then the first bid that does not read; then no asks
/// array; then the first ask that does not read. A response where all of
/// them read gives its id and its levels.
pub proof fn law_snapshot_failure_order(
    n: u64,
    b: Seq<LevelRead>,
    a: Seq<LevelRead>,
    bids: Option<Seq<LevelRead>>,
    asks: Option<Seq<LevelRead>>,
    bid_levels: Seq<PriceLevel>,
    ask_levels: Seq<PriceLevel>,
)
    ensures
        snapshot_reads(None, bids, asks) == Err::<(u64, Seq<PriceLevel>, Seq<PriceLevel>), Seq<char>>("Error parsing lastUpdateId"@),
        snapshot_reads(Some(n), None, asks) == Err::<(u64, Seq<PriceLevel>, Seq<PriceLevel>), Seq<char>>("Error parsing bids"@),
        side_reads(b) == Err::<Seq<PriceLevel>, bool>(true) ==> snapshot_reads(Some(n), Some(b), asks) == Err::<(u64, Seq<PriceLevel>, Seq<PriceLevel>), Seq<char>>("Error parsing bid.price_level"@),
        side_reads(b) == Err::<Seq<PriceLevel>, bool>(false) ==> snapshot_reads(Some(n), Some(b), asks) == Err::<(u64, Seq<PriceLevel>, Seq<PriceLevel>), Seq<char>>("Error parsing bid.quantity"@),
        side_reads(b) is Ok ==> snapshot_reads(Some(n), Some(b), None) == Err::<(u64, Seq<PriceLevel>, Seq<PriceLevel>), Seq<char>>("Error parsing asks"@),
        side_reads(b) is Ok && side_reads(a) == Err::<Seq<PriceLevel>, bool>(true)
            ==> snapshot_reads(Some(n), Some(b), Some(a)) == Err::<(u64, Seq<PriceLevel>, Seq<PriceLevel>), Seq<char>>("Error parsing ask.price_level"@),
        side_reads(b) is Ok && side_reads(a) == Err::<Seq<PriceLevel>, bool>(false)
            ==> snapshot_reads(Some(n), Some(b), Some(a)) == Err::<(u64, Seq<PriceLevel>, Seq<PriceLevel>), Seq<char>>("Error parsing ask.quantity"@),
        side_reads(b) == Ok::<Seq<PriceLevel>, bool>(bid_levels) && side_reads(a) == Ok::<Seq<PriceLevel>, bool>(ask_levels)
            ==> snapshot_reads(Some(n), Some(b), Some(a)) == Ok::<(u64, Seq<PriceLevel>, Seq<PriceLevel>), Seq<char>>((n, bid_levels, ask_levels)),
{
}

/// A level's price is read first: a price text that is missing or no
/// number makes it a bad price, whatever its quantity; then a quantity
/// text that is missing or no number makes it a bad quantity; otherwise it
/// is the level with the price's key and bits and the quantity's bits.
pub proof fn law_level_read(text: (Option<Seq<char>>, Option<Seq<char>>), n: LevelNumbers, key: u64, price: u32, quantity: u32)
    ensures
        text.0 is None || n.price is None ==> level_read_of(text, n) == LevelRead::BadPrice,
        text.0 is Some && n.price is Some && (text.1 is None || n.quantity is None) ==> level_read_of(text, n) == LevelRead::BadQuantity,
        text.0 is Some && text.1 is Some && n.price == Some((key, price)) && n.quantity == Some(quantity)
            ==> level_read_of(text, n) == LevelRead::Read(PriceLevel { key, price, quantity }),
{
}

/// The levels of one side, or the first level that could not be read.
fn read_side(reads: &Vec<LevelRead>) -> (r: Result<Vec<PriceLevel>, bool>)
    ensures
        match side_reads(reads@) {
            Ok(levels) => r matches Ok(v) && v@ == levels,
            Err(e) => r == Err::<Vec<PriceLevel>, bool>(e),
        },
{
    let mut levels: Vec<PriceLevel> = Vec::new();
    let n = reads.len();
    for i in 0..n
        invariant
            n == reads@.len(),
            side_reads(reads@.take(i as int)) == Ok::<Seq<PriceLevel>, bool>(levels@),
    {
        assert(reads@.take(i + 1).drop_last() =~= reads@.take(i as int));
        match reads[i] {
            LevelRead::Read(level) => {
                levels.push(level);
            },
            LevelRead::BadPrice => {
                proof {
                    lemma_side_reads_stops(reads@, i as int + 1);
                }
                return Err(true);
            },
            LevelRead::BadQuantity => {
                proof {
                    lemma_side_reads_stops(reads@, i as int + 1);
                }
                return Err(false);
            },
        }
    }
    assert(reads@.take(n as int) =~= reads@);
    Ok(levels)
}

/// Once a prefix has failed, the whole side fails the same way.
proof fn lemma_side_reads_stops(reads: Seq<LevelRead>, k: int)
    requires
        0 <= k <= reads.len(),
        side_reads(reads.take(k)) is Err,
    ensures
        side_reads(reads) == side_reads(reads.take(k)),
    decreases reads.len() - k,
{
    if k < reads.len() {
        assert(reads.take(k + 1).drop_last() =~= reads.take(k));
        lemma_side_reads_stops(reads, k + 1);
    } else {
        assert(reads.take(k) =~= reads);
    }
}

/// Makes a snapshot from what the caller read of the response: the first
/// thing that could not be read, in the order of `snapshot_reads`, is
/// refused with its message and the response body.
pub fn snapshot_from_reads(
    body: String,
    last_update_id: Option<u64>,
    bids: Option<Vec<LevelRead>>,
    asks: Option<Vec<LevelRead>>,
) -> (r: Result<DepthSnapshot, Error>)
    ensures
        match snapshot_reads(last_update_id, opt_reads(bids), opt_reads(asks)) {
            Ok((id, b, a)) => (r matches Ok(snap) && snap.last_update_id == id && snap.bids@ == b && snap.asks@ == a),
            Err(msg) => (r matches Err(Error::SnapshotParsingError { symbol, message, body: text })
                && symbol@ == ""@ && message@ == msg && text@ == body@),
        },
{
    let fail = |message: &str| -> (e: Error)
        ensures
            e matches Error::SnapshotParsingError { symbol, message: m, body: text } && symbol@ == ""@
                && m@ == message@ && text@ == body@,
    { Error::SnapshotParsingError { symbol: String::from_str(""), message: String::from_str(message), body: body.clone() } };
    let id = match last_update_id {
        Some(id) => id,
        None => {
            return Err(fail("Error parsing lastUpdateId"));
        },
    };
    let bid_levels = match &bids {
        None => {
            return Err(fail("Error parsing bids"));
        },
        Some(b) => match read_side(b) {
            Ok(levels) => levels,
            Err(true) => {
                return Err(fail("Error parsing bid.price_level"));
            },
            Err(false) => {
                return Err(fail("Error parsing bid.quantity"));
            },
        },
    };
    let ask_levels = match &asks {
        None => {
            return Err(fail("Error parsing asks"));
        },
        Some(a) => match read_side(a) {
            Ok(levels) => levels,
            Err(true) => {
                return Err(fail("Error parsing ask.price_level"));
            },
            Err(false) => {
                return Err(fail("Error parsing ask.quantity"));
            },
        },
    };
    Ok(DepthSnapshot { last_update_id: id, bids: bid_levels, asks: ask_levels })
}

/// The reads of an optional side, by their sequence.
pub open spec fn opt_reads(v: Option<Vec<LevelRead>>) -> Option<Seq<LevelRead>> {
    match v {
        None => None,
        Some(v) => Some(v@),
    }
}

impl DepthSnapshot {
    /// Brings `book` up to this snapshot.
    pub fn update_book(&self, book: &mut LocalBook)
        ensures
            final(book)@.bids == side_after_snapshot(old(book)@.bids, self.bids@, self.last_update_id),
            final(book)@.asks == side_after_snapshot(old(book)@.asks, self.asks@, self.last_update_id),
            final(book)@.last_updated_id == old(book)@.last_updated_id,
    {
        book.drop_rows_up_to(self.last_update_id);
        book.update_with_bids(&self.bids, self.last_update_id, self.last_update_id);
        book.update_with_asks(&self.asks, self.last_update_id, self.last_update_id);
    }
}

} // verus!
