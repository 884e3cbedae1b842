use std::collections::HashMap;

use vstd::prelude::*;

use crate::binance::manager_communication::{Task, TaskKind};
use crate::binance::schema::outgoing::numbered_request;
use crate::binance::schema::{numbered_request_text, stream_name};
use crate::binance::schema::incoming::symbol_of_stream;
use crate::binance::schema::{law_stream_symbol_is_prefix_before_at, stream_symbol};
use crate::common::id_generator::IDGenerator;
use crate::binance::schema::incoming::{levels_text_of, levels_view, read_levels, LevelText};
use crate::common::json_value::{i64_of, json_of, member, parse_json, text_of, u64_of, Json, JsonNumber, JsonValue};

verus! {

/// What a manager process does for a task it takes from its queue.
pub enum Step<N> {
    /// Send `text` on the connection, then keep a book for `symbol`.
    Subscribe { symbol: String, text: String },
    /// Send `text` on the connection, then drop the book of `symbol`.
    Unsubscribe { symbol: String, text: String },
    /// Fetch a depth snapshot of `symbol`, apply it to its book, then
    /// wake the caller through `notifier`.
    Snapshot { symbol: String, notifier: N },
    /// Stop the loop and wake the caller through `notifier`.
    Stop { notifier: N },
}

/// What a manager process does with the answer to one of its requests.
pub enum Answer<N> {
    /// No request has the answer's id.
    NotFound,
    /// A subscription went through: queue this snapshot request next.
    FollowUp(Task<N>),
    /// Any other request went through: wake its caller.
    Done(N),
}

/// What a manager process does with a text frame from its connection.
pub enum Frame<N> {
    /// The frame is no JSON.
    NotJson,
    /// The frame has an `id` that is no `i64` integer.
    BadId,
    /// The frame answers request `id`.
    Answer { id: i64, answer: Answer<N> },
    /// The frame is a diff-depth event of market `symbol`: the update ids
    /// from `first_update_id` to `last_update_id`, and the texts of its bid
    /// and ask levels.
    Diff { symbol: String, first_update_id: u64, last_update_id: u64, bids: Vec<LevelText>, asks: Vec<LevelText> },
    /// The frame has no `id`, and lacks a `stream` text or a `data` member,
    /// or the event lacks its update ids (`U`, `u`) or level arrays (`b`,
    /// `a`).
    Malformed,
}

/// A `u64` member of an object.
pub open spec fn u64_member(v: JsonValue, key: Seq<char>) -> Option<u64> {
    match member(v, key) {
        Some(n) => u64_of(n),
        None => None,
    }
}

/// The fields of a diff-depth event's payload: the first and last update
/// ids (`U`, `u`) and the bid and ask levels (`b`, `a`); `None` where one
/// is missing or of another kind.
pub open spec fn diff_fields(d: JsonValue) -> Option<(u64, u64, Seq<(Option<Seq<char>>, Option<Seq<char>>)>, Seq<(Option<Seq<char>>, Option<Seq<char>>)>)> {
    match (u64_member(d, "U"@), u64_member(d, "u"@), levels_text_of(member(d, "b"@)), levels_text_of(member(d, "a"@))) {
        (Some(first), Some(last), Some(bids), Some(asks)) => Some((first, last, bids, asks)),
        _ => None,
    }
}

/// The text of a member that is a string.
pub open spec fn text_member(v: JsonValue, key: Seq<char>) -> Option<Seq<char>> {
    match member(v, key) {
        Some(t) => text_of(t),
        None => None,
    }
}

/// What a text frame is, given what serde_json reads it as.
pub open spec fn frame_spec<N: Clone>(p: ManagerProcessView<N>, json: Option<JsonValue>, r: Frame<N>) -> bool {
    match json {
        None => r is NotJson,
        Some(v) => match member(v, "id"@) {
            Some(id) => match i64_of(id) {
                Some(id) => r matches Frame::Answer { id: i, answer } && i == id && answer_spec(p, id, answer),
                None => r is BadId,
            },
            None => match (text_member(v, "stream"@), member(v, "data"@)) {
                (Some(stream), Some(d)) => match diff_fields(d) {
                    Some((first, last, b, a)) => r matches Frame::Diff {
                        symbol,
                        first_update_id,
                        last_update_id,
                        bids,
                        asks,
                    } && symbol@ == stream_symbol(stream) && first_update_id == first && last_update_id == last
                        && levels_view(bids@) == b && levels_view(asks@) == a,
                    None => r is Malformed,
                },
                _ => r is Malformed,
            },
        },
    }
}

/// A frame with no `id` whose `stream` is a text and whose `data` carries
/// the update ids `U`, `u` and the level arrays `b`, `a` is a diff of the
/// market that the stream names before its first `@`, whatever else the
/// data holds; its update ids are `U` and `u` as written, and its levels
/// those of `b` and `a`.
pub proof fn law_diff_frame<N: Clone>(
    p: ManagerProcessView<N>,
    v: JsonValue,
    r: Frame<N>,
    stream: Seq<char>,
    d: JsonValue,
    first: u64,
    last: u64,
)
    requires
        frame_spec(p, Some(v), r),
        member(v, "id"@) is None,
        member(v, "stream"@) == Some(JsonValue::Str(stream)),
        member(v, "data"@) == Some(d),
        member(d, "U"@) == Some(JsonValue::Number(JsonNumber::PosInt(first))),
        member(d, "u"@) == Some(JsonValue::Number(JsonNumber::PosInt(last))),
        levels_text_of(member(d, "b"@)) is Some,
        levels_text_of(member(d, "a"@)) is Some,
    ensures
        r matches Frame::Diff { symbol, first_update_id, last_update_id, bids, asks } && {
            &&& first_update_id == first
            &&& last_update_id == last
            &&& symbol@.len() <= stream.len()
            &&& symbol@ == stream.take(symbol@.len() as int)
            &&& (forall|i: int| 0 <= i < symbol@.len() ==> stream[i] != '@')
            &&& (symbol@.len() == stream.len() || stream[symbol@.len() as int] == '@')
            &&& Some(levels_view(bids@)) == levels_text_of(member(d, "b"@))
            &&& Some(levels_view(asks@)) == levels_text_of(member(d, "a"@))
        },
{
    law_stream_symbol_is_prefix_before_at(stream);
}

/// A frame whose `id` is an integer that fits an `i64` answers the request
/// with that id; an `id` of any other kind is a bad id; a text that is no
/// JSON is no frame.
pub proof fn law_answer_frame<N: Clone>(p: ManagerProcessView<N>, v: JsonValue, r: Frame<N>, id: i64, other: JsonValue)
    requires
        frame_spec(p, Some(v), r),
    ensures
        member(v, "id"@) == Some(JsonValue::Number(JsonNumber::NegInt(id))) ==> (r matches Frame::Answer { id: i, .. } && i == id),
        id >= 0 && member(v, "id"@) == Some(JsonValue::Number(JsonNumber::PosInt(id as u64))) ==> (r matches Frame::Answer { id: i, .. } && i == id),
        member(v, "id"@) == Some(other) && !(other is Number) ==> r is BadId,
        member(v, "id"@) == Some(JsonValue::Number(JsonNumber::Float)) ==> r is BadId,
        forall|q: ManagerProcessView<N>, f: Frame<N>| frame_spec(q, None, f) ==> f is NotJson,
{
}

/// The abstract state of a manager process.
pub struct ManagerProcessView<N> {
    pub tasks: Map<i32, Task<N>>,
    pub next_id: int,
}

/// What `take` does with a task.
pub open spec fn step_spec<N: Clone>(
    old: ManagerProcessView<N>,
    task: Task<N>,
    step: Step<N>,
    new: ManagerProcessView<N>,
) -> bool {
    let id = old.next_id as i32;
    &&& new.next_id == old.next_id + 1
    &&& new.tasks == old.tasks.insert(id, task)
    &&& match task.kind {
        TaskKind::Suscribe(s) => step matches Step::Subscribe { symbol, text } && symbol@ == s@
            && text@ == numbered_request_text("SUBSCRIBE"@, seq![stream_name(s@)], id),
        TaskKind::Unsuscribe(s) => step matches Step::Unsubscribe { symbol, text } && symbol@ == s@
            && text@ == numbered_request_text("UNSUBSCRIBE"@, seq![stream_name(s@)], id),
        TaskKind::DepthSnapshot(s) => step matches Step::Snapshot { symbol, notifier } && symbol@ == s@
            && cloned(task.notifier, notifier),
        TaskKind::Stop => step matches Step::Stop { notifier } && cloned(task.notifier, notifier),
    }
}

/// What `answer` does with the answer whose id is `id`.
pub open spec fn answer_spec<N: Clone>(v: ManagerProcessView<N>, id: i64, r: Answer<N>) -> bool {
    let key = id as i32;
    if !v.tasks.contains_key(key) {
        r is NotFound
    } else {
        match v.tasks[key].kind {
            TaskKind::Suscribe(s) => r matches Answer::FollowUp(t) && t.kind matches TaskKind::DepthSnapshot(d)
                && d@ == s@ && cloned(v.tasks[key].notifier, t.notifier),
            _ => r matches Answer::Done(n) && cloned(v.tasks[key].notifier, n),
        }
    }
}

/// The answer to a subscription request queues a snapshot request for the
/// same market, woken through the same handle.
pub proof fn law_subscription_answer_asks_snapshot<N: Clone>(
    v0: ManagerProcessView<N>,
    task: Task<N>,
    step: Step<N>,
    v1: ManagerProcessView<N>,
    r: Answer<N>,
)
    requires
        i32::MIN <= v0.next_id <= i32::MAX,
        task.kind is Suscribe,
        step_spec(v0, task, step, v1),
        answer_spec(v1, v0.next_id as i64, r),
    ensures
        (r matches Answer::FollowUp(t) && t.kind matches TaskKind::DepthSnapshot(d) && d@ == task.kind->Suscribe_0@
            && cloned(task.notifier, t.notifier)),
{
    assert((v0.next_id as i64) as i32 == v0.next_id as i32);
}

/// Two tasks taken one after the other get different ids, so both stay
/// filed.
pub proof fn law_consecutive_tasks_both_filed<N: Clone>(
    v0: ManagerProcessView<N>,
    t1: Task<N>,
    s1: Step<N>,
    v1: ManagerProcessView<N>,
    t2: Task<N>,
    s2: Step<N>,
    v2: ManagerProcessView<N>,
)
    requires
        i32::MIN <= v0.next_id,
        v0.next_id + 1 < i32::MAX,
        step_spec(v0, t1, s1, v1),
        step_spec(v1, t2, s2, v2),
    ensures
        v2.tasks.contains_key(v0.next_id as i32),
        v2.tasks[v0.next_id as i32] == t1,
        v2.tasks.contains_key(v1.next_id as i32),
        v2.tasks[v1.next_id as i32] == t2,
{
    assert(v0.next_id as i32 != v1.next_id as i32);
}

/// A manager process's bookkeeping: its requests by numeric id.
pub struct ManagerProcess<N> {
    tasks: HashMap<i32, Task<N>>,
    id_generator: IDGenerator,
}

impl<N> View for ManagerProcess<N> {
    type V = ManagerProcessView<N>;

    closed spec fn view(&self) -> ManagerProcessView<N> {
        ManagerProcessView { tasks: self.tasks@, next_id: self.id_generator@ }
    }
}

impl<N: Clone> ManagerProcess<N> {
    pub fn new() -> (p: ManagerProcess<N>)
        ensures
            p@.tasks == Map::<i32, Task<N>>::empty(),
            p@.next_id == -1,
    {
        ManagerProcess { tasks: HashMap::new(), id_generator: IDGenerator::new() }
    }

    /// Whether another task can get an id without overflowing.
    pub fn can_take(&self) -> (b: bool)
        ensures
            b == (self@.next_id < i32::MAX),
    {
        self.id_generator.has_next()
    }

    /// Takes a task from the queue: gives it the next id, files it under
    /// that id, and says what to do for it.
    pub fn take(&mut self, task: Task<N>) -> (step: Step<N>)
        requires
            old(self)@.next_id < i32::MAX,
        ensures
            step_spec(old(self)@, task, step, final(self)@),
    {
        let id = self.id_generator.next();
        let step = match &task.kind {
            TaskKind::Suscribe(symbol) => Step::Subscribe {
                symbol: symbol.clone(),
                text: numbered_request("SUBSCRIBE", symbol.as_str(), id),
            },
            TaskKind::Unsuscribe(symbol) => Step::Unsubscribe {
                symbol: symbol.clone(),
                text: numbered_request("UNSUBSCRIBE", symbol.as_str(), id),
            },
            TaskKind::DepthSnapshot(symbol) => Step::Snapshot {
                symbol: symbol.clone(),
                notifier: task.notifier.clone(),
            },
            TaskKind::Stop => Step::Stop { notifier: task.notifier.clone() },
        };
        self.tasks.insert(id, task);
        step
    }

    /// Reads the answer to the request whose id is `id` (taken as an
    /// `i32`); the request stays filed.
    pub fn answer(&self, id: i64) -> (r: Answer<N>)
        ensures
            answer_spec(self@, id, r),
    {
        let key = id as i32;
        match self.tasks.get(&key) {
            None => Answer::NotFound,
            Some(task) => match &task.kind {
                TaskKind::Suscribe(symbol) => Answer::FollowUp(
                    Task { kind: TaskKind::DepthSnapshot(symbol.clone()), notifier: task.notifier.clone() },
                ),
                _ => Answer::Done(task.notifier.clone()),
            },
        }
    }

    /// Reads a text frame: an object with an `id` answers that request,
    /// any other is a diff-depth event of the market that its `stream`
    /// names before the first `@`.
    pub fn read_frame(&self, text: &str) -> (r: Frame<N>)
        ensures
            frame_spec(self@, json_of(text@), r),
    {
        let v = match parse_json(text) {
            Some(v) => v,
            None => {
                return Frame::NotJson;
            },
        };
        match v.get("id") {
            Some(id) => match id.as_i64() {
                Some(id) => Frame::Answer { id, answer: self.answer(id) },
                None => Frame::BadId,
            },
            None => {
                let stream = match v.get("stream") {
                    Some(s) => s.as_str(),
                    None => None,
                };
                match (stream, v.get("data")) {
                    (Some(stream), Some(d)) => read_diff(stream, d),
                    _ => Frame::Malformed,
                }
            },
        }
    }
}

/// A `u64` member of a JSON value.
fn read_u64_member(v: &Json, key: &str) -> (r: Option<u64>)
    ensures
        r == u64_member(v@, key@),
{
    match v.get(key) {
        Some(n) => n.as_u64(),
        None => None,
    }
}

/// Reads a diff-depth event carried on `stream`.
fn read_diff<N>(stream: &str, d: &Json) -> (r: Frame<N>)
    ensures
        match diff_fields(d@) {
            Some((first, last, b, a)) => r matches Frame::Diff { symbol, first_update_id, last_update_id, bids, asks }
                && symbol@ == stream_symbol(stream@) && first_update_id == first && last_update_id == last
                && levels_view(bids@) == b && levels_view(asks@) == a,
            None => r is Malformed,
        },
{
    let first = read_u64_member(d, "U");
    let last = read_u64_member(d, "u");
    let bids = read_levels(d.get("b"));
    let asks = read_levels(d.get("a"));
    match (first, last, bids, asks) {
        (Some(first_update_id), Some(last_update_id), Some(bids), Some(asks)) => Frame::Diff {
            symbol: String::from_str(symbol_of_stream(stream)),
            first_update_id,
            last_update_id,
            bids,
            asks,
        },
        _ => Frame::Malformed,
    }
}

} // verus!
