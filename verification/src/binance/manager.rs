use std::collections::HashSet;

use vstd::prelude::*;

use crate::binance::configuration::{Configuration, Schedule};
use crate::binance::tasks::{task_spot, Task};
use crate::common::assoc::{
    assoc_map, keys_distinct, lemma_assoc_contains, lemma_assoc_push, lemma_assoc_remove,
    lemma_assoc_update, lemma_assoc_value,
};
use crate::common::error::Error;
use crate::common::process_id::fresh_id;
use crate::common::symbol::{Spot, SpotView};

verus! {

/// Which process serves which market, in the order the markets were added.
pub type Mapping = Seq<(SpotView, u128)>;

/// `spot` is served by some process.
pub open spec fn is_tracked(mapping: Mapping, spot: SpotView) -> bool {
    exists|i: int| 0 <= i < mapping.len() && #[trigger] mapping[i].0 == spot
}

/// The position of a served market in the mapping.
pub open spec fn spot_index(mapping: Mapping, spot: SpotView) -> int {
    choose|i: int| 0 <= i < mapping.len() && #[trigger] mapping[i].0 == spot
}

/// The process that serves `spot`.
pub open spec fn process_of(mapping: Mapping, spot: SpotView) -> u128 {
    mapping[spot_index(mapping, spot)].1
}

/// The number of markets that process `pid` serves.
pub open spec fn load(mapping: Mapping, pid: u128) -> nat
    decreases mapping.len(),
{
    if mapping.len() == 0 {
        0
    } else {
        load(mapping.drop_last(), pid) + if mapping.last().1 == pid {
            1nat
        } else {
            0nat
        }
    }
}

/// Process `pid` serves at least one market.
pub open spec fn serves(mapping: Mapping, pid: u128) -> bool {
    exists|i: int| 0 <= i < mapping.len() && #[trigger] mapping[i].1 == pid
}

/// `pid` serves a market and no process serves fewer.
pub open spec fn least_loaded(mapping: Mapping, pid: u128) -> bool {
    &&& serves(mapping, pid)
    &&& forall|i: int| 0 <= i < mapping.len() ==> load(mapping, pid) <= load(mapping, #[trigger] mapping[i].1)
}

/// Every process that serves a market serves at least `n` of them.
pub open spec fn all_loads_at_least(mapping: Mapping, n: nat) -> bool {
    forall|i: int| 0 <= i < mapping.len() ==> load(mapping, #[trigger] mapping[i].1) >= n
}

/// No market appears twice.
pub open spec fn distinct_spots(mapping: Mapping) -> bool {
    forall|i: int, j: int| 0 <= i < j < mapping.len() ==> mapping[i].0 != mapping[j].0
}

/// A process's load is zero exactly when it serves no market.
pub proof fn lemma_load_zero(mapping: Mapping, pid: u128)
    ensures
        load(mapping, pid) == 0 <==> !serves(mapping, pid),
    decreases mapping.len(),
{
    if mapping.len() > 0 {
        let rest = mapping.drop_last();
        lemma_load_zero(rest, pid);
        if serves(rest, pid) {
            let i = choose|i: int| 0 <= i < rest.len() && #[trigger] rest[i].1 == pid;
            assert(mapping[i].1 == pid);
        }
        if serves(mapping, pid) && mapping.last().1 != pid {
            let i = choose|i: int| 0 <= i < mapping.len() && #[trigger] mapping[i].1 == pid;
            assert(rest[i].1 == pid);
        }
    }
}

/// Appending an entry adds one to the load of its process only.
pub proof fn lemma_load_push(mapping: Mapping, e: (SpotView, u128), pid: u128)
    ensures
        load(mapping.push(e), pid) == load(mapping, pid) + if e.1 == pid { 1nat } else { 0nat },
{
    assert(mapping.push(e).drop_last() =~= mapping);
}

/// Removing an entry takes one from the load of its process only.
pub proof fn lemma_load_remove(mapping: Mapping, i: int, pid: u128)
    requires
        0 <= i < mapping.len(),
    ensures
        load(mapping.remove(i), pid) + if mapping[i].1 == pid { 1nat } else { 0nat } == load(mapping, pid),
    decreases mapping.len(),
{
    if i == mapping.len() - 1 {
        assert(mapping.remove(i) =~= mapping.drop_last());
    } else {
        let rest = mapping.drop_last();
        lemma_load_remove(rest, i, pid);
        assert(mapping.remove(i) =~= rest.remove(i).push(mapping.last()));
        lemma_load_push(rest.remove(i), mapping.last(), pid);
    }
}

/// The abstract state of the scheduler.
pub struct ManagerView {
    pub num_threads: usize,
    pub schedule: Schedule,
    pub processes: Set<u128>,
    pub mapping: Mapping,
}

/// The set of processes is finite and no market appears twice.
pub open spec fn manager_inv(v: ManagerView) -> bool {
    &&& v.processes.finite()
    &&& distinct_spots(v.mapping)
}

/// Every market is served by a running process.
pub open spec fn mapped_live(v: ManagerView) -> bool {
    forall|i: int| 0 <= i < v.mapping.len() ==> v.processes.contains(#[trigger] v.mapping[i].1)
}

/// The markets that are served are exactly those that have a book.
pub open spec fn books_in_step<H>(mapping: Mapping, books: Map<SpotView, H>) -> bool {
    forall|spot: SpotView| #[trigger] books.contains_key(spot) <==> is_tracked(mapping, spot)
}

/// Where a request went: to a process that already ran, or to a new one.
#[derive(Clone, Copy, Debug, PartialEq, Eq)]
pub struct Assignment {
    pub process_id: u128,
    pub new_process: bool,
}

/// A request that needs no change of state.
pub open spec fn unchanged(old: ManagerView, new: ManagerView) -> bool {
    &&& new.num_threads == old.num_threads
    &&& new.schedule == old.schedule
    &&& new.processes == old.processes
    &&& new.mapping == old.mapping
}

/// A request placed on a process started for it.
pub open spec fn placed_on_new_process(old: ManagerView, a: Assignment, new: ManagerView) -> bool {
    &&& a.new_process
    &&& new.num_threads == old.num_threads
    &&& new.schedule == old.schedule
    &&& new.processes == old.processes.insert(a.process_id)
    &&& new.mapping == old.mapping
}

/// A subscription placed on a least loaded process that already ran.
pub open spec fn placed_on_least_loaded(old: ManagerView, a: Assignment, new: ManagerView) -> bool {
    &&& !a.new_process
    &&& least_loaded(old.mapping, a.process_id)
    &&& unchanged(old, new)
}

/// A subscription would need the least loaded process while no process
/// serves a market; the scheduler has no answer for it.
pub open spec fn spawn_stalls<B, U>(v: ManagerView, task: Task<B, U>) -> bool {
    &&& task matches Task::Subscribe(spot, _)
    &&& !is_tracked(v.mapping, spot@)
    &&& v.mapping.len() == 0
    &&& match v.schedule {
        Schedule::Balanced(n) => v.processes.len() >= n,
        Schedule::MaxPerTask(_) => v.processes.len() > 0,
    }
}

/// What `spawn` does with a task.
pub open spec fn spawn_spec<B, U>(
    old: ManagerView,
    task: Task<B, U>,
    r: Result<Assignment, Error>,
    new: ManagerView,
) -> bool {
    let spot = task_spot(task);
    match task {
        Task::Subscribe(_, _) => {
            if is_tracked(old.mapping, spot@) {
                &&& r == Err::<Assignment, Error>(Error::AlreadyTracked { symbol: spot })
                &&& unchanged(old, new)
            } else {
                &&& r is Ok
                &&& match old.schedule {
                    Schedule::Balanced(n) => if old.processes.len() < n {
                        placed_on_new_process(old, r->Ok_0, new)
                    } else {
                        placed_on_least_loaded(old, r->Ok_0, new)
                    },
                    Schedule::MaxPerTask(n) => if old.processes.len() == 0 {
                        placed_on_new_process(old, r->Ok_0, new)
                    } else if all_loads_at_least(old.mapping, n as nat) {
                        placed_on_new_process(old, r->Ok_0, new)
                    } else {
                        &&& placed_on_least_loaded(old, r->Ok_0, new)
                        &&& load(old.mapping, r->Ok_0.process_id) < n
                    },
                }
            }
        },
        _ => {
            &&& unchanged(old, new)
            &&& if is_tracked(old.mapping, spot@) {
                r == Ok::<Assignment, Error>(
                    Assignment { process_id: process_of(old.mapping, spot@), new_process: false },
                )
            } else {
                r == Err::<Assignment, Error>(Error::NotTracked { symbol: spot })
            }
        },
    }
}

/// The mapping after a subscription of `spot` placed on `pid` is recorded.
pub open spec fn registered(mapping: Mapping, spot: SpotView, pid: u128) -> Mapping {
    if is_tracked(mapping, spot) {
        mapping.update(spot_index(mapping, spot), (spot, pid))
    } else {
        mapping.push((spot, pid))
    }
}

/// Every process serves at most `n` markets.
pub open spec fn loads_at_most(mapping: Mapping, n: nat) -> bool {
    forall|pid: u128| load(mapping, pid) <= n
}

/// Under `Balanced(n)`, placing a request never brings the number of
/// running processes above `n`.
pub proof fn law_balanced_process_bound<B, U>(
    old: ManagerView,
    task: Task<B, U>,
    r: Result<Assignment, Error>,
    new: ManagerView,
    n: usize,
)
    requires
        manager_inv(old),
        old.schedule == Schedule::Balanced(n),
        old.processes.len() <= n,
        spawn_spec(old, task, r, new),
    ensures
        new.processes.len() <= n,
{
    if new.processes != old.processes {
        assert(!old.processes.contains(r->Ok_0.process_id) ==> new.processes.len() == old.processes.len() + 1);
        assert(old.processes.contains(r->Ok_0.process_id) ==> new.processes =~= old.processes);
    }
}

/// Under `MaxPerTask(n)`, a subscription placed and recorded never makes a
/// process serve more than `max(n, 1)` markets, provided a newly started
/// process got an id that no running process has.
pub proof fn law_max_per_task_load_bound<B, U>(
    old: ManagerView,
    task: Task<B, U>,
    a: Assignment,
    mid: ManagerView,
    n: usize,
)
    requires
        manager_inv(old),
        mapped_live(old),
        old.schedule == Schedule::MaxPerTask(n),
        loads_at_most(old.mapping, if n == 0 { 1nat } else { n as nat }),
        task is Subscribe,
        spawn_spec(old, task, Ok(a), mid),
        a.new_process ==> !old.processes.contains(a.process_id),
    ensures
        loads_at_most(
            registered(mid.mapping, task_spot(task)@, a.process_id),
            if n == 0 { 1nat } else { n as nat },
        ),
{
    let spot = task_spot(task)@;
    let bound: nat = if n == 0 { 1nat } else { n as nat };
    assert(!is_tracked(old.mapping, spot));
    assert(mid.mapping == old.mapping);
    let m = old.mapping;
    assert forall|pid: u128| load(registered(m, spot, a.process_id), pid) <= bound by {
        lemma_load_push(m, (spot, a.process_id), pid);
        if a.new_process && pid == a.process_id {
            lemma_load_zero(m, pid);
            if serves(m, pid) {
                let i = choose|i: int| 0 <= i < m.len() && #[trigger] m[i].1 == pid;
                assert(old.processes.contains(m[i].1));
            }
        }
    }
}

/// Unrecording a market never raises any process's load.
pub proof fn law_unregister_lowers_loads(mapping: Mapping, i: int, pid: u128)
    requires
        0 <= i < mapping.len(),
    ensures
        load(mapping.remove(i), pid) <= load(mapping, pid),
{
    lemma_load_remove(mapping, i, pid);
}

/// A recorded subscription routes later requests about the market to the
/// process it was placed on.
pub proof fn law_register_then_route(mapping: Mapping, spot: SpotView, pid: u128)
    requires
        distinct_spots(mapping),
    ensures
        is_tracked(registered(mapping, spot, pid), spot),
        process_of(registered(mapping, spot, pid), spot) == pid,
        distinct_spots(registered(mapping, spot, pid)),
{
    let new = registered(mapping, spot, pid);
    if is_tracked(mapping, spot) {
        let i = spot_index(mapping, spot);
        assert(new[i].0 == spot);
        let j = spot_index(new, spot);
        assert(j == i);
    } else {
        let i = mapping.len() as int;
        assert(new[i].0 == spot);
        let j = spot_index(new, spot);
        assert(j == i);
    }
}

/// Subscribing to a market that was not followed and then unsubscribing
/// from it leaves the running processes and the mapping as they were,
/// provided every running process served a market and a newly started
/// process got an id that no running process has.
pub proof fn law_subscribe_then_unsubscribe<B, U>(
    old: ManagerView,
    task: Task<B, U>,
    a: Assignment,
    mid: ManagerView,
    retired: bool,
    end: ManagerView,
)
    requires
        manager_inv(old),
        mapped_live(old),
        forall|pid: u128| old.processes.contains(pid) ==> serves(old.mapping, pid),
        task is Subscribe,
        spawn_spec(old, task, Ok(a), mid),
        a.new_process ==> !old.processes.contains(a.process_id),
        ({
            let reg = registered(mid.mapping, task_spot(task)@, a.process_id);
            &&& end.mapping == reg.remove(spot_index(reg, task_spot(task)@))
            &&& retired == !serves(end.mapping, a.process_id)
            &&& end.processes == if retired { mid.processes.remove(a.process_id) } else { mid.processes }
        }),
    ensures
        end.mapping == old.mapping,
        end.processes == old.processes,
{
    let spot = task_spot(task)@;
    let m = old.mapping;
    assert(!is_tracked(m, spot));
    let reg = m.push((spot, a.process_id));
    assert(registered(mid.mapping, spot, a.process_id) == reg);
    assert(reg[m.len() as int].0 == spot);
    let j = spot_index(reg, spot);
    if j < m.len() {
        assert(reg[j].0 == m[j].0);
    }
    assert(j == m.len());
    assert(reg.remove(j) =~= m);
    if a.new_process {
        lemma_load_zero(m, a.process_id);
        if serves(m, a.process_id) {
            let i = choose|i: int| 0 <= i < m.len() && #[trigger] m[i].1 == a.process_id;
            assert(old.processes.contains(m[i].1));
        }
        assert(end.processes =~= old.processes);
    } else {
        assert(serves(m, a.process_id));
    }
}

/// Under `Balanced(n)`, a new market arriving while fewer than `n`
/// processes run gets a process started for it, however many markets are
/// already served.
pub proof fn law_balanced_below_limit_starts_process<B, U>(
    old: ManagerView,
    spot: Spot,
    sender: B,
    n: usize,
    r: Result<Assignment, Error>,
    new: ManagerView,
)
    requires
        old.schedule == Schedule::Balanced(n),
        old.processes.len() < n,
        forall|i: int| 0 <= i < old.mapping.len() ==> old.mapping[i].0 != spot@,
        spawn_spec(old, Task::<B, U>::Subscribe(spot, sender), r, new),
    ensures
        r matches Ok(a) && a.new_process && new.processes == old.processes.insert(a.process_id),
        new.mapping == old.mapping,
{
}

/// Under `Balanced(n)`, once `n` processes run, a new market goes to a
/// running process that serves a market and serves no more markets than
/// any other; no process is started.
pub proof fn law_balanced_at_limit_reuses_least_loaded<B, U>(
    old: ManagerView,
    spot: Spot,
    sender: B,
    n: usize,
    r: Result<Assignment, Error>,
    new: ManagerView,
)
    requires
        old.schedule == Schedule::Balanced(n),
        old.processes.len() >= n,
        forall|i: int| 0 <= i < old.mapping.len() ==> old.mapping[i].0 != spot@,
        spawn_spec(old, Task::<B, U>::Subscribe(spot, sender), r, new),
    ensures
        r matches Ok(a) && !a.new_process && (exists|i: int| 0 <= i < old.mapping.len() && old.mapping[i].1 == a.process_id)
            && (forall|i: int| 0 <= i < old.mapping.len() ==> load(old.mapping, a.process_id) <= load(old.mapping, #[trigger] old.mapping[i].1)),
        new.processes == old.processes,
        new.mapping == old.mapping,
{
}

/// Under `MaxPerTask(n)`, the first market starts the first process, and a
/// new market starts a process whenever every serving process already
/// serves `n` markets or more.
pub proof fn law_max_per_task_full_starts_process<B, U>(
    old: ManagerView,
    spot: Spot,
    sender: B,
    n: usize,
    r: Result<Assignment, Error>,
    new: ManagerView,
)
    requires
        old.schedule == Schedule::MaxPerTask(n),
        old.processes.len() == 0 || forall|i: int| 0 <= i < old.mapping.len() ==> load(old.mapping, #[trigger] old.mapping[i].1) >= n,
        forall|i: int| 0 <= i < old.mapping.len() ==> old.mapping[i].0 != spot@,
        spawn_spec(old, Task::<B, U>::Subscribe(spot, sender), r, new),
    ensures
        r matches Ok(a) && a.new_process && new.processes == old.processes.insert(a.process_id),
        new.mapping == old.mapping,
{
}

/// Under `MaxPerTask(n)`, while some serving process serves fewer than `n`
/// markets, a new market goes to a least loaded serving process, which then
/// had fewer than `n`; no process is started.
pub proof fn law_max_per_task_room_reuses<B, U>(
    old: ManagerView,
    spot: Spot,
    sender: B,
    n: usize,
    j: int,
    r: Result<Assignment, Error>,
    new: ManagerView,
)
    requires
        old.schedule == Schedule::MaxPerTask(n),
        old.processes.len() > 0,
        0 <= j < old.mapping.len(),
        load(old.mapping, old.mapping[j].1) < n,
        forall|i: int| 0 <= i < old.mapping.len() ==> old.mapping[i].0 != spot@,
        spawn_spec(old, Task::<B, U>::Subscribe(spot, sender), r, new),
    ensures
        r matches Ok(a) && !a.new_process && load(old.mapping, a.process_id) < n
            && (exists|i: int| 0 <= i < old.mapping.len() && old.mapping[i].1 == a.process_id)
            && (forall|i: int| 0 <= i < old.mapping.len() ==> load(old.mapping, a.process_id) <= load(old.mapping, #[trigger] old.mapping[i].1)),
        new.processes == old.processes,
        new.mapping == old.mapping,
{
    assert(!all_loads_at_least(old.mapping, n as nat));
}

/// A market that is already served is refused with `AlreadyTracked`, and
/// nothing changes.
pub proof fn law_tracked_market_refused<B, U>(
    old: ManagerView,
    spot: Spot,
    sender: B,
    j: int,
    r: Result<Assignment, Error>,
    new: ManagerView,
)
    requires
        0 <= j < old.mapping.len(),
        old.mapping[j].0 == spot@,
        spawn_spec(old, Task::<B, U>::Subscribe(spot, sender), r, new),
    ensures
        r == Err::<Assignment, Error>(Error::AlreadyTracked { symbol: spot }),
        new.processes == old.processes,
        new.mapping == old.mapping,
{
}

/// A snapshot or an unsubscription goes to the process that serves the
/// market, with no process started; for a market that is not served it is
/// refused with `NotTracked`.
pub proof fn law_requests_routed_to_serving_process<B, U>(
    old: ManagerView,
    task: Task<B, U>,
    r: Result<Assignment, Error>,
    new: ManagerView,
)
    requires
        manager_inv(old),
        !(task is Subscribe),
        spawn_spec(old, task, r, new),
    ensures
        forall|j: int| 0 <= j < old.mapping.len() && old.mapping[j].0 == task_spot(task)@
            ==> r == Ok::<Assignment, Error>(Assignment { process_id: old.mapping[j].1, new_process: false }),
        (forall|j: int| 0 <= j < old.mapping.len() ==> old.mapping[j].0 != task_spot(task)@)
            ==> r == Err::<Assignment, Error>(Error::NotTracked { symbol: task_spot(task) }),
        new.processes == old.processes,
        new.mapping == old.mapping,
{
    let spot = task_spot(task)@;
    assert forall|j: int| 0 <= j < old.mapping.len() && old.mapping[j].0 == spot
        implies r == Ok::<Assignment, Error>(Assignment { process_id: old.mapping[j].1, new_process: false }) by {
        assert(is_tracked(old.mapping, spot));
        let k = spot_index(old.mapping, spot);
        assert(old.mapping[k].0 == spot);
        if k != j {
            if k < j {
                assert(old.mapping[k].0 != old.mapping[j].0);
            } else {
                assert(old.mapping[j].0 != old.mapping[k].0);
            }
        }
    }
}

/// Placing a request never changes which process serves which market, and
/// starts at most one process; a refused request starts none.
pub proof fn law_spawn_keeps_markets<B, U>(
    old: ManagerView,
    task: Task<B, U>,
    r: Result<Assignment, Error>,
    new: ManagerView,
)
    requires
        spawn_spec(old, task, r, new),
    ensures
        new.mapping == old.mapping,
        new.schedule == old.schedule,
        new.num_threads == old.num_threads,
        old.processes.subset_of(new.processes),
        new.processes == old.processes || (r is Ok && new.processes == old.processes.insert(r->Ok_0.process_id)),
        r is Err ==> new.processes == old.processes,
{
}

/// A request is placed on a running process, so recording the placement
/// keeps every market served by a running process.
pub proof fn law_placement_keeps_markets_live<B, U>(
    old: ManagerView,
    task: Task<B, U>,
    a: Assignment,
    mid: ManagerView,
)
    requires
        mapped_live(old),
        spawn_spec(old, task, Ok(a), mid),
    ensures
        mid.processes.contains(a.process_id),
        mapped_live(ManagerView { mapping: registered(mid.mapping, task_spot(task)@, a.process_id), ..mid }),
{
    if !a.new_process {
        let i = choose|i: int| 0 <= i < old.mapping.len() && #[trigger] old.mapping[i].1 == a.process_id;
        assert(old.processes.contains(old.mapping[i].1));
    }
    let spot = task_spot(task)@;
    let reg = registered(mid.mapping, spot, a.process_id);
    assert forall|i: int| 0 <= i < reg.len() implies mid.processes.contains(#[trigger] reg[i].1) by {
        if i < mid.mapping.len() && reg[i].1 != a.process_id {
            assert(reg[i].1 == mid.mapping[i].1);
            assert(old.processes.contains(old.mapping[i].1));
        }
    }
}

/// Unrecording a market stops a process only when it serves no market, so
/// every market left is still served by a running process.
pub proof fn law_unregister_keeps_markets_live(old: ManagerView, i: int, pid: u128, retired: bool, new: ManagerView)
    requires
        mapped_live(old),
        0 <= i < old.mapping.len(),
        new.mapping == old.mapping.remove(i),
        retired == !serves(new.mapping, pid),
        new.processes == if retired { old.processes.remove(pid) } else { old.processes },
    ensures
        mapped_live(new),
{
    assert forall|j: int| 0 <= j < new.mapping.len() implies new.processes.contains(#[trigger] new.mapping[j].1) by {
        if j < i {
            assert(new.mapping[j] == old.mapping[j]);
        } else {
            assert(new.mapping[j] == old.mapping[j + 1]);
        }
        assert(old.processes.contains(old.mapping[if j < i { j } else { j + 1 }].1));
    }
}

/// Recording a market with its book keeps the served markets and the
/// markets with books the same.
pub proof fn law_register_keeps_books_in_step<H>(
    mapping: Mapping,
    books: Map<SpotView, H>,
    spot: SpotView,
    pid: u128,
    book: H,
)
    requires
        books_in_step(mapping, books),
    ensures
        books_in_step(registered(mapping, spot, pid), books.insert(spot, book)),
{
    let reg = registered(mapping, spot, pid);
    assert forall|s: SpotView| #[trigger] books.insert(spot, book).contains_key(s) <==> is_tracked(reg, s) by {
        if is_tracked(mapping, spot) {
            let k = spot_index(mapping, spot);
            if is_tracked(mapping, s) {
                let j = choose|j: int| 0 <= j < mapping.len() && #[trigger] mapping[j].0 == s;
                if j == k {
                    assert(reg[j].0 == spot);
                } else {
                    assert(reg[j].0 == s);
                }
            }
            if is_tracked(reg, s) {
                let j = choose|j: int| 0 <= j < reg.len() && #[trigger] reg[j].0 == s;
                if j != k {
                    assert(mapping[j].0 == s);
                }
            }
        } else {
            if is_tracked(mapping, s) {
                let j = choose|j: int| 0 <= j < mapping.len() && #[trigger] mapping[j].0 == s;
                assert(reg[j].0 == s);
            }
            if s == spot {
                assert(reg[mapping.len() as int].0 == spot);
            }
            if is_tracked(reg, s) {
                let j = choose|j: int| 0 <= j < reg.len() && #[trigger] reg[j].0 == s;
                if j < mapping.len() {
                    assert(mapping[j].0 == s);
                }
            }
        }
    }
}

/// Unrecording a market and dropping its book keeps the served markets and
/// the markets with books the same.
pub proof fn law_unregister_keeps_books_in_step<H>(mapping: Mapping, books: Map<SpotView, H>, spot: SpotView)
    requires
        distinct_spots(mapping),
        books_in_step(mapping, books),
        is_tracked(mapping, spot),
    ensures
        books_in_step(mapping.remove(spot_index(mapping, spot)), books.remove(spot)),
{
    let k = spot_index(mapping, spot);
    let rest = mapping.remove(k);
    assert forall|s: SpotView| #[trigger] books.remove(spot).contains_key(s) <==> is_tracked(rest, s) by {
        if is_tracked(mapping, s) && s != spot {
            let j = choose|j: int| 0 <= j < mapping.len() && #[trigger] mapping[j].0 == s;
            if j < k {
                assert(rest[j].0 == s);
            } else {
                assert(rest[j - 1].0 == s);
            }
        }
        if is_tracked(rest, s) {
            let j = choose|j: int| 0 <= j < rest.len() && #[trigger] rest[j].0 == s;
            if j < k {
                assert(mapping[j].0 == s);
                assert(s != spot);
            } else {
                assert(mapping[j + 1].0 == s);
                assert(s != spot);
            }
        }
    }
}

/// The scheduler: which stream processes run and which markets each serves.
pub struct Manager<H> {
    configuration: Configuration,
    processes: HashSet<u128>,
    spot_mapping: Vec<(Spot, u128)>,
    spot_books: Vec<(Spot, H)>,
}

impl<H> View for Manager<H> {
    type V = ManagerView;

    closed spec fn view(&self) -> ManagerView {
        ManagerView {
            num_threads: self.configuration.num_threads,
            schedule: self.configuration.scheduling_strategy,
            processes: self.processes@,
            mapping: self.spot_mapping@.map_values(|e: (Spot, u128)| (e.0@, e.1)),
        }
    }
}

impl<H> Manager<H> {
    /// Processes are finite in number, markets are distinct and so are the
    /// markets that have books; every market is served by a running
    /// process, and the markets with books are exactly the served ones.
    pub closed spec fn wf(&self) -> bool {
        &&& manager_inv(self@)
        &&& keys_distinct(self.spot_books@.map_values(|e: (Spot, H)| (e.0@, e.1)))
        &&& mapped_live(self@)
        &&& books_in_step(self@.mapping, self.books())
    }

    /// A well-formed manager's view meets the scheduler's invariants, so the
    /// laws over views apply to it.
    pub proof fn lemma_wf(&self)
        requires
            self.wf(),
        ensures
            manager_inv(self@),
            mapped_live(self@),
            books_in_step(self@.mapping, self.books()),
    {
    }

    /// The books of the markets, by market.
    pub closed spec fn books(&self) -> Map<SpotView, H> {
        assoc_map(self.spot_books@.map_values(|e: (Spot, H)| (e.0@, e.1)))
    }

    /// The configuration that the manager was made with.
    pub closed spec fn configuration(&self) -> Configuration {
        self.configuration
    }

    /// A scheduler with no process and no market.
    pub fn new(configuration: Configuration) -> (m: Manager<H>)
        ensures
            m.wf(),
            m.configuration() == configuration,
            m@.num_threads == configuration.num_threads,
            m@.schedule == configuration.scheduling_strategy,
            m@.processes == Set::<u128>::empty(),
            m@.mapping == Seq::<(SpotView, u128)>::empty(),
            m.books() == Map::<SpotView, H>::empty(),
    {
        let m = Manager { configuration, processes: HashSet::new(), spot_mapping: Vec::new(), spot_books: Vec::new() };
        assert(m@.mapping =~= Seq::<(SpotView, u128)>::empty());
        assert(m.spot_books@.map_values(|e: (Spot, H)| (e.0@, e.1)) =~= Seq::<(SpotView, H)>::empty());
        m
    }

    /// The position of `spot` in the mapping, if it is served.
    fn find_spot(&self, spot: &Spot) -> (r: Option<usize>)
        ensures
            match r {
                Some(i) => i < self@.mapping.len() && self@.mapping[i as int].0 == spot@,
                None => !is_tracked(self@.mapping, spot@),
            },
    {
        let n = self.spot_mapping.len();
        for i in 0..n
            invariant
                n == self.spot_mapping@.len(),
                forall|j: int| 0 <= j < i ==> self@.mapping[j].0 != spot@,
        {
            if self.spot_mapping[i].0.same_as(spot) {
                return Some(i);
            }
        }
        None
    }

    /// The number of markets that process `pid` serves.
    fn load_of(&self, pid: u128) -> (n: usize)
        ensures
            n == load(self@.mapping, pid),
    {
        let ghost mapping = self@.mapping;
        let len = self.spot_mapping.len();
        let mut n: usize = 0;
        for i in 0..len
            invariant
                len == mapping.len(),
                mapping == self@.mapping,
                n <= i,
                n == load(mapping.take(i as int), pid),
        {
            assert(mapping.take(i + 1).drop_last() =~= mapping.take(i as int));
            if self.spot_mapping[i].1 == pid {
                n = n + 1;
            }
        }
        assert(mapping.take(len as int) =~= mapping);
        n
    }

    /// The process that serves the fewest markets, with that number; `None`
    /// when no market is served.
    pub fn least_used_process(&self) -> (r: Option<(u128, usize)>)
        ensures
            r is None <==> self@.mapping.len() == 0,
            r matches Some(p) ==> least_loaded(self@.mapping, p.0) && p.1 == load(self@.mapping, p.0),
    {
        let ghost mapping = self@.mapping;
        let len = self.spot_mapping.len();
        let mut best: Option<(u128, usize)> = None;
        for i in 0..len
            invariant
                len == mapping.len(),
                mapping == self@.mapping,
                best is None <==> i == 0,
                best matches Some(p) ==> {
                    &&& serves(mapping, p.0)
                    &&& p.1 == load(mapping, p.0)
                    &&& forall|j: int| 0 <= j < i ==> p.1 <= load(mapping, #[trigger] mapping[j].1)
                },
        {
            let pid = self.spot_mapping[i].1;
            let n = self.load_of(pid);
            assert(mapping[i as int].1 == pid);
            match best {
                None => {
                    best = Some((pid, n));
                },
                Some(p) => {
                    if n < p.1 {
                        best = Some((pid, n));
                    }
                },
            }
        }
        best
    }

    /// Starts a process: a random id joins the running processes (an id
    /// already running stays as it is).
    fn new_process(&mut self) -> (id: u128)
        requires
            old(self).wf(),
        ensures
            final(self).wf(),
            final(self)@.processes == old(self)@.processes.insert(id),
            final(self)@.mapping == old(self)@.mapping,
            final(self)@.schedule == old(self)@.schedule,
            final(self)@.num_threads == old(self)@.num_threads,
            final(self).configuration() == old(self).configuration(),
            final(self).books() == old(self).books(),
    {
        let id = fresh_id();
        self.processes.insert(id);
        id
    }

    /// Whether `spawn` can place `task`: it cannot when a subscription would
    /// go to the least used process while no process serves a market.
    pub fn can_spawn<B, U>(&self, task: &Task<B, U>) -> (b: bool)
        ensures
            b == !spawn_stalls(self@, *task),
    {
        match task {
            Task::Subscribe(spot, _) => {
                if self.find_spot(spot).is_some() || self.spot_mapping.len() > 0 {
                    true
                } else {
                    match self.configuration.scheduling_strategy {
                        Schedule::Balanced(n) => self.processes.len() < n,
                        Schedule::MaxPerTask(_) => self.processes.len() == 0,
                    }
                }
            },
            _ => true,
        }
    }

    /// Decides which process handles `task`, starting a new process where
    /// the schedule asks for one.
    pub fn spawn<B, U>(&mut self, task: &Task<B, U>) -> (r: Result<Assignment, Error>)
        requires
            old(self).wf(),
            !spawn_stalls(old(self)@, *task),
        ensures
            final(self).wf(),
            spawn_spec(old(self)@, *task, r, final(self)@),
            final(self).configuration() == old(self).configuration(),
            final(self).books() == old(self).books(),
    {
        match task {
            Task::Subscribe(spot, _) => {
                if self.find_spot(spot).is_some() {
                    return Err(Error::AlreadyTracked { symbol: *spot });
                }
                match self.configuration.scheduling_strategy {
                    Schedule::Balanced(n) => {
                        if self.processes.len() < n {
                            let id = self.new_process();
                            Ok(Assignment { process_id: id, new_process: true })
                        } else {
                            match self.least_used_process() {
                                Some((id, _)) => Ok(Assignment { process_id: id, new_process: false }),
                                None => Err(Error::NotTracked { symbol: *spot }),
                            }
                        }
                    },
                    Schedule::MaxPerTask(n) => {
                        if self.processes.len() == 0 {
                            let id = self.new_process();
                            Ok(Assignment { process_id: id, new_process: true })
                        } else {
                            match self.least_used_process() {
                                Some((id, count)) => {
                                    if count < n {
                                        Ok(Assignment { process_id: id, new_process: false })
                                    } else {
                                        let id = self.new_process();
                                        Ok(Assignment { process_id: id, new_process: true })
                                    }
                                },
                                None => Err(Error::NotTracked { symbol: *spot }),
                            }
                        }
                    },
                }
            },
            Task::SnapShot(spot, _) | Task::Unsubscribe(spot, _) => {
                match self.find_spot(spot) {
                    Some(i) => Ok(Assignment { process_id: self.spot_mapping[i].1, new_process: false }),
                    None => Err(Error::NotTracked { symbol: *spot }),
                }
            },
        }
    }

    /// The position of the book of `spot`, if it has one.
    fn find_book(&self, spot: &Spot) -> (r: Option<usize>)
        requires
            keys_distinct(self.spot_books@.map_values(|e: (Spot, H)| (e.0@, e.1))),
        ensures
            match r {
                Some(i) => i < self.spot_books@.len() && self.spot_books@[i as int].0@ == spot@,
                None => !self.books().contains_key(spot@),
            },
    {
        let ghost entries = self.spot_books@.map_values(|e: (Spot, H)| (e.0@, e.1));
        proof {
            lemma_assoc_contains(entries, spot@);
        }
        let n = self.spot_books.len();
        for i in 0..n
            invariant
                n == self.spot_books@.len(),
                entries == self.spot_books@.map_values(|e: (Spot, H)| (e.0@, e.1)),
                forall|j: int| 0 <= j < i ==> entries[j].0 != spot@,
        {
            if self.spot_books[i].0.same_as(spot) {
                return Some(i);
            }
        }
        None
    }

    /// The book of `spot`, if it has one.
    pub fn book(&self, spot: &Spot) -> (r: Option<&H>)
        requires
            self.wf(),
        ensures
            r is Some <==> self.books().contains_key(spot@),
            r matches Some(h) ==> *h == self.books()[spot@],
    {
        let ghost entries = self.spot_books@.map_values(|e: (Spot, H)| (e.0@, e.1));
        match self.find_book(spot) {
            Some(i) => {
                proof {
                    lemma_assoc_value(entries, i as int);
                }
                Some(&self.spot_books[i].1)
            },
            None => None,
        }
    }

    /// Records that `process_id` serves `symbol`, with its book.
    pub fn register_symbol(&mut self, symbol: &Spot, process_id: u128, book: H)
        requires
            old(self).wf(),
            old(self)@.processes.contains(process_id),
        ensures
            final(self).wf(),
            final(self).configuration() == old(self).configuration(),
            final(self)@.num_threads == old(self)@.num_threads,
            final(self)@.schedule == old(self)@.schedule,
            final(self)@.processes == old(self)@.processes,
            final(self)@.mapping == registered(old(self)@.mapping, symbol@, process_id),
            final(self).books() == old(self).books().insert(symbol@, book),
    {
        let ghost old_mapping = self@.mapping;
        let ghost old_books = self.books();
        proof {
            law_register_keeps_books_in_step(old_mapping, old_books, symbol@, process_id, book);
        }
        match self.find_spot(symbol) {
            Some(i) => {
                proof {
                    assert(old_mapping[spot_index(old_mapping, symbol@)].0 == symbol@);
                    assert(spot_index(old_mapping, symbol@) == i);
                }
                self.spot_mapping.set(i, (*symbol, process_id));
                assert(self@.mapping =~= old_mapping.update(i as int, (symbol@, process_id)));
            },
            None => {
                self.spot_mapping.push((*symbol, process_id));
                assert(self@.mapping =~= old_mapping.push((symbol@, process_id)));
            },
        }
        let ghost old_entries = self.spot_books@.map_values(|e: (Spot, H)| (e.0@, e.1));
        match self.find_book(symbol) {
            Some(i) => {
                proof {
                    lemma_assoc_update(old_entries, i as int, book);
                }
                self.spot_books.set(i, (*symbol, book));
                assert(self.spot_books@.map_values(|e: (Spot, H)| (e.0@, e.1))
                    =~= old_entries.update(i as int, (old_entries[i as int].0, book)));
            },
            None => {
                proof {
                    lemma_assoc_push(old_entries, (symbol@, book));
                    assert forall|j: int| 0 <= j < old_entries.len() implies old_entries[j].0 != symbol@ by {
                        lemma_assoc_contains(old_entries, symbol@);
                    }
                }
                self.spot_books.push((*symbol, book));
                assert(self.spot_books@.map_values(|e: (Spot, H)| (e.0@, e.1))
                    =~= old_entries.push((symbol@, book)));
            },
        }
    }

    /// Whether process `process_id` runs.
    pub fn is_running(&self, process_id: u128) -> (b: bool)
        ensures
            b == self@.processes.contains(process_id),
    {
        self.processes.contains(&process_id)
    }

    /// Whether `unregister_symbol` can take `symbol` off `process_id`: the
    /// market is served, and the process either runs or serves another
    /// market after it.
    pub fn can_unregister(&self, symbol: &Spot, process_id: u128) -> (b: bool)
        requires
            self.wf(),
        ensures
            b == (is_tracked(self@.mapping, symbol@) && (self@.processes.contains(process_id) || serves(
                self@.mapping.remove(spot_index(self@.mapping, symbol@)),
                process_id,
            ))),
    {
        let ghost mapping = self@.mapping;
        match self.find_spot(symbol) {
            None => false,
            Some(i) => {
                proof {
                    assert(mapping[spot_index(mapping, symbol@)].0 == symbol@);
                    assert(spot_index(mapping, symbol@) == i);
                    lemma_load_remove(mapping, i as int, process_id);
                    lemma_load_zero(mapping.remove(i as int), process_id);
                }
                if self.processes.contains(&process_id) {
                    true
                } else {
                    let n = self.load_of(process_id);
                    let own: usize = if self.spot_mapping[i].1 == process_id { 1 } else { 0 };
                    n > own
                }
            },
        }
    }

    /// Records that `symbol` is no longer served and drops its book; the
    /// process `process_id` stops when it serves no market any more.
    /// Returns whether it stopped.
    pub fn unregister_symbol(&mut self, symbol: &Spot, process_id: u128) -> (retired: bool)
        requires
            old(self).wf(),
            is_tracked(old(self)@.mapping, symbol@),
            old(self)@.processes.contains(process_id) || serves(
                old(self)@.mapping.remove(spot_index(old(self)@.mapping, symbol@)),
                process_id,
            ),
        ensures
            final(self).wf(),
            final(self).configuration() == old(self).configuration(),
            final(self)@.num_threads == old(self)@.num_threads,
            final(self)@.schedule == old(self)@.schedule,
            final(self)@.mapping == old(self)@.mapping.remove(spot_index(old(self)@.mapping, symbol@)),
            final(self).books() == old(self).books().remove(symbol@),
            retired == !serves(final(self)@.mapping, process_id),
            final(self)@.processes == if retired {
                old(self)@.processes.remove(process_id)
            } else {
                old(self)@.processes
            },
    {
        let ghost old_mapping = self@.mapping;
        let ghost old_view = self@;
        let ghost old_books = self.books();
        proof {
            law_unregister_keeps_books_in_step(old_mapping, old_books, symbol@);
        }
        let i = match self.find_spot(symbol) {
            Some(i) => i,
            None => 0,
        };
        proof {
            assert(old_mapping[spot_index(old_mapping, symbol@)].0 == symbol@);
            assert(spot_index(old_mapping, symbol@) == i);
        }
        self.spot_mapping.remove(i);
        assert(self@.mapping =~= old_mapping.remove(i as int));
        let ghost old_entries = self.spot_books@.map_values(|e: (Spot, H)| (e.0@, e.1));
        match self.find_book(symbol) {
            Some(j) => {
                proof {
                    lemma_assoc_remove(old_entries, j as int);
                }
                self.spot_books.remove(j);
                assert(self.spot_books@.map_values(|e: (Spot, H)| (e.0@, e.1)) =~= old_entries.remove(j as int));
            },
            None => {},
        }
        let remaining = self.load_of(process_id);
        proof {
            lemma_load_zero(self@.mapping, process_id);
        }
        let retired = remaining == 0;
        if retired {
            self.processes.remove(&process_id);
        }
        proof {
            law_unregister_keeps_markets_live(old_view, i as int, process_id, retired, self@);
        }
        retired
    }
}

} // verus!
