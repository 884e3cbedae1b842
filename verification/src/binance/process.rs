use std::collections::HashMap;

use vstd::prelude::*;

use crate::binance::schema::outgoing;
use crate::binance::schema::request_text;
use crate::binance::schema::stream_name;
use crate::binance::tasks::Task;
use crate::common::assoc::{
    assoc_map, keys_distinct, lemma_assoc_contains, lemma_assoc_push, lemma_assoc_remove,
    lemma_assoc_update, lemma_assoc_value,
};
use crate::common::process_id::{fresh_id, lemma_uuid_text_parses, parse_id, uuid_parse, uuid_text};
use crate::common::symbol::{same_text, spot_symbol, Spot};

verus! {

/// A request that a process sends on its stream connection.
pub struct Request {
    pub id: u128,
    pub text: String,
}

/// What a process does with the answer to one of its requests.
pub enum Completion<H, B, U> {
    /// The answer's id is no UUID.
    InvalidId,
    /// No pending request has the answer's id.
    Unknown,
    /// A subscription went through: answer on `sender` with the market's book.
    Subscribed { sender: B, book: Option<H> },
    /// A pending snapshot request was answered; nothing is sent back.
    SnapshotAcknowledged,
    /// An unsubscription went through: answer on `sender`.
    Unsubscribed { sender: U },
}

/// The abstract state of a stream process.
pub struct ProcessView<H, B, U> {
    pub name: Seq<char>,
    pub tasks: Map<u128, Task<B, U>>,
    pub books: Map<Seq<char>, H>,
}

/// One stream process: its pending requests by id and its books by symbol.
pub struct Process<H, B, U> {
    name: String,
    tasks: HashMap<u128, Task<B, U>>,
    spot_books: Vec<(String, H)>,
}

/// What `complete` does with an answer whose id parsed to `parsed`.
pub open spec fn completion_spec<H: Clone, B, U>(
    old: ProcessView<H, B, U>,
    parsed: Option<u128>,
    r: Completion<H, B, U>,
    new: ProcessView<H, B, U>,
) -> bool {
    &&& new.name == old.name
    &&& new.books == old.books
    &&& match parsed {
        None => r is InvalidId && new.tasks == old.tasks,
        Some(id) => if !old.tasks.contains_key(id) {
            r is Unknown && new.tasks == old.tasks
        } else {
            &&& new.tasks == old.tasks.remove(id)
            &&& match old.tasks[id] {
                Task::Subscribe(spot, sender) => {
                    let symbol = spot_symbol(spot@);
                    &&& r matches Completion::Subscribed { sender: s, book: b }
                    &&& s == sender
                    &&& (b is Some <==> old.books.contains_key(symbol))
                    &&& (b matches Some(h) ==> cloned(old.books[symbol], h))
                },
                Task::SnapShot(_, _) => r is SnapshotAcknowledged,
                Task::Unsubscribe(_, sender) => r == Completion::<H, B, U>::Unsubscribed { sender },
            }
        },
    }
}

/// The answer to a subscription request, read back from the request's
/// id, completes that subscription: the caller gets its sender back with a
/// copy of the new book, and the request is no longer pending.
pub proof fn law_subscription_answered<H: Clone, B, U>(
    p0: ProcessView<H, B, U>,
    symbol: Spot,
    sender: B,
    book: H,
    id: u128,
    p1: ProcessView<H, B, U>,
    r: Completion<H, B, U>,
    p2: ProcessView<H, B, U>,
)
    requires
        p1.tasks == p0.tasks.insert(id, Task::Subscribe(symbol, sender)),
        p1.books == p0.books.insert(spot_symbol(symbol@), book),
        completion_spec(p1, uuid_parse(uuid_text(id)), r, p2),
    ensures
        (r matches Completion::Subscribed { sender: s, book: Some(h) } && s == sender && cloned(book, h)),
        p2.tasks == p0.tasks.remove(id),
        p2.books == p1.books,
{
    lemma_uuid_text_parses(id);
    assert(p2.tasks =~= p0.tasks.remove(id));
}

/// The answer to an unsubscription request completes it: the caller gets
/// its sender back and the request is no longer pending.
pub proof fn law_unsubscription_answered<H: Clone, B, U>(
    p0: ProcessView<H, B, U>,
    symbol: Spot,
    sender: U,
    id: u128,
    p1: ProcessView<H, B, U>,
    r: Completion<H, B, U>,
    p2: ProcessView<H, B, U>,
)
    requires
        p1.tasks == p0.tasks.insert(id, Task::Unsubscribe(symbol, sender)),
        completion_spec(p1, uuid_parse(uuid_text(id)), r, p2),
    ensures
        (r == Completion::<H, B, U>::Unsubscribed { sender }),
        p2.tasks == p0.tasks.remove(id),
{
    lemma_uuid_text_parses(id);
    assert(p2.tasks =~= p0.tasks.remove(id));
}

/// A request is answered at most once: a second answer with the same id
/// finds nothing pending.
pub proof fn law_answered_once<H: Clone, B, U>(
    p1: ProcessView<H, B, U>,
    id: u128,
    r1: Completion<H, B, U>,
    p2: ProcessView<H, B, U>,
    r2: Completion<H, B, U>,
    p3: ProcessView<H, B, U>,
)
    requires
        p1.tasks.contains_key(id),
        completion_spec(p1, uuid_parse(uuid_text(id)), r1, p2),
        completion_spec(p2, uuid_parse(uuid_text(id)), r2, p3),
    ensures
        r2 is Unknown,
        p3.tasks == p2.tasks,
{
    lemma_uuid_text_parses(id);
}

impl<H, B, U> View for Process<H, B, U> {
    type V = ProcessView<H, B, U>;

    closed spec fn view(&self) -> ProcessView<H, B, U> {
        ProcessView {
            name: self.name@,
            tasks: self.tasks@,
            books: assoc_map(self.spot_books@.map_values(|e: (String, H)| (e.0@, e.1))),
        }
    }
}

impl<H: Clone, B, U> Process<H, B, U> {
    /// Book symbols are distinct.
    pub closed spec fn wf(&self) -> bool {
        keys_distinct(self.spot_books@.map_values(|e: (String, H)| (e.0@, e.1)))
    }

    /// A process with no pending request and no book.
    pub fn new(name: &str) -> (p: Process<H, B, U>)
        ensures
            p.wf(),
            p@.name == name@,
            p@.tasks == Map::<u128, Task<B, U>>::empty(),
            p@.books == Map::<Seq<char>, H>::empty(),
    {
        let p = Process { name: String::from_str(name), tasks: HashMap::new(), spot_books: Vec::new() };
        assert(p.spot_books@.map_values(|e: (String, H)| (e.0@, e.1)) =~= Seq::<(Seq<char>, H)>::empty());
        p
    }

    /// The process's name.
    pub fn name(&self) -> (s: &str)
        ensures
            s@ == self@.name,
    {
        self.name.as_str()
    }

    /// The position of the book of `symbol`.
    fn find_book(&self, symbol: &str) -> (r: Option<usize>)
        requires
            self.wf(),
        ensures
            match r {
                Some(i) => i < self.spot_books@.len() && self.spot_books@[i as int].0@ == symbol@,
                None => !self@.books.contains_key(symbol@),
            },
    {
        let ghost entries = self.spot_books@.map_values(|e: (String, H)| (e.0@, e.1));
        proof {
            lemma_assoc_contains(entries, symbol@);
        }
        let n = self.spot_books.len();
        for i in 0..n
            invariant
                n == self.spot_books@.len(),
                entries == self.spot_books@.map_values(|e: (String, H)| (e.0@, e.1)),
                forall|j: int| 0 <= j < i ==> entries[j].0 != symbol@,
        {
            if same_text(self.spot_books[i].0.as_str(), symbol) {
                return Some(i);
            }
        }
        None
    }

    /// Files `task` as the pending request `id`, replacing one with that id.
    fn put_task(&mut self, id: u128, task: Task<B, U>)
        requires
            old(self).wf(),
        ensures
            final(self).wf(),
            final(self)@.tasks == old(self)@.tasks.insert(id, task),
            final(self)@.books == old(self)@.books,
            final(self)@.name == old(self)@.name,
    {
        self.tasks.insert(id, task);
    }

    /// Files `book` under `symbol`, replacing a book filed there.
    fn put_book(&mut self, symbol: String, book: H)
        requires
            old(self).wf(),
        ensures
            final(self).wf(),
            final(self)@.books == old(self)@.books.insert(symbol@, book),
            final(self)@.tasks == old(self)@.tasks,
            final(self)@.name == old(self)@.name,
    {
        let ghost old_entries = self.spot_books@.map_values(|e: (String, H)| (e.0@, e.1));
        match self.find_book(symbol.as_str()) {
            Some(i) => {
                proof {
                    lemma_assoc_update(old_entries, i as int, book);
                }
                self.spot_books.set(i, (symbol, book));
                assert(self.spot_books@.map_values(|e: (String, H)| (e.0@, e.1))
                    =~= old_entries.update(i as int, (old_entries[i as int].0, book)));
            },
            None => {
                proof {
                    lemma_assoc_push(old_entries, (symbol@, book));
                    assert forall|j: int| 0 <= j < old_entries.len() implies old_entries[j].0 != symbol@ by {
                        lemma_assoc_contains(old_entries, symbol@);
                    }
                }
                self.spot_books.push((symbol, book));
                assert(self.spot_books@.map_values(|e: (String, H)| (e.0@, e.1))
                    =~= old_entries.push((symbol@, book)));
            },
        }
    }

    /// The book of `symbol`, if the process keeps one.
    pub fn book(&self, symbol: &str) -> (r: Option<&H>)
        requires
            self.wf(),
        ensures
            r is Some <==> self@.books.contains_key(symbol@),
            r matches Some(h) ==> *h == self@.books[symbol@],
    {
        let ghost entries = self.spot_books@.map_values(|e: (String, H)| (e.0@, e.1));
        match self.find_book(symbol) {
            Some(i) => {
                proof {
                    lemma_assoc_value(entries, i as int);
                }
                Some(&self.spot_books[i].1)
            },
            None => None,
        }
    }

    /// The request that subscribes to `symbol`'s stream, under a random id.
    pub fn subscription_request(symbol: &Spot) -> (req: Request)
        ensures
            req.text@ == request_text("SUBSCRIBE"@, seq![stream_name(spot_symbol(symbol@))], req.id),
    {
        let id = fresh_id();
        Request { id, text: outgoing::subscribe(symbol, id) }
    }

    /// The request that unsubscribes from `symbol`'s stream, under a random id.
    pub fn unsubscription_request(symbol: &Spot) -> (req: Request)
        ensures
            req.text@ == request_text("UNSUBSCRIBE"@, seq![stream_name(spot_symbol(symbol@))], req.id),
    {
        let id = fresh_id();
        Request { id, text: outgoing::unsubscribe(symbol, id) }
    }

    /// Files a subscription request that was sent under `id`: a new book for
    /// the market, and the pending request.
    pub fn file_subscription(&mut self, id: u128, symbol: Spot, sender: B, book: H)
        requires
            old(self).wf(),
        ensures
            final(self).wf(),
            final(self)@.tasks == old(self)@.tasks.insert(id, Task::Subscribe(symbol, sender)),
            final(self)@.books == old(self)@.books.insert(spot_symbol(symbol@), book),
            final(self)@.name == old(self)@.name,
    {
        self.put_book(symbol.to_string(), book);
        self.put_task(id, Task::Subscribe(symbol, sender));
    }

    /// Files an unsubscription request that was sent under `id`: the
    /// market's book is dropped, and the request is pending.
    pub fn file_unsubscription(&mut self, id: u128, symbol: Spot, sender: U)
        requires
            old(self).wf(),
            old(self)@.books.contains_key(spot_symbol(symbol@)),
        ensures
            final(self).wf(),
            final(self)@.tasks == old(self)@.tasks.insert(id, Task::Unsubscribe(symbol, sender)),
            final(self)@.books == old(self)@.books.remove(spot_symbol(symbol@)),
            final(self)@.name == old(self)@.name,
    {
        let key = symbol.to_string();
        let ghost old_entries = self.spot_books@.map_values(|e: (String, H)| (e.0@, e.1));
        match self.find_book(key.as_str()) {
            Some(i) => {
                proof {
                    lemma_assoc_remove(old_entries, i as int);
                }
                self.spot_books.remove(i);
                assert(self.spot_books@.map_values(|e: (String, H)| (e.0@, e.1)) =~= old_entries.remove(i as int));
            },
            None => {},
        }
        self.put_task(id, Task::Unsubscribe(symbol, sender));
    }

    /// Handles the answer to the request whose id is written `id`.
    pub fn complete(&mut self, id: &str) -> (r: Completion<H, B, U>)
        requires
            old(self).wf(),
        ensures
            final(self).wf(),
            completion_spec(old(self)@, uuid_parse(id@), r, final(self)@),
    {
        let parsed = parse_id(id);
        let key = match parsed {
            Some(key) => key,
            None => {
                return Completion::InvalidId;
            },
        };
        let ghost old_tasks = self.tasks@;
        let task = match self.tasks.remove(&key) {
            Some(task) => task,
            None => {
                assert(self.tasks@ =~= old_tasks);
                return Completion::Unknown;
            },
        };
        match task {
            Task::Subscribe(spot, sender) => {
                let symbol = spot.to_string();
                let book = match self.book(symbol.as_str()) {
                    Some(h) => Some(h.clone()),
                    None => None,
                };
                Completion::Subscribed { sender, book }
            },
            Task::SnapShot(_, _) => Completion::SnapshotAcknowledged,
            Task::Unsubscribe(_, sender) => Completion::Unsubscribed { sender },
        }
    }
}

} // verus!
