//! Which documents are announced, and in which order.

use vstd::prelude::*;

use crate::text::{is_text_before, same_text};

verus! {

use crate::text::{lemma_text_before_irreflexive, lemma_text_before_total, lemma_text_before_transitive, text_before};

pub const SECS_PER_DAY: i64 = 86_400;

/// How old the changes are that are asked for again, in seconds.
pub const OVERLAP_SECS: i64 = 7_200;

/// How old a document may be when it is announced, in days.
pub const MAX_AGE_DAYS: i64 = 2;

/// How long what is known of an organisation is used, in nanoseconds.
pub const ORGANIZATION_TTL_NANOS: i64 = 259_200_000_000_000;

/// What is asked for in an update.
#[derive(Debug, Clone, Copy, PartialEq, Eq, Structural)]
pub struct UpdateWindow {
    /// Changes from this point in time on, in seconds since 1970.
    pub modified_since: i64,
    /// Documents from this day on, in days since 1970.
    pub oldest_day: i64,
}

/// What is asked for in an update, given when the last one was in milliseconds
/// since 1970. Older changes are included to address possible inaccuracies.
/// There are sometimes very old documents included, which are not wanted.
pub fn update_window(last_update: i64) -> (r: UpdateWindow)
    ensures
        r.modified_since == last_update as int / 1000 - OVERLAP_SECS,
        r.oldest_day == (last_update as int / 1000) / SECS_PER_DAY as int - MAX_AGE_DAYS,
{
    let secs: i64 = second_of(last_update);
    let day: i64 = day_of(secs);
    UpdateWindow { modified_since: secs - OVERLAP_SECS, oldest_day: day - MAX_AGE_DAYS }
}

/// The second in which a millisecond lies.
fn second_of(millis: i64) -> (r: i64)
    ensures
        r == millis as int / 1000,
{
    if millis >= 0 {
        millis / 1000
    } else {
        -(-(millis + 1) / 1000) - 1
    }
}

/// The day in which a second lies.
fn day_of(secs: i64) -> (r: i64)
    ensures
        r == secs as int / SECS_PER_DAY as int,
{
    if secs >= 0 {
        secs / SECS_PER_DAY
    } else {
        -(-(secs + 1) / SECS_PER_DAY) - 1
    }
}

/// Whether a document is announced. The day is that of the document, in days
/// since 1970.
pub fn is_wanted(deleted: bool, day: Option<i64>, oldest_day: i64) -> (r: bool)
    ensures
        r == (!deleted && day is Some && day->0 >= oldest_day),
{
    match day {
        Some(day) => !deleted && day >= oldest_day,
        None => false,
    }
}

/// Whether what is known of an organisation can still be used. Points in time
/// are given in nanoseconds.
pub fn is_fresh(now: i64, known_since: i64) -> (r: bool)
    ensures
        r == (now - known_since < ORGANIZATION_TTL_NANOS),
{
    (now as i128 - known_since as i128) < ORGANIZATION_TTL_NANOS as i128
}

/// What is done about an update.
#[derive(Debug, Clone, Copy, PartialEq, Eq, Structural)]
pub enum UpdateStart {
    /// There was none before: note the time, and announce nothing yet.
    NoteTime,
    Ask(UpdateWindow),
}

/// Decides what is done about an update, given when the last one was.
pub fn start_update(last_update: Option<i64>) -> (r: UpdateStart)
    ensures
        match last_update {
            None => r is NoteTime,
            Some(t) => r matches UpdateStart::Ask(w) && w.modified_since == t as int / 1000
                - OVERLAP_SECS && w.oldest_day == (t as int / 1000) / SECS_PER_DAY as int
                - MAX_AGE_DAYS,
        },
{
    match last_update {
        None => UpdateStart::NoteTime,
        Some(t) => UpdateStart::Ask(update_window(t)),
    }
}

/// Documents by their numbers.
pub struct PaperQueue<P> {
    papers: Vec<(String, P)>,
}

/// The numbers of documents come in ascending order, each of them once.
pub open spec fn ascending<P>(papers: Seq<(Seq<char>, P)>) -> bool {
    forall|i: int, j: int|
        0 <= i < j < papers.len() ==> text_before(
            (#[trigger] papers[i]).0,
            (#[trigger] papers[j]).0,
        )
}

/// The document with a number.
pub open spec fn lookup<P>(papers: Seq<(Seq<char>, P)>, number: Seq<char>) -> Option<P>
    decreases papers.len(),
{
    if papers.len() == 0 {
        None
    } else if papers.last().0 == number {
        Some(papers.last().1)
    } else {
        lookup(papers.drop_last(), number)
    }
}

impl<P> View for PaperQueue<P> {
    type V = Seq<(Seq<char>, P)>;

    /// The documents with their numbers, in the order in which they are
    /// announced.
    closed spec fn view(&self) -> Seq<(Seq<char>, P)> {
        self.papers@.map_values(|p: (String, P)| (p.0@, p.1))
    }
}

/// A number that stands in an ascending list is found.
proof fn lemma_lookup_found<P>(papers: Seq<(Seq<char>, P)>, k: int)
    requires
        ascending(papers),
        0 <= k < papers.len(),
    ensures
        lookup(papers, papers[k].0) == Some(papers[k].1),
    decreases papers.len(),
{
    if k < papers.len() - 1 {
        let rest = papers.drop_last();
        lemma_text_before_irreflexive(papers[k].0);
        assert(text_before(papers[k].0, papers[papers.len() - 1].0));
        assert forall|i: int, j: int| 0 <= i < j < rest.len() implies text_before(
            (#[trigger] rest[i]).0,
            (#[trigger] rest[j]).0,
        ) by {
            assert(text_before(papers[i].0, papers[j].0));
        }
        lemma_lookup_found(rest, k);
        assert(rest[k] == papers[k]);
    }
}

/// A number that does not stand in a list is not found.
proof fn lemma_lookup_missing<P>(papers: Seq<(Seq<char>, P)>, number: Seq<char>)
    requires
        forall|i: int| 0 <= i < papers.len() ==> (#[trigger] papers[i]).0 != number,
    ensures
        lookup(papers, number) is None,
    decreases papers.len(),
{
    if papers.len() > 0 {
        let rest = papers.drop_last();
        assert(papers[papers.len() - 1].0 != number);
        assert forall|i: int| 0 <= i < rest.len() implies (#[trigger] rest[i]).0 != number by {
            assert(papers[i].0 != number);
        }
        lemma_lookup_missing(rest, number);
    }
}

/// What is found stands in the list.
proof fn lemma_lookup_index<P>(papers: Seq<(Seq<char>, P)>, number: Seq<char>) -> (k: int)
    requires
        lookup(papers, number) is Some,
    ensures
        0 <= k < papers.len(),
        papers[k].0 == number,
        lookup(papers, number) == Some(papers[k].1),
    decreases papers.len(),
{
    if papers.last().0 == number {
        papers.len() - 1
    } else {
        let k = lemma_lookup_index(papers.drop_last(), number);
        assert(papers.drop_last()[k] == papers[k]);
        k
    }
}

/// Two ascending lists agree on a number if they hold the same document under
/// it, or none.
proof fn lemma_lookup_same<P>(
    before: Seq<(Seq<char>, P)>,
    after: Seq<(Seq<char>, P)>,
    number: Seq<char>,
)
    requires
        ascending(before),
        ascending(after),
        forall|i: int|
            0 <= i < before.len() && (#[trigger] before[i]).0 == number ==> exists|j: int|
                0 <= j < after.len() && (#[trigger] after[j]) == before[i],
        forall|j: int|
            0 <= j < after.len() && (#[trigger] after[j]).0 == number ==> exists|i: int|
                0 <= i < before.len() && (#[trigger] before[i]) == after[j],
    ensures
        lookup(after, number) == lookup(before, number),
{
    if lookup(before, number) is Some {
        let i = lemma_lookup_index(before, number);
        let j = choose|j: int| 0 <= j < after.len() && (#[trigger] after[j]) == before[i];
        lemma_lookup_found(after, j);
    } else if lookup(after, number) is Some {
        let j = lemma_lookup_index(after, number);
        let i = choose|i: int| 0 <= i < before.len() && (#[trigger] before[i]) == after[j];
        lemma_lookup_found(before, i);
    }
}

impl<P> PaperQueue<P> {
    /// The documents are in order.
    pub open spec fn wf(&self) -> bool {
        ascending(self@)
    }

    /// Starts without documents.
    pub fn new() -> (r: Self)
        ensures
            r.wf(),
            r@.len() == 0,
    {
        PaperQueue { papers: Vec::new() }
    }

    /// The place of a number: that of the first document that does not come
    /// before it.
    fn place(&self, number: &str) -> (r: usize)
        requires
            self.wf(),
        ensures
            r <= self@.len(),
            forall|j: int| 0 <= j < r ==> text_before((#[trigger] self@[j]).0, number@),
            r < self@.len() ==> !text_before(self@[r as int].0, number@),
    {
        let mut i: usize = 0;
        while i < self.papers.len()
            invariant
                i <= self.papers@.len(),
                self@.len() == self.papers@.len(),
                forall|j: int| 0 <= j < i ==> text_before((#[trigger] self@[j]).0, number@),
            decreases self.papers@.len() - i,
        {
            assert(self@[i as int].0 == self.papers@[i as int].0@);
            if !is_text_before(self.papers[i].0.as_str(), number) {
                return i;
            }
            i = i + 1;
        }
        i
    }

    /// Adds a document, in place of one with the same number.
    pub fn insert(&mut self, number: String, paper: P)
        requires
            old(self).wf(),
        ensures
            final(self).wf(),
            forall|n: Seq<char>| #[trigger]
                lookup(final(self)@, n) == (if n == number@ {
                    Some(paper)
                } else {
                    lookup(old(self)@, n)
                }),
    {
        let ghost before = self@;
        let ghost name = number@;
        let i: usize = self.place(number.as_str());
        let taken = if i < self.papers.len() {
            assert(before[i as int].0 == self.papers@[i as int].0@);
            same_text(self.papers[i].0.as_str(), number.as_str())
        } else {
            false
        };
        if taken {
            self.papers.remove(i);
        }
        let ghost middle = self@;
        assert(middle =~= if taken { before.remove(i as int) } else { before });
        self.papers.insert(i, (number, paper));
        let ghost after = self@;
        assert(after =~= middle.insert(i as int, (name, paper)));
        proof {
            let at = i as int;
            // where a document of the old list stands in the new one
            assert forall|j: int| 0 <= j < after.len() && j != at implies (#[trigger] after[j])
                == before[if j < at || taken { j } else { j - 1 }] by {
            }
            assert forall|j: int| 0 <= j < after.len() && j != at implies if j < at {
                text_before((#[trigger] after[j]).0, name)
            } else {
                text_before(name, after[j].0)
            } by {
                if j > at {
                    let k = if taken {
                        j
                    } else {
                        j - 1
                    };
                    assert(after[j] == before[k]);
                    if k > at {
                        assert(text_before(before[at].0, before[k].0));
                        lemma_text_before_total(before[at].0, name);
                        if text_before(name, before[at].0) {
                            lemma_text_before_transitive(name, before[at].0, before[k].0);
                        }
                    } else {
                        lemma_text_before_total(before[at].0, name);
                    }
                }
            }
            assert forall|a: int, b: int| 0 <= a < b < after.len() implies text_before(
                (#[trigger] after[a]).0,
                (#[trigger] after[b]).0,
            ) by {
                if a != at && b != at {
                    let a0 = if a < at || taken {
                        a
                    } else {
                        a - 1
                    };
                    let b0 = if b < at || taken {
                        b
                    } else {
                        b - 1
                    };
                    assert(text_before(before[a0].0, before[b0].0));
                }
            }
            assert(after[at] == (name, paper));
            lemma_lookup_found(after, at);
            assert forall|n: Seq<char>| #[trigger]
                lookup(after, n) == (if n == name {
                    Some(paper)
                } else {
                    lookup(before, n)
                }) by {
                if n != name {
                    assert forall|k: int|
                        0 <= k < before.len() && (#[trigger] before[k]).0 == n implies exists|j: int|
                        0 <= j < after.len() && (#[trigger] after[j]) == before[k] by {
                        let j = if k < at || taken {
                            k
                        } else {
                            k + 1
                        };
                        assert(after[j] == before[k]);
                    }
                    assert forall|j: int|
                        0 <= j < after.len() && (#[trigger] after[j]).0 == n implies exists|k: int|
                        0 <= k < before.len() && (#[trigger] before[k]) == after[j] by {
                        let k = if j < at || taken {
                            j
                        } else {
                            j - 1
                        };
                        assert(before[k] == after[j]);
                    }
                    lemma_lookup_same(before, after, n);
                }
            }
        }
    }

    /// The documents with their numbers, in ascending order.
    pub fn into_papers(self) -> (r: Vec<(String, P)>)
        requires
            self.wf(),
        ensures
            r@.map_values(|p: (String, P)| (p.0@, p.1)) == self@,
            ascending(r@.map_values(|p: (String, P)| (p.0@, p.1))),
    {
        self.papers
    }
}

/// The number of a document that is not known yet. One without a number is
/// left out.
pub fn new_number(number: Option<String>, known: bool) -> (r: Option<String>)
    ensures
        r == (if known {
            None
        } else {
            number
        }),
{
    if known {
        None
    } else {
        number
    }
}

/// Takes in a document, unless it is known already or has no number.
pub fn take_in<P>(queue: &mut PaperQueue<P>, number: Option<String>, known: bool, paper: P)
    requires
        old(queue).wf(),
    ensures
        final(queue).wf(),
        match number {
            Some(number) if !known => forall|n: Seq<char>| #[trigger]
                lookup(final(queue)@, n) == (if n == number@ {
                    Some(paper)
                } else {
                    lookup(old(queue)@, n)
                }),
            _ => final(queue)@ == old(queue)@,
        },
{
    if let Some(number) = new_number(number, known) {
        queue.insert(number, paper);
    }
}

/// What is done about a document: it is announced, or noted as known.
#[derive(Debug, PartialEq, Eq)]
pub enum PaperAction<M> {
    Schedule { number: String, message: M },
    NoteKnown { number: String },
}

/// Decides what is done about a document, given its announcement.
pub fn paper_action<M>(number: String, message: Option<M>) -> (r: PaperAction<M>)
    ensures
        r == match message {
            Some(message) => PaperAction::Schedule { number, message },
            None => PaperAction::NoteKnown { number },
        },
{
    match message {
        Some(message) => PaperAction::Schedule { number, message },
        None => PaperAction::NoteKnown { number },
    }
}

/// Changes are asked for from two hours before the last update on, to the second,
/// and documents from two days before it on, to the day.
pub proof fn law_window_reaches_back(last_update: i64, r: UpdateWindow)
    requires
        call_ensures(update_window, (last_update,), r),
    ensures
        (r.modified_since + 7_200) * 1000 <= last_update < (r.modified_since + 7_201) * 1000,
        (r.oldest_day + 2) * 86_400_000 <= last_update < (r.oldest_day + 3) * 86_400_000,
{
    let secs = last_update as int / 1000;
    let day = secs / 86_400;
    assert(1000 * secs <= last_update < 1000 * secs + 1000);
    assert(86_400 * day <= secs < 86_400 * day + 86_400);
}

/// A later update asks for no earlier changes and no earlier documents.
pub proof fn law_windows_move_on(earlier: i64, later: i64, a: UpdateWindow, b: UpdateWindow)
    requires
        earlier <= later,
        call_ensures(update_window, (earlier,), a),
        call_ensures(update_window, (later,), b),
    ensures
        a.modified_since <= b.modified_since,
        a.oldest_day <= b.oldest_day,
{
    law_window_reaches_back(earlier, a);
    law_window_reaches_back(later, b);
}

/// The first update only notes the time. Any other asks for what has changed
/// since the one before.
pub proof fn law_first_update_notes_the_time(
    last_update: Option<i64>,
    r: UpdateStart,
    window: UpdateWindow,
)
    requires
        call_ensures(start_update, (last_update,), r),
        last_update matches Some(t) ==> call_ensures(update_window, (t,), window),
    ensures
        r is NoteTime <==> last_update is None,
        last_update is Some ==> r == UpdateStart::Ask(window),
{
}

/// A document is announced exactly if it is not deleted, has a date, and is not
/// older than the window allows.
pub proof fn law_recent_documents_are_wanted(
    deleted: bool,
    day: Option<i64>,
    oldest_day: i64,
    r: bool,
)
    requires
        call_ensures(is_wanted, (deleted, day, oldest_day), r),
    ensures
        deleted ==> !r,
        day is None ==> !r,
        day is Some && !deleted ==> (r <==> oldest_day <= day->0),
{
}

/// What is known of an organisation is used for three days, and not longer.
pub proof fn law_knowledge_gets_stale(now: i64, known_since: i64, r: bool)
    requires
        call_ensures(is_fresh, (now, known_since), r),
    ensures
        r <==> now - known_since < 3 * 24 * 60 * 60 * 1_000_000_000,
{
}

/// A document that is added stands in the queue under its number, alone, and all
/// documents with other numbers stay.
pub proof fn law_added_documents_wait<P>(
    q: &mut PaperQueue<P>,
    number: String,
    paper: P,
    other: Seq<char>,
    x: P,
)
    requires
        q.wf(),
        call_ensures(PaperQueue::<P>::insert, (q, number, paper), ()),
    ensures
        final(q).wf(),
        final(q)@.contains((number@, paper)),
        final(q)@.contains((number@, x)) ==> x == paper,
        other != number@ ==> (final(q)@.contains((other, x)) <==> old(q)@.contains((other, x))),
{
    let before = old(q)@;
    let after = final(q)@;
    assert(lookup(after, number@) == Some(paper));
    let k = lemma_lookup_index(after, number@);
    assert(after[k] == (number@, paper));
    if after.contains((number@, x)) {
        let j = after.index_of((number@, x));
        lemma_lookup_found(after, j);
    }
    if other != number@ {
        assert(lookup(after, other) == lookup(before, other));
        if after.contains((other, x)) {
            let j = after.index_of((other, x));
            lemma_lookup_found(after, j);
            let i = lemma_lookup_index(before, other);
            assert(before[i] == (other, x));
        }
        if before.contains((other, x)) {
            let j = before.index_of((other, x));
            lemma_lookup_found(before, j);
            let i = lemma_lookup_index(after, other);
            assert(after[i] == (other, x));
        }
    }
}

/// A new queue is empty. The documents leave it all, in the ascending order of
/// their numbers.
pub proof fn law_documents_leave_in_order<P>(
    new: PaperQueue<P>,
    q: PaperQueue<P>,
    r: Vec<(String, P)>,
    i: int,
    j: int,
)
    requires
        call_ensures(PaperQueue::<P>::new, (), new),
        q.wf(),
        call_ensures(PaperQueue::<P>::into_papers, (q,), r),
        0 <= i < j < r@.len(),
    ensures
        new@.len() == 0,
        r@.len() == q@.len(),
        (r@[i].0@, r@[i].1) == q@[i],
        text_before(r@[i].0@, r@[j].0@),
{
    let views = r@.map_values(|p: (String, P)| (p.0@, p.1));
    assert(views == q@);
    assert(views[i] == (r@[i].0@, r@[i].1));
    assert(views[j] == (r@[j].0@, r@[j].1));
    assert(text_before(views[i].0, views[j].0));
}

/// Documents that are known or have no number are not taken in; any other is,
/// under its number.
pub proof fn law_new_documents_are_taken_in<P>(
    q: &mut PaperQueue<P>,
    number: Option<String>,
    known: bool,
    paper: P,
    new: Option<String>,
    other: Seq<char>,
    x: P,
)
    requires
        q.wf(),
        call_ensures(take_in::<P>, (q, number, known, paper), ()),
        call_ensures(new_number, (number, known), new),
    ensures
        final(q).wf(),
        known || number is None ==> new is None && final(q)@ == old(q)@,
        number is Some && !known ==> new is Some && new->0@ == number->0@ && final(q)@.contains(
            (number->0@, paper),
        ),
        number is Some && other != number->0@ ==> (final(q)@.contains((other, x))
            <==> old(q)@.contains((other, x))),
{
    if number is Some && !known {
        let before = old(q)@;
        let after = final(q)@;
        let n = number->0@;
        assert(lookup(after, n) == Some(paper));
        let k = lemma_lookup_index(after, n);
        assert(after[k] == (n, paper));
        if other != n {
            assert(lookup(after, other) == lookup(before, other));
            if after.contains((other, x)) {
                let j = after.index_of((other, x));
                lemma_lookup_found(after, j);
                let i = lemma_lookup_index(before, other);
                assert(before[i] == (other, x));
            }
            if before.contains((other, x)) {
                let j = before.index_of((other, x));
                lemma_lookup_found(before, j);
                let i = lemma_lookup_index(after, other);
                assert(after[i] == (other, x));
            }
        }
    }
}

/// A document with an announcement is announced, any other is noted as known,
/// both under the document's number.
pub proof fn law_documents_are_settled<M>(number: String, message: Option<M>, r: PaperAction<M>)
    requires
        call_ensures(paper_action::<M>, (number, message), r),
    ensures
        message is None ==> (r matches PaperAction::NoteKnown { number: n } && n@ == number@),
        message is Some ==> (r matches PaperAction::Schedule { number: n, message: m } && n@
            == number@ && Some(m) == message),
{
}

} // verus!
