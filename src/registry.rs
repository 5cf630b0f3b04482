use vstd::prelude::*;
use crate::types::ProcessInfo;

verus! {

/// The table of executions in flight, keyed by execution id.
///
/// Entries are kept in a vector of (id, record) pairs with distinct ids; the
/// ghost map `model` is the table's abstract value.
pub struct ProcessRegistry {
    entries: Vec<(String, ProcessInfo)>,
    model: Ghost<Map<Seq<char>, ProcessInfo>>,
}

impl View for ProcessRegistry {
    type V = Map<Seq<char>, ProcessInfo>;

    closed spec fn view(&self) -> Map<Seq<char>, ProcessInfo> {
        self.model@
    }
}

impl ProcessRegistry {
    /// The vector and the map agree, and no id occurs twice.
    pub closed spec fn wf(&self) -> bool {
        &&& self.model@.dom().finite()
        &&& self.model@.dom().len() == self.entries@.len()
        &&& forall|i: int|
            0 <= i < self.entries@.len() ==> {
                &&& #[trigger] self.model@.contains_key(self.entries@[i].0@)
                &&& self.model@[self.entries@[i].0@] == self.entries@[i].1
            }
        &&& forall|i: int, j: int|
            0 <= i < self.entries@.len() && 0 <= j < self.entries@.len() && i != j
                ==> #[trigger] self.entries@[i].0@ != #[trigger] self.entries@[j].0@
        &&& forall|k: Seq<char>|
            #[trigger] self.model@.contains_key(k) ==> exists|i: int|
                0 <= i < self.entries@.len() && self.entries@[i].0@ == k
    }

    /// An empty registry.
    pub fn new() -> (r: ProcessRegistry)
        ensures
            r.wf(),
            r@ == Map::<Seq<char>, ProcessInfo>::empty(),
    {
        ProcessRegistry { entries: Vec::new(), model: Ghost(Map::empty()) }
    }

    /// Where `id` stands in the vector, if anywhere.
    fn position(&self, id: &String) -> (r: Option<usize>)
        requires
            self.wf(),
        ensures
            match r {
                Some(i) => i < self.entries@.len() && self.entries@[i as int].0@ == id@,
                None => !self@.contains_key(id@),
            },
    {
        let mut i: usize = 0;
        while i < self.entries.len()
            invariant
                self.wf(),
                i <= self.entries@.len(),
                forall|j: int| 0 <= j < i ==> self.entries@[j].0@ != id@,
            decreases self.entries@.len() - i,
        {
            if self.entries[i].0 == *id {
                return Some(i);
            }
            i = i + 1;
        }
        None
    }

    /// The number of executions in flight.
    pub fn len(&self) -> (r: usize)
        requires
            self.wf(),
        ensures
            r == self@.dom().len(),
    {
        self.entries.len()
    }

    /// Whether `id` is registered.
    pub fn contains(&self, id: &String) -> (r: bool)
        requires
            self.wf(),
        ensures
            r == self@.contains_key(id@),
    {
        self.position(id).is_some()
    }

    /// Records `info` under `id`, replacing any record already under that id.
    pub fn register(&mut self, id: String, info: ProcessInfo)
        requires
            old(self).wf(),
        ensures
            final(self).wf(),
            final(self)@ == old(self)@.insert(id@, info),
    {
        let ghost key = id@;
        let ghost new_model = self.model@.insert(key, info);
        match self.position(&id) {
            Some(i) => {
                self.entries[i] = (id, info);
                self.model = Ghost(new_model);
                assert(self.model@.dom() =~= old(self).model@.dom());
                assert forall|k: Seq<char>| #[trigger] self.model@.contains_key(k) implies exists|
                    j: int,
                | 0 <= j < self.entries@.len() && self.entries@[j].0@ == k by {
                    if k != key {
                        assert(old(self).model@.contains_key(k));
                        let j = choose|j: int|
                            0 <= j < old(self).entries@.len() && old(self).entries@[j].0@ == k;
                        assert(self.entries@[j].0@ == k);
                    } else {
                        assert(self.entries@[i as int].0@ == k);
                    }
                }
            },
            None => {
                self.entries.push((id, info));
                self.model = Ghost(new_model);
                let ghost n = old(self).entries@.len() as int;
                assert(self.entries@[n].0@ == key);
                assert forall|k: Seq<char>| #[trigger] self.model@.contains_key(k) implies exists|
                    j: int,
                | 0 <= j < self.entries@.len() && self.entries@[j].0@ == k by {
                    if k != key {
                        assert(old(self).model@.contains_key(k));
                        let j = choose|j: int|
                            0 <= j < old(self).entries@.len() && old(self).entries@[j].0@ == k;
                        assert(self.entries@[j].0@ == k);
                    } else {
                        assert(self.entries@[n].0@ == k);
                    }
                }
                assert forall|a: int, b: int|
                    0 <= a < self.entries@.len() && 0 <= b < self.entries@.len() && a != b
                        implies #[trigger] self.entries@[a].0@ != #[trigger] self.entries@[b].0@ by {
                    if a != n && b != n {
                        assert(old(self).entries@[a] == self.entries@[a]);
                        assert(old(self).entries@[b] == self.entries@[b]);
                    } else if a == n {
                        assert(old(self).model@.contains_key(self.entries@[b].0@));
                    } else {
                        assert(old(self).model@.contains_key(self.entries@[a].0@));
                    }
                }
            },
        }
    }

    /// Removes the record under `id`; true iff there was one.
    pub fn deregister(&mut self, id: &String) -> (r: bool)
        requires
            old(self).wf(),
        ensures
            final(self).wf(),
            r == old(self)@.contains_key(id@),
            final(self)@ == old(self)@.remove(id@),
    {
        match self.position(id) {
            Some(i) => {
                let ghost key = id@;
                let ghost n = old(self).entries@.len() as int;
                self.entries.remove(i);
                self.model = Ghost(self.model@.remove(key));
                assert forall|j: int| 0 <= j < self.entries@.len() implies {
                    &&& #[trigger] self.model@.contains_key(self.entries@[j].0@)
                    &&& self.model@[self.entries@[j].0@] == self.entries@[j].1
                } by {
                    let oj = if j < i { j } else { j + 1 };
                    assert(self.entries@[j] == old(self).entries@[oj]);
                    assert(oj != i);
                }
                assert forall|a: int, b: int|
                    0 <= a < self.entries@.len() && 0 <= b < self.entries@.len() && a != b
                        implies #[trigger] self.entries@[a].0@ != #[trigger] self.entries@[b].0@ by {
                    let oa = if a < i { a } else { a + 1 };
                    let ob = if b < i { b } else { b + 1 };
                    assert(self.entries@[a] == old(self).entries@[oa]);
                    assert(self.entries@[b] == old(self).entries@[ob]);
                }
                assert forall|k: Seq<char>| #[trigger] self.model@.contains_key(k) implies exists|
                    j: int,
                | 0 <= j < self.entries@.len() && self.entries@[j].0@ == k by {
                    let oj = choose|j: int|
                        0 <= j < old(self).entries@.len() && old(self).entries@[j].0@ == k;
                    assert(oj != i);
                    let j = if oj < i { oj } else { oj - 1 };
                    assert(self.entries@[j] == old(self).entries@[oj]);
                }
                true
            },
            None => {
                assert(self.model@.remove(id@) =~= self.model@);
                false
            },
        }
    }

    /// A copy of every record currently registered, in no promised order.
    pub fn snapshot(&self) -> (r: Vec<ProcessInfo>)
        requires
            self.wf(),
        ensures
            r@.len() == self@.dom().len(),
            forall|i: int| 0 <= i < r@.len() ==> self@.contains_value(#[trigger] r@[i]),
            forall|k: Seq<char>| #[trigger] self@.contains_key(k) ==> r@.contains(self@[k]),
    {
        let mut out: Vec<ProcessInfo> = Vec::new();
        let mut i: usize = 0;
        while i < self.entries.len()
            invariant
                self.wf(),
                i <= self.entries@.len(),
                out@.len() == i,
                forall|j: int| 0 <= j < i ==> #[trigger] out@[j] == self.entries@[j].1,
            decreases self.entries@.len() - i,
        {
            out.push(self.entries[i].1.clone());
            i = i + 1;
        }
        assert forall|j: int| 0 <= j < out@.len() implies self@.contains_value(
            #[trigger] out@[j],
        ) by {
            let k = self.entries@[j].0@;
            assert(self.model@.contains_key(k));
            assert(self@[k] == out@[j]);
        }
        assert forall|k: Seq<char>| #[trigger] self@.contains_key(k) implies out@.contains(
            self@[k],
        ) by {
            let j = choose|j: int| 0 <= j < self.entries@.len() && self.entries@[j].0@ == k;
            assert(out@[j] == self.entries@[j].1);
        }
        out
    }
}

/// An event on the table: `(id, Some(info))` registers `info` under `id`,
/// `(id, None)` deregisters `id`.
pub type RegistryEvent = (Seq<char>, Option<ProcessInfo>);

/// The table that `register` and `deregister` leave after `events`, applied
/// in order to a table holding `start`.
pub open spec fn after_events(
    start: Map<Seq<char>, ProcessInfo>,
    events: Seq<RegistryEvent>,
) -> Map<Seq<char>, ProcessInfo>
    decreases events.len(),
{
    if events.len() == 0 {
        start
    } else {
        let before = after_events(start, events.drop_last());
        match events.last().1 {
            Some(info) => before.insert(events.last().0, info),
            None => before.remove(events.last().0),
        }
    }
}

/// How many of `events` are registrations.
pub open spec fn registrations(events: Seq<RegistryEvent>) -> nat
    decreases events.len(),
{
    if events.len() == 0 {
        0
    } else {
        registrations(events.drop_last()) + if events.last().1 is Some {
            1nat
        } else {
            0nat
        }
    }
}

/// Whether some event of `events` concerns `id`.
pub open spec fn mentions(events: Seq<RegistryEvent>, id: Seq<char>) -> bool
    decreases events.len(),
{
    events.len() > 0 && (events.last().0 == id || mentions(events.drop_last(), id))
}

/// Whether the last event of `events` that concerns `id` registers it.
pub open spec fn ends_registered(events: Seq<RegistryEvent>, id: Seq<char>) -> bool
    decreases events.len(),
{
    if events.len() == 0 {
        false
    } else if events.last().0 == id {
        events.last().1 is Some
    } else {
        ends_registered(events.drop_last(), id)
    }
}

/// One execution registers a fresh id and deregisters it when it ends, so a
/// completed execution leaves the table, and its size, as it found them.
pub proof fn lemma_execution_leaves_table_unchanged(
    before: Map<Seq<char>, ProcessInfo>,
    id: Seq<char>,
    info: ProcessInfo,
)
    requires
        before.dom().finite(),
        !before.contains_key(id),
    ensures
        before.insert(id, info).remove(id) == before,
        before.insert(id, info).remove(id).dom().len() == before.dom().len(),
{
    assert(before.insert(id, info).remove(id) =~= before);
}

/// Whatever the interleaving, the table never holds more entries than it
/// started with plus the registrations made so far.
pub proof fn lemma_size_bounded_by_registrations(
    start: Map<Seq<char>, ProcessInfo>,
    events: Seq<RegistryEvent>,
)
    requires
        start.dom().finite(),
    ensures
        after_events(start, events).dom().finite(),
        after_events(start, events).dom().len() <= start.dom().len() + registrations(events),
    decreases events.len(),
{
    if events.len() > 0 {
        lemma_size_bounded_by_registrations(start, events.drop_last());
    }
}

/// An id is in the table after `events` exactly when its last event
/// registered it, or, where no event concerns it, when it was there at the
/// start with its record untouched.
pub proof fn lemma_keys_after_events(
    start: Map<Seq<char>, ProcessInfo>,
    events: Seq<RegistryEvent>,
    id: Seq<char>,
)
    ensures
        after_events(start, events).contains_key(id) == if mentions(events, id) {
            ends_registered(events, id)
        } else {
            start.contains_key(id)
        },
        !mentions(events, id) && start.contains_key(id) ==> after_events(start, events)[id]
            == start[id],
    decreases events.len(),
{
    if events.len() > 0 {
        lemma_keys_after_events(start, events.drop_last(), id);
    }
}

/// Executions on fresh ids that have all deregistered leave the table as it
/// was: once every call has returned, none of their entries remains.
pub proof fn lemma_finished_executions_leave_no_entry(
    start: Map<Seq<char>, ProcessInfo>,
    events: Seq<RegistryEvent>,
)
    requires
        forall|id: Seq<char>| start.contains_key(id) ==> !mentions(events, id),
        forall|id: Seq<char>| !ends_registered(events, id),
    ensures
        after_events(start, events) == start,
{
    let end = after_events(start, events);
    assert forall|id: Seq<char>| #[trigger] end.contains_key(id) == start.contains_key(id) by {
        lemma_keys_after_events(start, events, id);
    }
    assert forall|id: Seq<char>| #[trigger] end.contains_key(id) implies end[id] == start[id] by {
        lemma_keys_after_events(start, events, id);
    }
    assert(end =~= start);
}

} // verus!
