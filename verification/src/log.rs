//! What changed and who tried what: the generation counter and the two bounded records.
use vstd::prelude::*;

use crate::table::newest;
use crate::types::{ActivityRecord, ChangeEvent, EventKind, EventSource, Range};

verus! {

/// How many changes are remembered.
pub const MAX_EVENTS: usize = 128;

/// How many attempts of headless clients are remembered.
pub const MAX_ACTIVITY_LOG: usize = 100;

/// The generation counts the changes of the shared state. The records keep the newest changes and
/// attempts, oldest first.
pub struct ChangeLog {
    pub generation: u64,
    pub events: Vec<ChangeEvent>,
    pub activity: Vec<ActivityRecord>,
}

/// A change log by its values.
#[verifier::ext_equal]
pub struct LogView {
    pub generation: u64,
    pub events: Seq<ChangeEvent>,
    pub activity: Seq<ActivityRecord>,
}

impl LogView {
    /// Whether the records are within their bounds, and each event is younger than those before it
    /// and no younger than the log.
    pub open spec fn ok(self) -> bool {
        &&& self.events.len() <= MAX_EVENTS
        &&& self.activity.len() <= MAX_ACTIVITY_LOG
        &&& forall|i: int|
            0 <= i < self.events.len() ==> (#[trigger] self.events[i]).generation <= self.generation
        &&& forall|i: int, j: int|
            0 <= i < j < self.events.len() ==> (#[trigger] self.events[i]).generation < (
            #[trigger] self.events[j]).generation
    }

    /// Whether `n` more changes can be counted.
    pub open spec fn room(self, n: int) -> bool {
        self.generation + n <= u64::MAX
    }

    /// The log with nothing recorded but one more change counted.
    pub open spec fn bump(self) -> LogView {
        LogView { generation: (self.generation + 1) as u64, ..self }
    }

    /// The log after a change.
    pub open spec fn event(
        self,
        source: EventSource,
        kind: EventKind,
        range: Option<Range>,
        text: Option<String>,
    ) -> LogView {
        let generation = (self.generation + 1) as u64;
        LogView {
            generation,
            events: newest(
                self.events.push(ChangeEvent { generation, source, kind, range, text }),
                MAX_EVENTS as int,
            ),
            ..self
        }
    }

    /// The log after a headless client's attempt.
    pub open spec fn attempt(self, record: ActivityRecord) -> LogView {
        LogView {
            generation: (self.generation + 1) as u64,
            activity: newest(self.activity.push(record), MAX_ACTIVITY_LOG as int),
            ..self
        }
    }
}

/// A change is counted, it is the last of the record, and of the others only the oldest may be
/// dropped.
pub proof fn event_laws(
    l: LogView,
    source: EventSource,
    kind: EventKind,
    range: Option<Range>,
    text: Option<String>,
)
    requires
        l.ok(),
        l.room(1),
    ensures
        ({
            let n = l.event(source, kind, range, text);
            &&& n.ok()
            &&& n.generation == l.generation + 1
            &&& n.activity == l.activity
            &&& n.events.len() > 0
            &&& n.events.last() == (ChangeEvent {
                generation: n.generation,
                source,
                kind,
                range,
                text,
            })
            &&& n.events.drop_last() == if l.events.len() < MAX_EVENTS {
                l.events
            } else {
                l.events.skip(1)
            }
        }),
{
    let n = l.event(source, kind, range, text);
    let e = ChangeEvent { generation: n.generation, source, kind, range, text };
    let all = l.events.push(e);
    assert forall|i: int, j: int| 0 <= i < j < all.len() implies (#[trigger] all[i]).generation < (
    #[trigger] all[j]).generation by {
        if j == l.events.len() {
            assert(l.events[i].generation <= l.generation);
        }
    }
    if l.events.len() < MAX_EVENTS {
        assert(n.events =~= all);
        assert(all.drop_last() =~= l.events);
    } else {
        assert(n.events =~= all.skip(1));
        assert(all.skip(1).drop_last() =~= l.events.skip(1));
        assert forall|i: int, j: int| 0 <= i < j < n.events.len() implies (
        #[trigger] n.events[i]).generation < (#[trigger] n.events[j]).generation by {
            assert(n.events[i] == all[i + 1]);
            assert(n.events[j] == all[j + 1]);
        }
        assert forall|i: int| 0 <= i < n.events.len() implies (#[trigger] n.events[i]).generation
            <= n.generation by {
            assert(n.events[i] == all[i + 1]);
            if i + 1 < l.events.len() {
                assert(l.events[i + 1].generation <= l.generation);
            }
        }
    }
}

/// An attempt is counted, it is the last of the record, and of the others only the oldest may be
/// dropped. The recorded changes stay.
pub proof fn attempt_laws(l: LogView, record: ActivityRecord)
    requires
        l.ok(),
        l.room(1),
    ensures
        ({
            let n = l.attempt(record);
            &&& n.ok()
            &&& n.generation == l.generation + 1
            &&& n.events == l.events
            &&& n.activity.len() > 0
            &&& n.activity.last() == record
            &&& n.activity.drop_last() == if l.activity.len() < MAX_ACTIVITY_LOG {
                l.activity
            } else {
                l.activity.skip(1)
            }
        }),
{
    let n = l.attempt(record);
    let all = l.activity.push(record);
    if l.activity.len() < MAX_ACTIVITY_LOG {
        assert(n.activity =~= all);
        assert(all.drop_last() =~= l.activity);
    } else {
        assert(n.activity =~= all.skip(1));
        assert(all.skip(1).drop_last() =~= l.activity.skip(1));
    }
    assert forall|i: int| 0 <= i < n.events.len() implies (#[trigger] n.events[i]).generation
        <= n.generation by {
        assert(l.events[i].generation <= l.generation);
    }
}

impl ChangeLog {
    pub open spec fn view(&self) -> LogView {
        LogView { generation: self.generation, events: self.events@, activity: self.activity@ }
    }

    /// An empty log.
    pub fn new() -> (r: ChangeLog)
        ensures
            r@ == (LogView { generation: 0, events: Seq::empty(), activity: Seq::empty() }),
            r@.ok(),
    {
        ChangeLog { generation: 0, events: Vec::new(), activity: Vec::new() }
    }

    /// Counts a change without recording it.
    pub fn bump(&mut self)
        requires
            old(self)@.ok(),
            old(self)@.room(1),
        ensures
            final(self)@ == old(self)@.bump(),
            final(self)@.ok(),
    {
        let ghost before = self@;
        self.generation = self.generation + 1;
        proof {
            assert(self@ =~= before.bump());
            assert forall|i: int| 0 <= i < self@.events.len() implies (
            #[trigger] self@.events[i]).generation <= self@.generation by {
                assert(before.events[i].generation <= before.generation);
            }
        }
    }

    /// Counts and records a change.
    pub fn record_event(
        &mut self,
        source: EventSource,
        kind: EventKind,
        range: Option<Range>,
        text: Option<String>,
    )
        requires
            old(self)@.ok(),
            old(self)@.room(1),
        ensures
            final(self)@ == old(self)@.event(source, kind, range, text),
            final(self)@.ok(),
    {
        let ghost before = self@;
        proof {
            event_laws(before, source, kind, range, text);
        }
        self.generation = self.generation + 1;
        let ghost e = ChangeEvent { generation: self.generation, source, kind, range, text };
        self.events.push(ChangeEvent { generation: self.generation, source, kind, range, text });
        if self.events.len() > MAX_EVENTS {
            let _oldest = self.events.remove(0);
            assert(self.events@ =~= before.events.push(e).skip(1));
        }
        assert(self@ =~= before.event(source, kind, range, text));
    }

    /// Counts and records an attempt.
    pub fn record_activity(&mut self, record: ActivityRecord)
        requires
            old(self)@.ok(),
            old(self)@.room(1),
        ensures
            final(self)@ == old(self)@.attempt(record),
            final(self)@.ok(),
    {
        let ghost before = self@;
        proof {
            attempt_laws(before, record);
        }
        self.generation = self.generation + 1;
        self.activity.push(record);
        if self.activity.len() > MAX_ACTIVITY_LOG {
            let _oldest = self.activity.remove(0);
            assert(self.activity@ =~= before.activity.push(record).skip(1));
        }
        assert(self@ =~= before.attempt(record));
    }
}

} // verus!
