use vstd::prelude::*;

use crate::event::{EventKey, KeyView};

verus! {

/// The outcome of a write to the event log. Only `Recorded` lets the event go on
/// to the broadcaster: a duplicate is the normal dedup signal, and any other
/// failure drops the event with a warning.
#[derive(Clone, Copy, Debug, PartialEq, Eq, Structural)]
pub enum WriteOutcome {
    Recorded,
    Duplicate,
    Failed,
}

impl WriteOutcome {
    /// Whether an event written with this outcome is forwarded downstream.
    pub fn forwards(&self) -> (r: bool)
        ensures
            r == (*self is Recorded),
    {
        match self {
            WriteOutcome::Recorded => true,
            _ => false,
        }
    }
}

/// A row that witnesses the receipt of an event, whatever its dedup outcome.
#[derive(Debug)]
pub struct Receipt {
    pub source: String,
    pub id: Option<String>,
}

/// An append-only event log with a uniqueness constraint on the keys of
/// the recorded events, and a receipt row for every write.
pub struct EventLog {
    records: Vec<EventKey>,
    receipts: Vec<Receipt>,
}

impl EventLog {
    /// The keys recorded so far, in the order in which they were recorded.
    pub closed spec fn keys(&self) -> Seq<KeyView> {
        self.records@.map_values(|k: EventKey| k@)
    }

    /// The receipt rows written so far.
    pub closed spec fn receipts(&self) -> Seq<Receipt> {
        self.receipts@
    }

    /// No key is recorded twice.
    pub closed spec fn wf(&self) -> bool {
        self.keys().no_duplicates()
    }

    pub fn new() -> (r: EventLog)
        ensures
            r.wf(),
            r.keys() == Seq::<KeyView>::empty(),
            r.receipts() == Seq::<Receipt>::empty(),
    {
        let r = EventLog { records: Vec::new(), receipts: Vec::new() };
        assert(r.keys() =~= Seq::<KeyView>::empty());
        r
    }

    /// The number of recorded events.
    pub fn len(&self) -> (r: usize)
        ensures
            r == self.keys().len(),
    {
        self.records.len()
    }

    /// The number of receipt rows.
    pub fn receipt_count(&self) -> (r: usize)
        ensures
            r == self.receipts().len(),
    {
        self.receipts.len()
    }

    /// Whether an event with this key is recorded.
    pub fn contains(&self, key: &EventKey) -> (r: bool)
        ensures
            r == self.keys().contains(key@),
    {
        let mut i: usize = 0;
        while i < self.records.len()
            invariant
                0 <= i <= self.records.len(),
                forall|j: int| 0 <= j < i ==> self.keys()[j] != key@,
            decreases self.records.len() - i,
        {
            if self.records[i].same(key) {
                assert(self.keys()[i as int] == key@);
                return true;
            }
            i += 1;
        }
        false
    }

    /// Records an event under `key` and writes its receipt. A key that is
    /// already recorded is refused with `Duplicate`, the uniqueness-constraint signal.
    pub fn save(&mut self, key: EventKey, source: String, id: Option<String>) -> (r: WriteOutcome)
        requires
            old(self).wf(),
        ensures
            final(self).wf(),
            final(self).receipts() == old(self).receipts().push(Receipt { source, id }),
            old(self).keys().contains(key@) ==> r == WriteOutcome::Duplicate
                && final(self).keys() == old(self).keys(),
            !old(self).keys().contains(key@) ==> r == WriteOutcome::Recorded
                && final(self).keys() == old(self).keys().push(key@),
    {
        self.receipts.push(Receipt { source, id });
        if self.contains(&key) {
            WriteOutcome::Duplicate
        } else {
            let ghost before = self.keys();
            let ghost k = key@;
            self.records.push(key);
            assert(self.keys() =~= before.push(k));
            assert forall|a: int, b: int|
                0 <= a < self.keys().len() && 0 <= b < self.keys().len() && a != b implies self.keys()[a]
                != self.keys()[b] by {
                if a == before.len() {
                    assert(before.contains(self.keys()[b]));
                } else if b == before.len() {
                    assert(before.contains(self.keys()[a]));
                }
            }
            WriteOutcome::Recorded
        }
    }
}

} // verus!
