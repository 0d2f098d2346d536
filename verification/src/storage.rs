//! Snapshots of the store, and how an entry changed between two of them.

use crate::codec::{decode_error_text, decode_u64, decoded_u64};
use crate::error::concat;
use crate::key::Key;
use vstd::prelude::*;

verus! {

/// What a snapshot holds for a key that it has an entry for.
#[derive(Debug)]
pub enum Slot {
    /// The stored bytes.
    Value(Vec<u8>),
    /// The entry cannot be read; the text says why.
    Unreadable(String),
}

/// The model of a [`Slot`].
pub enum SlotView {
    Value(Seq<u8>),
    Unreadable(Seq<char>),
}

impl View for Slot {
    type V = SlotView;

    open spec fn view(&self) -> SlotView {
        match self {
            Slot::Value(bytes) => SlotView::Value(bytes@),
            Slot::Unreadable(reason) => SlotView::Unreadable(reason@),
        }
    }
}

/// One entry of a snapshot.
#[derive(Debug)]
struct Entry {
    key: Key,
    slot: Slot,
}

/// The model of a snapshot: the slot of each key that has an entry.
pub type SnapshotView = Map<Seq<Seq<char>>, SlotView>;

/// What a read of a key answers: the bytes of its entry, nothing where
/// there is no entry, or the reason why the entry cannot be read.
pub open spec fn read_outcome(snapshot: SnapshotView, key: Seq<Seq<char>>) -> Result<
    Option<Seq<u8>>,
    Seq<char>,
> {
    if snapshot.dom().contains(key) {
        match snapshot[key] {
            SlotView::Value(bytes) => Ok(Some(bytes)),
            SlotView::Unreadable(reason) => Err(reason),
        }
    } else {
        Ok(None)
    }
}

/// The counter that a snapshot holds under a key, or the words that say
/// why there is none.
pub open spec fn counter_outcome(snapshot: SnapshotView, key: Seq<Seq<char>>) -> Result<
    u64,
    Seq<char>,
> {
    match read_outcome(snapshot, key) {
        Ok(Some(bytes)) => match decoded_u64(bytes) {
            Ok(value) => Ok(value),
            Err(e) => Err("Decoding the counter failed: "@ + decode_error_text(e)),
        },
        Ok(None) => Err("The counter doesn't exist"@),
        Err(reason) => Err("Reading the counter failed "@ + reason),
    }
}

/// The model of a counter that may be missing, with the words that say
/// why.
pub open spec fn counter_view(r: Result<u64, String>) -> Result<u64, Seq<char>> {
    match r {
        Ok(value) => Ok(value),
        Err(words) => Err(words@),
    }
}

/// The state of the store at one moment. It never changes while a
/// transaction is judged.
#[derive(Debug)]
pub struct Snapshot {
    entries: Vec<Entry>,
}

/// The slot that a list of entries gives a key: that of the last entry
/// written for it.
spec fn slot_of(entries: Seq<Entry>, key: Seq<Seq<char>>) -> Option<SlotView>
    decreases entries.len(),
{
    if entries.len() == 0 {
        None
    } else if entries.last().key@ == key {
        Some(entries.last().slot@)
    } else {
        slot_of(entries.drop_last(), key)
    }
}

impl View for Snapshot {
    type V = SnapshotView;

    closed spec fn view(&self) -> SnapshotView {
        Map::new(
            |key: Seq<Seq<char>>| slot_of(self.entries@, key) is Some,
            |key: Seq<Seq<char>>| slot_of(self.entries@, key)->0,
        )
    }
}

impl Snapshot {
    /// The snapshot of an empty store.
    pub fn new() -> (snapshot: Snapshot)
        ensures
            snapshot@ == Map::<Seq<Seq<char>>, SlotView>::empty(),
    {
        Snapshot { entries: Vec::new() }
    }

    fn put(&mut self, key: Key, slot: Slot)
        ensures
            final(self)@ == old(self)@.insert(key@, slot@),
    {
        let ghost before = self.entries@;
        self.entries.push(Entry { key, slot });
        assert(self.entries@.drop_last() =~= before);
    }

    /// Records bytes under a key, in place of what the key had.
    pub fn write(&mut self, key: Key, value: Vec<u8>)
        ensures
            final(self)@ == old(self)@.insert(key@, SlotView::Value(value@)),
    {
        self.put(key, Slot::Value(value));
    }

    /// Records that the entry of a key cannot be read, and why.
    pub fn mark_unreadable(&mut self, key: Key, reason: String)
        ensures
            final(self)@ == old(self)@.insert(key@, SlotView::Unreadable(reason@)),
    {
        self.put(key, Slot::Unreadable(reason));
    }

    /// The slot of a key, where it has an entry.
    pub fn slot(&self, key: &Key) -> (slot: Option<&Slot>)
        ensures
            match slot {
                Some(s) => self@.dom().contains(key@) && self@[key@] == s@,
                None => !self@.dom().contains(key@),
            },
    {
        let mut i = self.entries.len();
        assert(self.entries@.take(i as int) =~= self.entries@);
        while i > 0
            invariant
                i <= self.entries.len(),
                slot_of(self.entries@, key@) == slot_of(self.entries@.take(i as int), key@),
            decreases i,
        {
            assert(self.entries@.take(i as int).drop_last() =~= self.entries@.take(i - 1));
            i = i - 1;
            if self.entries[i].key == *key {
                return Some(&self.entries[i].slot);
            }
        }
        None
    }

    /// Reads a key: its bytes, nothing where it has no entry, or the reason
    /// why its entry cannot be read.
    pub fn read(&self, key: &Key) -> (r: Result<Option<&Vec<u8>>, &String>)
        ensures
            read_view(r) == read_outcome(self@, key@),
    {
        match self.slot(key) {
            Some(Slot::Value(bytes)) => Ok(Some(bytes)),
            Some(Slot::Unreadable(reason)) => Err(reason),
            None => Ok(None),
        }
    }

    /// Reads the counter under a key. The error says in words why there is
    /// none.
    pub fn read_counter(&self, key: &Key) -> (r: Result<u64, String>)
        ensures
            counter_view(r) == counter_outcome(self@, key@),
    {
        match self.read(key) {
            Ok(Some(value)) => match decode_u64(value.as_slice()) {
                Ok(counter) => Ok(counter),
                Err(e) => Err(concat("Decoding the counter failed: ", e.to_text().as_str())),
            },
            Ok(None) => Err("The counter doesn't exist".to_owned()),
            Err(reason) => Err(concat("Reading the counter failed ", reason.as_str())),
        }
    }
}

/// How the entry of a key differs between two snapshots.
#[derive(Clone, Copy, Debug, PartialEq, Eq, Structural)]
pub enum StateChange {
    /// The key has an entry only after the transaction.
    Created,
    /// The key has an entry before and after the transaction.
    Modified,
    /// The key has an entry only before the transaction.
    Deleted,
    /// The key has no entry, before or after.
    NotExists,
}

/// The model of a classification that may fail with a reason.
pub open spec fn change_view(r: Result<StateChange, String>) -> Result<StateChange, Seq<char>> {
    match r {
        Ok(change) => Ok(change),
        Err(reason) => Err(reason@),
    }
}

/// The model of what a read answers.
pub open spec fn read_view(r: Result<Option<&Vec<u8>>, &String>) -> Result<
    Option<Seq<u8>>,
    Seq<char>,
> {
    match r {
        Ok(Some(bytes)) => Ok(Some(bytes@)),
        Ok(None) => Ok(None),
        Err(reason) => Err(reason@),
    }
}

/// The change of a key between the snapshot before a transaction and the
/// one after it. A key that cannot be read in either has no
/// classification: the reason is handed on, that of the earlier snapshot
/// first.
pub open spec fn state_change(pre: SnapshotView, post: SnapshotView, key: Seq<Seq<char>>) -> Result<
    StateChange,
    Seq<char>,
> {
    match (read_outcome(pre, key), read_outcome(post, key)) {
        (Err(reason), _) => Err(reason),
        (_, Err(reason)) => Err(reason),
        (Ok(None), Ok(Some(_))) => Ok(StateChange::Created),
        (Ok(Some(_)), Ok(Some(_))) => Ok(StateChange::Modified),
        (Ok(Some(_)), Ok(None)) => Ok(StateChange::Deleted),
        (Ok(None), Ok(None)) => Ok(StateChange::NotExists),
    }
}

} // verus!
