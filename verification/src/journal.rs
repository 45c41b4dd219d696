//! A log of records under sequential numbers. A counter issues the numbers
//! 1, 2, 3, ... and each issued number holds one record or none.

use vstd::prelude::*;

verus! {

/// The map from each number that holds a record to that record.
pub open spec fn filled<T>(slots: Seq<Option<T>>) -> Map<nat, T> {
    Map::new(
        |id: nat| 1 <= id <= slots.len() && slots[id - 1] is Some,
        |id: nat| slots[id - 1]->0,
    )
}

/// Records under the numbers issued so far.
#[derive(Debug)]
pub struct Journal<T> {
    slots: Vec<Option<T>>,
}

impl<T> Journal<T> {
    /// The counter fits the 32 bits of a record number.
    pub closed spec fn inv(&self) -> bool {
        self.slots@.len() <= u32::MAX
    }

    /// How many numbers have been issued; also the last number issued.
    pub closed spec fn issued(&self) -> nat {
        self.slots@.len()
    }

    /// The records held, by number.
    pub closed spec fn records(&self) -> Map<nat, T> {
        filled(self.slots@)
    }

    /// A journal in which no number has been issued.
    pub fn new() -> (journal: Self)
        ensures
            journal.inv(),
            journal.issued() == 0,
            journal.records() == Map::<nat, T>::empty(),
    {
        let journal = Journal { slots: Vec::new() };
        journal
    }

    /// A journal with `slots.len()` numbers issued, where number `i + 1`
    /// holds what `slots[i]` holds. `None` where the counter would not fit.
    pub fn from_slots(slots: Vec<Option<T>>) -> (journal: Option<Self>)
        ensures
            journal is Some <==> slots@.len() <= u32::MAX,
            journal matches Some(j) ==> {
                &&& j.inv()
                &&& j.issued() == slots@.len()
                &&& j.records() == filled(slots@)
            },
    {
        if slots.len() > 0xFFFF_FFFF {
            None
        } else {
            Some(Journal { slots })
        }
    }

    /// The last number issued, 0 where none was.
    pub fn last_issued(&self) -> (n: u32)
        requires
            self.inv(),
        ensures
            n == self.issued(),
    {
        self.slots.len() as u32
    }

    /// Issues the next number. It holds no record yet.
    pub fn issue(&mut self) -> (id: u32)
        requires
            old(self).inv(),
            old(self).issued() < u32::MAX,
        ensures
            final(self).inv(),
            id == old(self).issued() + 1,
            final(self).issued() == id,
            final(self).records() == old(self).records(),
    {
        self.slots.push(None);
        self.slots.len() as u32
    }

    /// Puts `record` under the issued number `id`, in place of any record there.
    pub fn put(&mut self, id: u32, record: T)
        requires
            old(self).inv(),
            1 <= id <= old(self).issued(),
        ensures
            final(self).inv(),
            final(self).issued() == old(self).issued(),
            final(self).records() == old(self).records().insert(id as nat, record),
    {
        self.slots.set((id - 1) as usize, Some(record));
    }

    /// The record under `id`, if that number holds one.
    pub fn get(&self, id: u32) -> (found: Option<&T>)
        ensures
            match found {
                Some(record) => self.records().dom().contains(id as nat) && *record
                    == self.records()[id as nat],
                None => !self.records().dom().contains(id as nat),
            },
    {
        if id == 0 || id as usize > self.slots.len() {
            None
        } else {
            self.slots[(id - 1) as usize].as_ref()
        }
    }

    /// What each issued number holds: place `i` is for number `i + 1`.
    pub fn slots(&self) -> (slots: &Vec<Option<T>>)
        ensures
            slots@.len() == self.issued(),
            filled(slots@) == self.records(),
    {
        &self.slots
    }
}

} // verus!
