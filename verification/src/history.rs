//! Recent captures, so that one can be copied again without retaking it.
//!
//! Entries hold the **encoded PNG** rather than a decoded buffer: a handful of
//! large frames as raw RGBA would be hundreds of megabytes. History is in memory
//! only: writing recent screenshots to disk behind the user's back would leave
//! copies of whatever they captured lying around.

use crate::text::{decimal, joined};
use std::collections::VecDeque;
use vstd::prelude::*;
use vstd::std_specs::vecdeque::*;
use vstd::string::*;

verus! {

/// One remembered capture.
#[derive(Debug, Clone, PartialEq, Eq)]
pub struct Entry {
    /// The annotated result, PNG-encoded.
    pub png: Vec<u8>,
    /// Width in pixels.
    pub width: u32,
    /// Height in pixels.
    pub height: u32,
    /// A short label for the menu.
    pub label: String,
}

impl Entry {
    /// The size as the menu shows it.
    pub fn size_label(&self) -> (text: String)
        ensures
            text@ == crate::text::decimal_text(self.width as nat) + "×"@
                + crate::text::decimal_text(self.height as nat),
    {
        joined(
            joined(decimal(self.width as u64).as_str(), "×").as_str(),
            decimal(self.height as u64).as_str(),
        )
    }
}

/// The first `n` of `entries`, or all of them when there are fewer.
pub open spec fn newest(entries: Seq<Entry>, n: nat) -> Seq<Entry> {
    if entries.len() <= n {
        entries
    } else {
        entries.take(n as int)
    }
}

/// The bytes that the entries hold together.
pub open spec fn total_bytes(entries: Seq<Entry>) -> nat
    decreases entries.len(),
{
    if entries.len() == 0 {
        0
    } else {
        total_bytes(entries.drop_last()) + entries.last().png@.len()
    }
}

/// What remembering `entry` makes of the entries of a history.
pub open spec fn remembered(entries: Seq<Entry>, capacity: nat, entry: Entry) -> Seq<Entry> {
    if capacity == 0 || (entries.len() > 0 && entries[0].png@ == entry.png@) {
        entries
    } else {
        newest(seq![entry] + entries, capacity)
    }
}

/// No two neighbouring captures are the same image.
pub open spec fn no_repeats(entries: Seq<Entry>) -> bool {
    forall|i: int, j: int|
        0 <= i && j == i + 1 && j < entries.len() ==> (#[trigger] entries[i]).png@ != (
        #[trigger] entries[j]).png@
}

/// A bounded, most-recent-first list of captures.
#[derive(Debug)]
pub struct History {
    entries: VecDeque<Entry>,
    capacity: usize,
}

impl View for History {
    type V = Seq<Entry>;

    closed spec fn view(&self) -> Seq<Entry> {
        self.entries@
    }
}

fn same_bytes(a: &Vec<u8>, b: &Vec<u8>) -> (same: bool)
    ensures
        same == (a@ == b@),
{
    if a.len() != b.len() {
        return false;
    }
    let mut i: usize = 0;
    while i < a.len()
        invariant
            i <= a@.len(),
            a@.len() == b@.len(),
            forall|j: int| 0 <= j < i ==> a@[j] == b@[j],
        decreases a.len() - i,
    {
        if a[i] != b[i] {
            return false;
        }
        i = i + 1;
    }
    assert(a@ =~= b@);
    true
}

impl History {
    /// How many captures are kept at most.
    pub closed spec fn limit(&self) -> nat {
        self.capacity as nat
    }

    /// Never more captures than the limit, and never the same image twice in a
    /// row.
    #[verifier::type_invariant]
    spec fn bounded(&self) -> bool {
        &&& self.entries@.len() <= self.capacity
        &&& no_repeats(self.entries@)
    }

    /// An empty history. A capacity of zero disables it.
    pub fn new(capacity: usize) -> (history: History)
        ensures
            history@ == Seq::<Entry>::empty(),
            history.limit() == capacity,
    {
        History { entries: VecDeque::new(), capacity }
    }

    /// How many captures are kept at most.
    pub fn capacity(&self) -> (n: usize)
        ensures
            n == self.limit(),
    {
        self.capacity
    }

    /// Change how many captures are kept, dropping any excess immediately:
    /// lowering this is how a user says "stop holding my screenshots".
    pub fn set_capacity(&mut self, capacity: usize)
        ensures
            final(self)@ == newest(old(self)@, capacity as nat),
            final(self).limit() == capacity,
    {
        proof {
            use_type_invariant(&*self);
        }
        let mut entries: VecDeque<Entry> = VecDeque::new();
        std::mem::swap(&mut entries, &mut self.entries);
        keep_newest(&mut entries, capacity);
        *self = History { entries, capacity };
    }

    /// How many captures are held.
    pub fn len(&self) -> (n: usize)
        ensures
            n == self@.len(),
            n <= self.limit(),
            no_repeats(self@),
    {
        proof {
            use_type_invariant(self);
        }
        self.entries.len()
    }

    /// Nothing is held.
    pub fn is_empty(&self) -> (yes: bool)
        ensures
            yes == (self@.len() == 0),
    {
        self.entries.len() == 0
    }

    /// All captures, most recent first.
    pub fn iter(&self) -> (all: Vec<&Entry>)
        ensures
            all@.len() == self@.len(),
            forall|i: int| 0 <= i < all@.len() ==> *(#[trigger] all@[i]) == self@[i],
    {
        let mut all: Vec<&Entry> = Vec::new();
        let mut i: usize = 0;
        while i < self.entries.len()
            invariant
                i <= self.entries@.len(),
                all@.len() == i,
                forall|j: int| 0 <= j < i ==> *(#[trigger] all@[j]) == self.entries@[j],
            decreases self.entries.len() - i,
        {
            all.push(&self.entries[i]);
            i = i + 1;
        }
        all
    }

    /// The capture at `index`, counted from the most recent.
    pub fn get(&self, index: usize) -> (found: Option<&Entry>)
        ensures
            match found {
                Some(entry) => index < self@.len() && entry == self@[index as int],
                None => index >= self@.len(),
            },
    {
        if index < self.entries.len() {
            Some(&self.entries[index])
        } else {
            None
        }
    }

    /// Forget everything.
    pub fn clear(&mut self)
        ensures
            final(self)@ == Seq::<Entry>::empty(),
            final(self).limit() == old(self).limit(),
    {
        *self = History { entries: VecDeque::new(), capacity: self.capacity };
    }

    /// Remember a capture, evicting the oldest if full.
    ///
    /// Re-copying the same image should not fill the history with duplicates,
    /// so an entry identical to the newest one is ignored.
    pub fn push(&mut self, entry: Entry) -> (kept: bool)
        ensures
            final(self)@ == remembered(old(self)@, old(self).limit(), entry),
            final(self).limit() == old(self).limit(),
            kept == (old(self).limit() > 0 && !(old(self)@.len() > 0 && old(self)@[0].png@
                == entry.png@)),
    {
        if self.capacity == 0 {
            return false;
        }
        if self.entries.len() > 0 && same_bytes(&self.entries[0].png, &entry.png) {
            return false;
        }
        proof {
            use_type_invariant(&*self);
            law_neighbours_differ(self.entries@, self.capacity as nat, entry, 0);
        }
        let capacity: usize = self.capacity;
        let mut entries: VecDeque<Entry> = VecDeque::new();
        std::mem::swap(&mut entries, &mut self.entries);
        entries.push_front(entry);
        keep_newest(&mut entries, capacity);
        *self = History { entries, capacity };
        true
    }

    /// Total bytes held, for diagnostics and for the settings window.
    pub fn memory_used(&self) -> (bytes: u128)
        ensures
            bytes == total_bytes(self@),
    {
        let mut bytes: u128 = 0;
        let mut i: usize = 0;
        while i < self.entries.len()
            invariant
                i <= self.entries@.len(),
                bytes == total_bytes(self.entries@.take(i as int)),
                bytes <= i * usize::MAX,
            decreases self.entries.len() - i,
        {
            assert(self.entries@.take(i + 1).drop_last() =~= self.entries@.take(i as int));
            assert(i * usize::MAX <= 0xffff_ffff_ffff_ffff * 0xffff_ffff_ffff_fffe)
                by (nonlinear_arith)
                requires
                    i < usize::MAX,
                    usize::MAX <= 0xffff_ffff_ffff_ffff,
            ;
            bytes = bytes + self.entries[i].png.len() as u128;
            assert(i * usize::MAX + usize::MAX == (i + 1) * usize::MAX) by (nonlinear_arith);
            i = i + 1;
        }
        assert(self.entries@.take(i as int) =~= self.entries@);
        bytes
    }
}

fn keep_newest(entries: &mut VecDeque<Entry>, capacity: usize)
    ensures
        final(entries)@ == newest(old(entries)@, capacity as nat),
{
    let ghost before = entries@;
    while entries.len() > capacity
        invariant
            newest(entries@, capacity as nat) == newest(before, capacity as nat),
        decreases entries@.len(),
    {
        let ghost longer = entries@;
        let _ = entries.pop_back();
        proof {
            assert(entries@.take(capacity as int) =~= longer.take(capacity as int));
            if entries@.len() == capacity {
                assert(entries@.take(capacity as int) =~= entries@);
            }
        }
    }
}

/// A history never holds more than its capacity, whatever is pushed.
pub proof fn law_history_is_bounded(entries: Seq<Entry>, capacity: nat, entry: Entry)
    requires
        entries.len() <= capacity,
    ensures
        remembered(entries, capacity, entry).len() <= capacity,
{
}

/// Whatever is pushed and however the capacity is changed, no two neighbouring
/// captures are ever the same image.
pub proof fn law_neighbours_differ(
    entries: Seq<Entry>,
    capacity: nat,
    entry: Entry,
    changed_capacity: nat,
)
    requires
        no_repeats(entries),
    ensures
        no_repeats(Seq::<Entry>::empty()),
        no_repeats(remembered(entries, capacity, entry)),
        no_repeats(newest(entries, changed_capacity)),
{
    let longer = seq![entry] + entries;
    if entries.len() == 0 || entries[0].png@ != entry.png@ {
        assert forall|i: int, j: int| 0 <= i && j == i + 1 && j < longer.len() implies (
        #[trigger] longer[i]).png@ != (#[trigger] longer[j]).png@ by {
            if i > 0 {
                assert(longer[i] == entries[i - 1] && longer[j] == entries[j - 1]);
            }
        }
    }
}

/// Pushing an image twice is pushing it once.
pub proof fn law_pushing_again_changes_nothing(
    entries: Seq<Entry>,
    capacity: nat,
    entry: Entry,
    again: Entry,
)
    requires
        again.png@ == entry.png@,
    ensures
        remembered(remembered(entries, capacity, entry), capacity, again) == remembered(
            entries,
            capacity,
            entry,
        ),
{
    let once = remembered(entries, capacity, entry);
    if capacity > 0 {
        assert(once.len() > 0 && once[0].png@ == entry.png@);
    }
}

/// What a push keeps stays in its order, one place further back.
pub proof fn law_older_captures_keep_their_order(
    entries: Seq<Entry>,
    capacity: nat,
    entry: Entry,
    i: int,
)
    requires
        capacity > 0,
        entries.len() == 0 || entries[0].png@ != entry.png@,
        0 <= i,
        i + 1 < remembered(entries, capacity, entry).len(),
    ensures
        remembered(entries, capacity, entry)[0] == entry,
        i < entries.len(),
        remembered(entries, capacity, entry)[i + 1] == entries[i],
{
}

/// Keeping the newest keeps the first ones, as many as there is room for, in
/// their order.
pub proof fn law_the_newest_are_the_first(entries: Seq<Entry>, n: nat, i: int)
    ensures
        entries.len() <= n ==> newest(entries, n).len() == entries.len(),
        entries.len() > n ==> newest(entries, n).len() == n,
        0 <= i < newest(entries, n).len() ==> newest(entries, n)[i] == entries[i],
{
}

/// Remembering adds one capture, as far as there is room. It changes nothing
/// where there is none at all, or where the newest capture is the same image.
pub proof fn law_remembering_adds_one(entries: Seq<Entry>, capacity: nat, entry: Entry)
    requires
        entries.len() <= capacity,
    ensures
        capacity == 0 ==> remembered(entries, capacity, entry) == entries,
        entries.len() > 0 && entries[0].png@ == entry.png@ ==> remembered(entries, capacity, entry)
            == entries,
        (entries.len() == 0 || entries[0].png@ != entry.png@) && entries.len() < capacity
            ==> remembered(entries, capacity, entry).len() == entries.len() + 1,
        (entries.len() == 0 || entries[0].png@ != entry.png@) && entries.len() == capacity
            ==> remembered(entries, capacity, entry).len() == capacity,
{
}

/// The bytes held are the bytes of every capture, added up.
pub proof fn law_bytes_add_up(a: Seq<Entry>, b: Seq<Entry>, entry: Entry)
    ensures
        total_bytes(Seq::empty()) == 0,
        total_bytes(seq![entry]) == entry.png@.len(),
        total_bytes(a + b) == total_bytes(a) + total_bytes(b),
    decreases b.len(),
{
    reveal_with_fuel(total_bytes, 2);
    assert(seq![entry].drop_last() =~= seq![]);
    if b.len() == 0 {
        assert(a + b =~= a);
    } else {
        assert((a + b).drop_last() =~= a + b.drop_last());
        assert((a + b).last() == b.last());
        law_bytes_add_up(a, b.drop_last(), entry);
    }
}

/// A history has no repeats exactly when every capture differs from the one
/// after it.
pub proof fn law_no_repeats_compares_neighbours(entries: Seq<Entry>, i: int)
    requires
        no_repeats(entries),
        0 <= i,
        i + 1 < entries.len(),
    ensures
        entries[i].png@ != entries[i + 1].png@,
{
}

} // verus!
