//! The ordered registry of active notifications, the selection cursor into
//! it, and the id counter for auto-assigned ids.
//!
//! The registry keeps `(id, notification)` pairs in display (arrival) order;
//! replacing an existing id overwrites its fields in place, anything else
//! appends. Ids are unique among active entries. The cursor is `None` exactly
//! when the registry is empty and otherwise stays within bounds; every
//! removal path reclamps it by one shared rule.

use vstd::pervasive::VecAdditionalExecFns;
use vstd::prelude::*;

use crate::markup::strip_markup;
use crate::markup::strip_tags;

verus! {

/// One active notification, plain text only: the body is stored with its
/// inline markup already stripped.
#[derive(Debug, Clone)]
pub struct Notification {
    pub app_name: String,
    pub summary: String,
    pub body: String,
}

/// What a submission decided: the id it was stored under, and the delay in
/// milliseconds after which the entry is due to expire, if a one-shot expiry
/// timer is to be started for it at all.
pub struct NotifyOutcome {
    pub id: u32,
    pub expiry_ms: Option<u64>,
}

/// The registry of active notifications and the selection cursor.
pub struct Registry {
    entries: Vec<(u32, Notification)>,
    cursor: Option<usize>,
    next_id: u32,
}

/// `n` holds the submitted fields, with the body's markup stripped.
pub open spec fn stores_submission(
    n: Notification,
    app_name: String,
    summary: String,
    body: String,
) -> bool {
    &&& n.app_name == app_name
    &&& n.summary == summary
    &&& n.body@ == strip_tags(body@)
}

/// The expiry delay a submitted timeout asks for: the sentinel `-1` means the
/// default of 5000 ms, a positive value is taken as milliseconds, and `0`
/// ("never expires") schedules nothing; neither does any other negative value.
pub open spec fn expiry_of(expire_timeout: i32) -> Option<u64> {
    if expire_timeout == -1 {
        Some(5000u64)
    } else if expire_timeout > 0 {
        Some(expire_timeout as u64)
    } else {
        None
    }
}

/// The expiry delay to schedule for a submitted timeout, as `expiry_of` says.
pub fn expiry_delay(expire_timeout: i32) -> (r: Option<u64>)
    ensures
        r == expiry_of(expire_timeout),
{
    if expire_timeout == -1 {
        Some(5000)
    } else if expire_timeout > 0 {
        Some(expire_timeout as u64)
    } else {
        None
    }
}

/// The id counter after an auto-assignment: one more, wrapping on overflow.
pub open spec fn wrapped_inc(x: u32) -> u32 {
    if x == u32::MAX {
        0u32
    } else {
        (x + 1) as u32
    }
}

/// Where the cursor points after an entry is appended to a registry of
/// `old_len` entries: at the sole entry if nothing was selected, following
/// the newest entry if the previous newest was selected, else unmoved.
pub open spec fn cursor_after_append(c: Option<usize>, old_len: int) -> int {
    match c {
        None => 0,
        Some(i) => if i == old_len - 1 {
            old_len
        } else {
            i as int
        },
    }
}

/// Where the cursor points after the entry at `removed` leaves a registry
/// that still holds `new_len > 0` entries: at the new last entry if the
/// removed position was the last or lay before the cursor, else unmoved.
pub open spec fn cursor_after_removal(c: int, removed: int, new_len: int) -> int {
    if removed >= new_len || c > removed {
        new_len - 1
    } else {
        c
    }
}

/// The selected position after a `next` command: one step toward the newest
/// entry, cyclically.
pub open spec fn next_index(i: int, len: int) -> int {
    (i + 1) % len
}

/// The selected position after a `prev` command: one step toward the oldest
/// entry, cyclically.
pub open spec fn prev_index(i: int, len: int) -> int {
    if i == 0 {
        len - 1
    } else {
        i - 1
    }
}

/// The selected position after `k` repetitions of `next` from position `i`.
pub open spec fn iterated_next(i: int, len: int, k: nat) -> int
    decreases k,
{
    if k == 0 {
        i
    } else {
        next_index(iterated_next(i, len, (k - 1) as nat), len)
    }
}

proof fn lemma_iterated_next_is_mod(i: int, len: int, k: nat)
    requires
        0 <= i < len,
    ensures
        iterated_next(i, len, k) == (i + k) % len,
    decreases k,
{
    vstd::arithmetic::div_mod::lemma_small_mod(i as nat, len as nat);
    if k > 0 {
        lemma_iterated_next_is_mod(i, len, (k - 1) as nat);
        vstd::arithmetic::div_mod::lemma_add_mod_noop(i + k - 1, 1, len);
        if len == 1 {
            vstd::arithmetic::div_mod::lemma_mod_self_0(len);
        } else {
            vstd::arithmetic::div_mod::lemma_small_mod(1nat, len as nat);
        }
    }
}

/// The cyclic-navigation law, first half: from any selected position of a
/// registry of `len` entries, `len` repetitions of `next` return the cursor
/// to its starting value.
pub proof fn lemma_next_cycles(i: int, len: int)
    requires
        0 <= i < len,
    ensures
        iterated_next(i, len, len as nat) == i,
{
    lemma_iterated_next_is_mod(i, len, len as nat);
    vstd::arithmetic::div_mod::lemma_mod_add_multiples_vanish(i, len);
    vstd::arithmetic::div_mod::lemma_small_mod(i as nat, len as nat);
}

/// The cyclic-navigation law, second half: on any selected position, `prev`
/// exactly inverts `next`, and `next` exactly inverts `prev`.
pub proof fn lemma_prev_inverts_next(i: int, len: int)
    requires
        0 <= i < len,
    ensures
        prev_index(next_index(i, len), len) == i,
        next_index(prev_index(i, len), len) == i,
{
    if i + 1 == len {
        vstd::arithmetic::div_mod::lemma_mod_self_0(len);
    } else {
        vstd::arithmetic::div_mod::lemma_small_mod((i + 1) as nat, len as nat);
    }
    if i == 0 {
        vstd::arithmetic::div_mod::lemma_mod_self_0(len);
    } else {
        vstd::arithmetic::div_mod::lemma_small_mod(i as nat, len as nat);
    }
}

/// Id uniqueness depends on the entries alone: it carries over to any
/// registry value with the same entries.
proof fn lemma_unique_transfers(a: Registry, b: Registry)
    requires
        a.ids_unique(),
        a.entries_seq() == b.entries_seq(),
    ensures
        b.ids_unique(),
{
    assert forall|i: int, j: int|
        0 <= i < j < b.entries_seq().len() implies b.id_at(i) != b.id_at(j) by {
        assert(a.id_at(i) != a.id_at(j));
    }
}

impl Registry {
    /// The active entries, in display order.
    pub closed spec fn entries_seq(&self) -> Seq<(u32, Notification)> {
        self.entries@
    }

    /// The selection cursor.
    pub closed spec fn cursor_opt(&self) -> Option<usize> {
        self.cursor
    }

    /// The id the next auto-assigned creation will take.
    pub closed spec fn counter(&self) -> u32 {
        self.next_id
    }

    /// The id of the entry at position `i`.
    pub open spec fn id_at(&self, i: int) -> u32 {
        self.entries_seq()[i].0
    }

    /// Some active entry carries `id`.
    pub open spec fn has_id_spec(&self, id: u32) -> bool {
        exists|i: int| 0 <= i < self.entries_seq().len() && self.id_at(i) == id
    }

    /// No two active entries share an id.
    pub open spec fn ids_unique(&self) -> bool {
        forall|i: int, j: int| 0 <= i < j < self.entries_seq().len() ==> self.id_at(i) != self.id_at(j)
    }

    /// The cursor is `None` exactly when the registry is empty, and otherwise
    /// selects a position within bounds.
    pub open spec fn cursor_in_range(&self) -> bool {
        &&& self.entries_seq().len() == 0 ==> self.cursor_opt() is None
        &&& self.entries_seq().len() > 0 ==> self.cursor_opt() is Some && (self.cursor_opt()->0
            as int) < self.entries_seq().len()
    }

    /// The registry invariant: every operation preserves it.
    pub open spec fn inv(&self) -> bool {
        &&& self.cursor_in_range()
        &&& self.ids_unique()
    }

    /// An empty registry: nothing selected, auto-assigned ids start at 1.
    pub fn new() -> (r: Registry)
        ensures
            r.inv(),
            r.entries_seq().len() == 0,
            r.cursor_opt() is None,
            r.counter() == 1,
    {
        Registry { entries: Vec::new(), cursor: None, next_id: 1 }
    }

    /// How many notifications are active.
    pub fn len(&self) -> (n: usize)
        ensures
            n == self.entries_seq().len(),
    {
        self.entries.len()
    }

    /// The selection cursor.
    pub fn cursor(&self) -> (c: Option<usize>)
        ensures
            c == self.cursor_opt(),
    {
        self.cursor
    }

    /// The id the next auto-assigned creation will take.
    pub fn next_auto_id(&self) -> (id: u32)
        ensures
            id == self.counter(),
    {
        self.next_id
    }

    /// The entry at position `index`.
    pub fn get(&self, index: usize) -> (entry: &(u32, Notification))
        requires
            index < self.entries_seq().len(),
        ensures
            *entry == self.entries_seq()[index as int],
    {
        &self.entries[index]
    }

    /// The position of the entry carrying `id`, if one is active.
    pub fn find_index(&self, id: u32) -> (r: Option<usize>)
        ensures
            r matches Some(i) ==> i < self.entries_seq().len() && self.id_at(i as int) == id,
            r is None ==> !self.has_id_spec(id),
    {
        let n = self.entries.len();
        let mut i: usize = 0;
        while i < n
            invariant
                i <= n,
                n == self.entries_seq().len(),
                forall|j: int| 0 <= j < i ==> self.entries_seq()[j].0 != id,
            decreases n - i,
        {
            if self.entries[i].0 == id {
                return Some(i);
            }
            i = i + 1;
        }
        None
    }

    /// Some active entry carries `id`.
    pub fn has_id(&self, id: u32) -> (r: bool)
        ensures
            r == self.has_id_spec(id),
    {
        self.find_index(id).is_some()
    }

    /// The cursor-clamp law: under the invariant the cursor is `None` exactly
    /// when the registry is empty, and otherwise lies in `[0, len - 1]`.
    pub proof fn lemma_cursor_clamped(&self)
        requires
            self.inv(),
        ensures
            self.cursor_opt() is None <==> self.entries_seq().len() == 0,
            self.cursor_opt() matches Some(i) ==> (i as int) < self.entries_seq().len(),
    {
    }

    /// The unified removal primitive: every removal path (close by id, close
    /// of the current entry, expiry) takes out one position and reclamps the
    /// cursor by the same rule.
    pub fn remove_at(&mut self, index: usize) -> (removed: (u32, Notification))
        requires
            old(self).inv(),
            index < old(self).entries_seq().len(),
        ensures
            final(self).inv(),
            removed == old(self).entries_seq()[index as int],
            final(self).entries_seq() == old(self).entries_seq().remove(index as int),
            final(self).counter() == old(self).counter(),
            final(self).entries_seq().len() == 0 ==> final(self).cursor_opt() is None,
            final(self).entries_seq().len() > 0 ==> final(self).cursor_opt() == Some(
                cursor_after_removal(
                    old(self).cursor_opt()->0 as int,
                    index as int,
                    final(self).entries_seq().len() as int,
                ) as usize,
            ),
    {
        let removed = self.entries.remove(index);
        let new_len = self.entries.len();
        if new_len == 0 {
            self.cursor = None;
        } else {
            let c = self.cursor.unwrap();
            if index >= new_len || c > index {
                self.cursor = Some(new_len - 1);
            }
        }
        proof {
            let s = old(self).entries_seq();
            assert forall|i: int, j: int|
                0 <= i < j < self.entries_seq().len() implies self.id_at(i) != self.id_at(j) by {
                let i0: int = if i < index { i } else { i + 1 };
                let j0: int = if j < index { j } else { j + 1 };
                assert(self.entries_seq()[i] == s[i0]);
                assert(self.entries_seq()[j] == s[j0]);
                assert(old(self).id_at(i0) != old(self).id_at(j0));
            }
        }
        removed
    }

    /// Close by id, the shared producer-facing and expiry path: if an entry
    /// with `id` is active it is removed and the cursor reclamped; callers
    /// emit the closed signal and publish a change event exactly when `true`
    /// comes back, and a stale expiry fire is a silent no-op.
    pub fn close_notification(&mut self, id: u32) -> (removed: bool)
        requires
            old(self).inv(),
        ensures
            final(self).inv(),
            removed == old(self).has_id_spec(id),
            !removed ==> *final(self) == *old(self),
            final(self).counter() == old(self).counter(),
            removed ==> ({
                let i = choose|i: int|
                    0 <= i < old(self).entries_seq().len() && old(self).entries_seq()[i].0 == id;
                &&& final(self).entries_seq() == old(self).entries_seq().remove(i)
                &&& final(self).entries_seq().len() == 0 ==> final(self).cursor_opt() is None
                &&& final(self).entries_seq().len() > 0 ==> final(self).cursor_opt() == Some(
                    cursor_after_removal(
                        old(self).cursor_opt()->0 as int,
                        i,
                        final(self).entries_seq().len() as int,
                    ) as usize,
                )
            }),
    {
        match self.find_index(id) {
            Some(index) => {
                proof {
                    let chosen = choose|i: int|
                        0 <= i < self.entries_seq().len() && self.entries_seq()[i].0 == id;
                    assert(self.id_at(chosen) == id);
                    assert(self.id_at(index as int) == id);
                    if chosen < index as int {
                        assert(self.id_at(chosen) != self.id_at(index as int));
                    } else if (index as int) < chosen {
                        assert(self.id_at(index as int) != self.id_at(chosen));
                    }
                    assert(chosen == index as int);
                }
                let _ = self.remove_at(index);
                true
            },
            None => false,
        }
    }

    /// Close the currently selected notification, if any: it is removed, the
    /// cursor reclamped, and its id returned so the caller can emit the
    /// closed signal (reason: dismissed) and publish a change event. With
    /// nothing selected this is a no-op.
    pub fn close_current(&mut self) -> (closed: Option<u32>)
        requires
            old(self).inv(),
        ensures
            final(self).inv(),
            final(self).counter() == old(self).counter(),
            closed is Some <==> old(self).cursor_opt() is Some,
            old(self).cursor_opt() is None ==> *final(self) == *old(self),
            old(self).cursor_opt() matches Some(i) ==> {
                &&& closed == Some(old(self).id_at(i as int))
                &&& final(self).entries_seq() == old(self).entries_seq().remove(i as int)
                &&& final(self).entries_seq().len() == 0 ==> final(self).cursor_opt() is None
                &&& final(self).entries_seq().len() > 0 ==> final(self).cursor_opt() == Some(
                    cursor_after_removal(
                        i as int,
                        i as int,
                        final(self).entries_seq().len() as int,
                    ) as usize,
                )
            },
    {
        match self.cursor {
            Some(index) => {
                let (id, _) = self.remove_at(index);
                Some(id)
            },
            None => None,
        }
    }

    /// Select the next notification, cyclically; a no-op with nothing
    /// selected. `moved` says whether a change event is due.
    pub fn next(&mut self) -> (moved: bool)
        requires
            old(self).inv(),
        ensures
            final(self).inv(),
            final(self).entries_seq() == old(self).entries_seq(),
            final(self).counter() == old(self).counter(),
            moved == (old(self).cursor_opt() is Some),
            old(self).cursor_opt() is None ==> final(self).cursor_opt() is None,
            old(self).cursor_opt() matches Some(i) ==> final(self).cursor_opt() == Some(
                next_index(i as int, old(self).entries_seq().len() as int) as usize,
            ),
    {
        match self.cursor {
            Some(index) => {
                let len = self.entries.len();
                if len == 0 {
                    // Defensively guarded; unreachable while the invariant holds.
                    return false;
                }
                self.cursor = Some((index + 1) % len);
                proof {
                    lemma_unique_transfers(*old(self), *self);
                }
                true
            },
            None => false,
        }
    }

    /// Select the previous notification, cyclically; a no-op with nothing
    /// selected. `moved` says whether a change event is due.
    pub fn prev(&mut self) -> (moved: bool)
        requires
            old(self).inv(),
        ensures
            final(self).inv(),
            final(self).entries_seq() == old(self).entries_seq(),
            final(self).counter() == old(self).counter(),
            moved == (old(self).cursor_opt() is Some),
            old(self).cursor_opt() is None ==> final(self).cursor_opt() is None,
            old(self).cursor_opt() matches Some(i) ==> final(self).cursor_opt() == Some(
                prev_index(i as int, old(self).entries_seq().len() as int) as usize,
            ),
    {
        match self.cursor {
            Some(index) => {
                let len = self.entries.len();
                if len == 0 {
                    // Defensively guarded; unreachable while the invariant holds.
                    return false;
                }
                if index == 0 {
                    self.cursor = Some(len - 1);
                } else {
                    self.cursor = Some(index - 1);
                }
                proof {
                    lemma_unique_transfers(*old(self), *self);
                }
                true
            },
            None => false,
        }
    }

    /// Append a fresh entry at the end and let the cursor follow it when it
    /// was on the previous newest entry (or was unset).
    fn append_entry(&mut self, id: u32, notification: Notification)
        requires
            old(self).inv(),
            !old(self).has_id_spec(id),
        ensures
            final(self).inv(),
            final(self).counter() == old(self).counter(),
            final(self).entries_seq() == old(self).entries_seq().push((id, notification)),
            final(self).cursor_opt() == Some(
                cursor_after_append(
                    old(self).cursor_opt(),
                    old(self).entries_seq().len() as int,
                ) as usize,
            ),
    {
        let old_len = self.entries.len();
        match self.cursor {
            None => {
                self.cursor = Some(0);
            },
            Some(c) => {
                if c == old_len - 1 {
                    self.cursor = Some(old_len);
                }
            },
        }
        self.entries.push((id, notification));
        proof {
            let s = old(self).entries_seq();
            assert forall|i: int, j: int|
                0 <= i < j < self.entries_seq().len() implies self.id_at(i) != self.id_at(j) by {
                assert(self.entries_seq()[i] == s[i]);
                if j < s.len() {
                    assert(self.entries_seq()[j] == s[j]);
                    assert(old(self).id_at(i) != old(self).id_at(j));
                } else {
                    assert(self.id_at(j) == id);
                    if old(self).id_at(i) == id {
                        assert(old(self).has_id_spec(id));
                    }
                }
            }
        }
    }

    /// Handle a submission: strip the body's markup, then either overwrite
    /// the entry whose id is `replaces_id` in place (position and cursor
    /// untouched) or append a fresh entry, auto-assigning an id when
    /// `replaces_id` is 0. The outcome carries the entry's id and, for a
    /// fresh entry only, the expiry delay to schedule; the caller publishes a
    /// change event in every case.
    pub fn notify(
        &mut self,
        app_name: String,
        replaces_id: u32,
        summary: String,
        body: String,
        expire_timeout: i32,
    ) -> (outcome: NotifyOutcome)
        requires
            old(self).inv(),
            replaces_id == 0 ==> !old(self).has_id_spec(old(self).counter()),
        ensures
            final(self).inv(),
            outcome.id == if replaces_id == 0 {
                old(self).counter()
            } else {
                replaces_id
            },
            final(self).counter() == if replaces_id == 0 {
                wrapped_inc(old(self).counter())
            } else {
                old(self).counter()
            },
            replaces_id != 0 && old(self).has_id_spec(replaces_id) ==> ({
                let i = choose|i: int|
                    0 <= i < old(self).entries_seq().len() && old(self).entries_seq()[i].0
                        == replaces_id;
                &&& outcome.expiry_ms is None
                &&& final(self).entries_seq().len() == old(self).entries_seq().len()
                &&& forall|j: int|
                    0 <= j < old(self).entries_seq().len() && j != i
                        ==> final(self).entries_seq()[j] == old(self).entries_seq()[j]
                &&& final(self).id_at(i) == replaces_id
                &&& stores_submission(final(self).entries_seq()[i].1, app_name, summary, body)
                &&& final(self).cursor_opt() == old(self).cursor_opt()
            }),
            !(replaces_id != 0 && old(self).has_id_spec(replaces_id)) ==> ({
                let n = old(self).entries_seq().len() as int;
                &&& outcome.expiry_ms == expiry_of(expire_timeout)
                &&& final(self).entries_seq().len() == n + 1
                &&& forall|j: int|
                    0 <= j < n ==> final(self).entries_seq()[j] == old(self).entries_seq()[j]
                &&& final(self).id_at(n) == outcome.id
                &&& stores_submission(final(self).entries_seq()[n].1, app_name, summary, body)
                &&& final(self).cursor_opt() == Some(
                    cursor_after_append(old(self).cursor_opt(), n) as usize,
                )
            }),
    {
        let stripped = strip_markup(body.as_str());
        let notification = Notification { app_name, summary, body: stripped };
        if replaces_id == 0 {
            let id = self.next_id;
            self.append_entry(id, notification);
            let ghost appended = *self;
            self.next_id = if self.next_id == u32::MAX {
                0
            } else {
                self.next_id + 1
            };
            proof {
                lemma_unique_transfers(appended, *self);
            }
            NotifyOutcome { id, expiry_ms: expiry_delay(expire_timeout) }
        } else {
            match self.find_index(replaces_id) {
                Some(index) => {
                    proof {
                        let chosen = choose|i: int|
                            0 <= i < self.entries_seq().len() && self.entries_seq()[i].0
                                == replaces_id;
                        assert(self.id_at(chosen) == replaces_id);
                        assert(self.id_at(index as int) == replaces_id);
                        if chosen < index as int {
                            assert(self.id_at(chosen) != self.id_at(index as int));
                        } else if (index as int) < chosen {
                            assert(self.id_at(index as int) != self.id_at(chosen));
                        }
                        assert(chosen == index as int);
                    }
                    self.entries.set(index, (replaces_id, notification));
                    proof {
                        let s = old(self).entries_seq();
                        assert forall|i: int, j: int|
                            0 <= i < j < self.entries_seq().len() implies self.id_at(i)
                            != self.id_at(j) by {
                            assert(self.entries_seq()[i].0 == s[i].0);
                            assert(self.entries_seq()[j].0 == s[j].0);
                            assert(old(self).id_at(i) != old(self).id_at(j));
                        }
                    }
                    NotifyOutcome { id: replaces_id, expiry_ms: None }
                },
                None => {
                    self.append_entry(replaces_id, notification);
                    NotifyOutcome { id: replaces_id, expiry_ms: expiry_delay(expire_timeout) }
                },
            }
        }
    }

    /// The id of the currently selected notification, for the action-invoked
    /// signal; reads only, no state change.
    pub fn invoke(&self) -> (r: Option<u32>)
        requires
            self.inv(),
        ensures
            r is Some <==> self.cursor_opt() is Some,
            self.cursor_opt() matches Some(i) ==> r == Some(self.id_at(i as int)),
    {
        match self.cursor {
            Some(index) => Some(self.entries[index].0),
            None => None,
        }
    }
}

} // verus!
