//! Typing-timer manager: at most one pending expiry per user. A `typing`
//! event arms (or re-arms, superseding the old deadline) a one-shot timer;
//! the timer fires after a fixed quiet period, or is cancelled when the user
//! leaves the roster. Time is an explicit clock value handed in by the
//! caller, so expiry is testable without real time.

use crate::codec::{names_has, str_eq, strs_view};
use vstd::pervasive::VecAdditionalExecFns;
use vstd::prelude::*;
use vstd::string::StringExecFns;

verus! {

/// The quiet period after which a typing indicator auto-clears.
pub const TYPING_TIMEOUT: u64 = 3000;

/// One pending expiry: the user's name and the clock value at which the
/// indicator clears.
pub struct TimerEntry {
    pub name: String,
    pub deadline: u64,
}

/// All pending expiries. Well-formed when no user has two.
pub struct TimerManager {
    pub entries: Vec<TimerEntry>,
}

/// Whether a timer is pending for this name.
pub open spec fn has_timer(t: TimerManager, name: Seq<char>) -> bool {
    exists|i: int| 0 <= i < t.entries@.len() && #[trigger] t.entries@[i].name@ == name
}

/// The deadline of the pending timer for this name (meaningful only under
/// `wf` and `has_timer`).
pub open spec fn deadline_of(t: TimerManager, name: Seq<char>) -> int {
    t.entries@[choose|i: int|
        0 <= i < t.entries@.len() && #[trigger] t.entries@[i].name@ == name].deadline as int
}

/// The timer for this name, pending or not, is the same on both sides.
pub open spec fn timer_same(pre: TimerManager, post: TimerManager, name: Seq<char>) -> bool {
    &&& has_timer(post, name) == has_timer(pre, name)
    &&& has_timer(pre, name) ==> deadline_of(post, name) == deadline_of(pre, name)
}

/// `post` is `pre` with the timer for `name` now pending at `deadline` and
/// every other user's timer untouched.
pub open spec fn armed(pre: TimerManager, post: TimerManager, name: Seq<char>, deadline: int) -> bool {
    &&& has_timer(post, name)
    &&& deadline_of(post, name) == deadline
    &&& forall|v: Seq<char>| v != name ==> #[trigger] timer_same(pre, post, v)
}

/// `post` is `pre` without a timer for `name` and every other user's timer
/// untouched.
pub open spec fn cancelled(pre: TimerManager, post: TimerManager, name: Seq<char>) -> bool {
    &&& !has_timer(post, name)
    &&& forall|v: Seq<char>| v != name ==> #[trigger] timer_same(pre, post, v)
}

/// How one user's timer relates across a roster replacement: kept with its
/// deadline when the user stays, gone when the user left.
pub open spec fn retained_at(
    pre: TimerManager,
    post: TimerManager,
    names: Seq<Seq<char>>,
    v: Seq<char>,
) -> bool {
    &&& has_timer(post, v) == (has_timer(pre, v) && names_has(names, v))
    &&& has_timer(post, v) ==> deadline_of(post, v) == deadline_of(pre, v)
}

/// `post` is `pre` restricted to the users of the new roster.
pub open spec fn retained(pre: TimerManager, post: TimerManager, names: Seq<Seq<char>>) -> bool {
    forall|v: Seq<char>| #[trigger] retained_at(pre, post, names, v)
}

/// How one user's timer relates across an expiry sweep at `now`: kept when
/// its deadline is still ahead, gone when it was due.
pub open spec fn swept_at(pre: TimerManager, post: TimerManager, now: int, v: Seq<char>) -> bool {
    &&& has_timer(post, v) == (has_timer(pre, v) && deadline_of(pre, v) > now)
    &&& has_timer(post, v) ==> deadline_of(post, v) == deadline_of(pre, v)
}

/// `post` is `pre` without every timer due at `now`.
pub open spec fn swept(pre: TimerManager, post: TimerManager, now: int) -> bool {
    forall|v: Seq<char>| #[trigger] swept_at(pre, post, now, v)
}

/// Whether the timer for this name is pending and due at `now`.
pub open spec fn due(t: TimerManager, name: Seq<char>, now: int) -> bool {
    has_timer(t, name) && deadline_of(t, name) <= now
}

/// `k` witnesses that `kept[k]` was taken from the first `bound` entries of
/// `pre`.
spec fn kept_from(kept: Seq<TimerEntry>, pre: Seq<TimerEntry>, bound: int, k: int) -> bool {
    exists|j: int| 0 <= j < bound && kept[k] == #[trigger] pre[j]
}

/// Some kept entry is exactly `e`.
spec fn entry_kept(kept: Seq<TimerEntry>, e: TimerEntry) -> bool {
    exists|k: int| 0 <= k < kept.len() && #[trigger] kept[k] == e
}

impl TimerManager {
    /// No two entries name the same user.
    pub open spec fn wf(self) -> bool {
        forall|i: int, j: int|
            0 <= i < j < self.entries@.len() ==> (#[trigger] self.entries@[i].name@)
                != (#[trigger] self.entries@[j].name@)
    }

    /// No timers pending.
    pub fn new() -> (t: TimerManager)
        ensures
            t.wf(),
            forall|v: Seq<char>| !has_timer(t, v),
    {
        TimerManager { entries: Vec::new() }
    }

    /// Arm the timer for `name` at `now + TYPING_TIMEOUT`, superseding any
    /// pending one (the debounce of repeated `typing` events).
    pub fn arm(&mut self, name: &str, now: u64)
        requires
            old(self).wf(),
            now + TYPING_TIMEOUT <= u64::MAX,
        ensures
            final(self).wf(),
            armed(*old(self), *final(self), name@, now + TYPING_TIMEOUT),
    {
        let deadline: u64 = now + TYPING_TIMEOUT;
        let mut i: usize = 0;
        while i < self.entries.len()
            invariant
                i <= self.entries@.len(),
                *self == *old(self),
                self.wf(),
                deadline == now + TYPING_TIMEOUT,
                forall|j: int| 0 <= j < i ==> (#[trigger] self.entries@[j].name@) != name@,
            decreases self.entries@.len() - i,
        {
            if str_eq(self.entries[i].name.as_str(), name) {
                let updated = TimerEntry { name: self.entries[i].name.clone(), deadline };
                self.entries.set(i, updated);
                proof {
                    assert forall|k: int| 0 <= k < self.entries@.len() implies (
                    #[trigger] self.entries@[k].name@) == old(self).entries@[k].name@ by {}
                    lemma_entry_names_determine_wf(*old(self), *self);
                    lemma_deadline_at(*self, i as int);
                    assert forall|v: Seq<char>| v != name@ implies timer_same(
                        *old(self),
                        *self,
                        v,
                    ) by {
                        lemma_same_names_same_timers(*old(self), *self, v);
                        if has_timer(*old(self), v) {
                            let j = choose|j: int|
                                0 <= j < old(self).entries@.len() && old(
                                    self,
                                ).entries@[j].name@ == v;
                            lemma_deadline_at(*old(self), j);
                            lemma_deadline_at(*self, j);
                        }
                    }
                }
                return;
            }
            i = i + 1;
        }
        self.entries.push(TimerEntry { name: name.to_owned(), deadline });
        proof {
            let pre = *old(self);
            let n = self.entries@.len() - 1;
            assert(self.entries@[n].name@ == name@);
            assert forall|a: int, b: int| 0 <= a < b < self.entries@.len() implies (
            #[trigger] self.entries@[a].name@) != (#[trigger] self.entries@[b].name@) by {
                if b < n {
                    assert(pre.entries@[a].name@ != pre.entries@[b].name@);
                } else {
                    assert(self.entries@[a].name@ != name@);
                }
            }
            lemma_deadline_at(*self, n);
            assert forall|v: Seq<char>| v != name@ implies timer_same(pre, *self, v) by {
                if has_timer(pre, v) {
                    let j = choose|j: int|
                        0 <= j < pre.entries@.len() && pre.entries@[j].name@ == v;
                    assert(self.entries@[j].name@ == v);
                    lemma_deadline_at(pre, j);
                    lemma_deadline_at(*self, j);
                }
                if has_timer(*self, v) {
                    let j = choose|j: int|
                        0 <= j < self.entries@.len() && self.entries@[j].name@ == v;
                    assert(j < n);
                    assert(pre.entries@[j].name@ == v);
                }
            }
        }
    }

    /// Cancel the timer for `name`. Idempotent: cancelling one that is not
    /// pending changes nothing and is no error.
    pub fn cancel(&mut self, name: &str)
        requires
            old(self).wf(),
        ensures
            final(self).wf(),
            cancelled(*old(self), *final(self), name@),
    {
        let mut i: usize = 0;
        while i < self.entries.len()
            invariant
                i <= self.entries@.len(),
                *self == *old(self),
                self.wf(),
                forall|j: int| 0 <= j < i ==> (#[trigger] self.entries@[j].name@) != name@,
            decreases self.entries@.len() - i,
        {
            if str_eq(self.entries[i].name.as_str(), name) {
                let pre_ghost = Ghost(*self);
                self.entries.remove(i);
                proof {
                    let pre = pre_ghost@;
                    assert forall|k: int| 0 <= k < self.entries@.len() implies (
                    #[trigger] self.entries@[k]) == (if k < i {
                        pre.entries@[k]
                    } else {
                        pre.entries@[k + 1]
                    }) by {}
                    assert forall|a: int, b: int| 0 <= a < b < self.entries@.len() implies (
                    #[trigger] self.entries@[a].name@) != (#[trigger] self.entries@[b].name@) by {
                        let pa: int = if a < i { a } else { a + 1 };
                        let pb: int = if b < i { b } else { b + 1 };
                        assert(pre.entries@[pa].name@ != pre.entries@[pb].name@);
                    }
                    assert forall|v: Seq<char>| v != name@ implies timer_same(pre, *self, v) by {
                        if has_timer(pre, v) {
                            let j = choose|j: int|
                                0 <= j < pre.entries@.len() && pre.entries@[j].name@ == v;
                            let k: int = if j < i {
                                j
                            } else {
                                j - 1
                            };
                            assert(self.entries@[k] == pre.entries@[j]);
                            lemma_deadline_at(pre, j);
                            lemma_deadline_at(*self, k);
                        }
                        if has_timer(*self, v) {
                            let k = choose|k: int|
                                0 <= k < self.entries@.len() && self.entries@[k].name@ == v;
                            let pj: int = if k < i { k } else { k + 1 };
                            assert(pre.entries@[pj].name@ == v);
                        }
                    }
                    assert forall|k: int| 0 <= k < self.entries@.len() implies (
                    #[trigger] self.entries@[k].name@) != name@ by {
                        let pj: int = if k < i { k } else { k + 1 };
                        assert(self.entries@[k] == pre.entries@[pj]);
                        if pj != i {
                            assert(pre.entries@[pj].name@ != pre.entries@[i as int].name@);
                        }
                    }
                }
                return;
            }
            i = i + 1;
        }
    }

    /// Replace the pending set by its restriction to the new roster: every
    /// timer of a user who stays keeps its deadline, every timer of a user
    /// who left is cancelled.
    pub fn retain(&mut self, roster: &Vec<String>)
        requires
            old(self).wf(),
        ensures
            final(self).wf(),
            retained(*old(self), *final(self), strs_view(roster@)),
    {
        let ghost names = strs_view(roster@);
        let mut kept: Vec<TimerEntry> = Vec::new();
        let mut i: usize = 0;
        while i < self.entries.len()
            invariant
                i <= self.entries@.len(),
                *self == *old(self),
                self.wf(),
                names == strs_view(roster@),
                forall|a: int, b: int|
                    0 <= a < b < kept@.len() ==> (#[trigger] kept@[a].name@) != (
                    #[trigger] kept@[b].name@),
                forall|k: int|
                    0 <= k < kept@.len() ==> #[trigger] kept_from(
                        kept@,
                        self.entries@,
                        i as int,
                        k,
                    ),
                forall|k: int| 0 <= k < kept@.len() ==> names_has(names, #[trigger] kept@[k].name@),
                forall|j: int|
                    0 <= j < i && names_has(names, #[trigger] self.entries@[j].name@)
                        ==> entry_kept(kept@, self.entries@[j]),
            decreases self.entries@.len() - i,
        {
            if names_contain(roster, self.entries[i].name.as_str()) {
                let ghost old_kept = kept@;
                let e = TimerEntry {
                    name: self.entries[i].name.clone(),
                    deadline: self.entries[i].deadline,
                };
                kept.push(e);
                proof {
                    let n = kept@.len() - 1;
                    assert(kept@[n] == self.entries@[i as int]);
                    assert forall|a: int| 0 <= a < n implies (#[trigger] kept@[a].name@)
                        != kept@[n].name@ by {
                        assert(kept_from(old_kept, self.entries@, i as int, a));
                        let j = choose|j: int|
                            0 <= j < i && old_kept[a] == #[trigger] self.entries@[j];
                        assert(self.entries@[j].name@ != self.entries@[i as int].name@);
                    }
                    assert forall|k: int| 0 <= k < kept@.len() implies #[trigger] kept_from(
                        kept@,
                        self.entries@,
                        i + 1,
                        k,
                    ) by {
                        if k < n {
                            assert(kept_from(old_kept, self.entries@, i as int, k));
                            let j = choose|j: int|
                                0 <= j < i && old_kept[k] == #[trigger] self.entries@[j];
                            assert(kept@[k] == self.entries@[j]);
                        } else {
                            assert(kept@[k] == self.entries@[i as int]);
                        }
                    }
                    assert forall|j: int|
                        0 <= j < i + 1 && names_has(
                            names,
                            #[trigger] self.entries@[j].name@,
                        ) implies entry_kept(kept@, self.entries@[j]) by {
                        if j < i {
                            assert(entry_kept(old_kept, self.entries@[j]));
                            let k = choose|k: int|
                                0 <= k < old_kept.len() && #[trigger] old_kept[k]
                                    == self.entries@[j];
                            assert(kept@[k] == self.entries@[j]);
                        } else {
                            assert(kept@[n] == self.entries@[j]);
                        }
                    }
                }
            } else {
                proof {
                    assert forall|k: int| 0 <= k < kept@.len() implies #[trigger] kept_from(
                        kept@,
                        self.entries@,
                        i + 1,
                        k,
                    ) by {
                        assert(kept_from(kept@, self.entries@, i as int, k));
                        let j = choose|j: int|
                            0 <= j < i && kept@[k] == #[trigger] self.entries@[j];
                        assert(0 <= j < i + 1 && kept@[k] == self.entries@[j]);
                    }
                }
            }
            i = i + 1;
        }
        let ghost pre = *old(self);
        let ghost pre_len = self.entries@.len() as int;
        self.entries = kept;
        proof {
            assert forall|v: Seq<char>| #[trigger] retained_at(pre, *self, names, v) by {
                if has_timer(*self, v) {
                    let k = choose|k: int|
                        0 <= k < self.entries@.len() && #[trigger] self.entries@[k].name@ == v;
                    assert(kept_from(self.entries@, pre.entries@, pre_len, k));
                    let j = choose|j: int|
                        0 <= j < pre_len && self.entries@[k] == #[trigger] pre.entries@[j];
                    assert(pre.entries@[j].name@ == v);
                    lemma_deadline_at(pre, j);
                    lemma_deadline_at(*self, k);
                }
                if has_timer(pre, v) && names_has(names, v) {
                    let j = choose|j: int|
                        0 <= j < pre.entries@.len() && #[trigger] pre.entries@[j].name@ == v;
                    assert(entry_kept(self.entries@, pre.entries@[j]));
                    let k = choose|k: int|
                        0 <= k < self.entries@.len() && #[trigger] self.entries@[k]
                            == pre.entries@[j];
                    assert(self.entries@[k].name@ == v);
                }
            }
        }
    }

    /// Remove every timer due at `now`; the rest keep their deadlines.
    pub fn remove_expired(&mut self, now: u64)
        requires
            old(self).wf(),
        ensures
            final(self).wf(),
            swept(*old(self), *final(self), now as int),
    {
        let mut kept: Vec<TimerEntry> = Vec::new();
        let mut i: usize = 0;
        while i < self.entries.len()
            invariant
                i <= self.entries@.len(),
                *self == *old(self),
                self.wf(),
                forall|a: int, b: int|
                    0 <= a < b < kept@.len() ==> (#[trigger] kept@[a].name@) != (
                    #[trigger] kept@[b].name@),
                forall|k: int|
                    0 <= k < kept@.len() ==> #[trigger] kept_from(
                        kept@,
                        self.entries@,
                        i as int,
                        k,
                    ),
                forall|k: int| 0 <= k < kept@.len() ==> (#[trigger] kept@[k].deadline) > now,
                forall|j: int|
                    0 <= j < i && (#[trigger] self.entries@[j].deadline) > now ==> entry_kept(
                        kept@,
                        self.entries@[j],
                    ),
            decreases self.entries@.len() - i,
        {
            if self.entries[i].deadline > now {
                let ghost old_kept = kept@;
                let e = TimerEntry {
                    name: self.entries[i].name.clone(),
                    deadline: self.entries[i].deadline,
                };
                kept.push(e);
                proof {
                    let n = kept@.len() - 1;
                    assert(kept@[n] == self.entries@[i as int]);
                    assert forall|a: int| 0 <= a < n implies (#[trigger] kept@[a].name@)
                        != kept@[n].name@ by {
                        assert(kept_from(old_kept, self.entries@, i as int, a));
                        let j = choose|j: int|
                            0 <= j < i && old_kept[a] == #[trigger] self.entries@[j];
                        assert(self.entries@[j].name@ != self.entries@[i as int].name@);
                    }
                    assert forall|k: int| 0 <= k < kept@.len() implies #[trigger] kept_from(
                        kept@,
                        self.entries@,
                        i + 1,
                        k,
                    ) by {
                        if k < n {
                            assert(kept_from(old_kept, self.entries@, i as int, k));
                            let j = choose|j: int|
                                0 <= j < i && old_kept[k] == #[trigger] self.entries@[j];
                            assert(kept@[k] == self.entries@[j]);
                        } else {
                            assert(kept@[k] == self.entries@[i as int]);
                        }
                    }
                    assert forall|j: int|
                        0 <= j < i + 1 && (#[trigger] self.entries@[j].deadline)
                            > now implies entry_kept(kept@, self.entries@[j]) by {
                        if j < i {
                            assert(entry_kept(old_kept, self.entries@[j]));
                            let k = choose|k: int|
                                0 <= k < old_kept.len() && #[trigger] old_kept[k]
                                    == self.entries@[j];
                            assert(kept@[k] == self.entries@[j]);
                        } else {
                            assert(kept@[n] == self.entries@[j]);
                        }
                    }
                }
            } else {
                proof {
                    assert forall|k: int| 0 <= k < kept@.len() implies #[trigger] kept_from(
                        kept@,
                        self.entries@,
                        i + 1,
                        k,
                    ) by {
                        assert(kept_from(kept@, self.entries@, i as int, k));
                        let j = choose|j: int|
                            0 <= j < i && kept@[k] == #[trigger] self.entries@[j];
                        assert(0 <= j < i + 1 && kept@[k] == self.entries@[j]);
                    }
                }
            }
            i = i + 1;
        }
        let ghost pre = *old(self);
        let ghost pre_len = self.entries@.len() as int;
        self.entries = kept;
        proof {
            assert forall|v: Seq<char>| #[trigger] swept_at(pre, *self, now as int, v) by {
                if has_timer(*self, v) {
                    let k = choose|k: int|
                        0 <= k < self.entries@.len() && #[trigger] self.entries@[k].name@ == v;
                    assert(kept_from(self.entries@, pre.entries@, pre_len, k));
                    let j = choose|j: int|
                        0 <= j < pre_len && self.entries@[k] == #[trigger] pre.entries@[j];
                    assert(pre.entries@[j].name@ == v);
                    lemma_deadline_at(pre, j);
                    lemma_deadline_at(*self, k);
                }
                if has_timer(pre, v) && deadline_of(pre, v) > now {
                    let j = choose|j: int|
                        0 <= j < pre.entries@.len() && #[trigger] pre.entries@[j].name@ == v;
                    lemma_deadline_at(pre, j);
                    assert(entry_kept(self.entries@, pre.entries@[j]));
                    let k = choose|k: int|
                        0 <= k < self.entries@.len() && #[trigger] self.entries@[k]
                            == pre.entries@[j];
                    assert(self.entries@[k].name@ == v);
                }
            }
        }
    }

    /// Whether the timer for `name` is pending and due at `now`.
    pub fn expires_by(&self, name: &str, now: u64) -> (r: bool)
        requires
            self.wf(),
        ensures
            r == due(*self, name@, now as int),
    {
        let mut i: usize = 0;
        while i < self.entries.len()
            invariant
                i <= self.entries@.len(),
                self.wf(),
                forall|j: int| 0 <= j < i ==> (#[trigger] self.entries@[j].name@) != name@,
            decreases self.entries@.len() - i,
        {
            if str_eq(self.entries[i].name.as_str(), name) {
                proof {
                    lemma_deadline_at(*self, i as int);
                }
                return self.entries[i].deadline <= now;
            }
            i = i + 1;
        }
        false
    }
}

/// Exec membership test of a name in a roster of names.
fn names_contain(roster: &Vec<String>, name: &str) -> (r: bool)
    ensures
        r == names_has(strs_view(roster@), name@),
{
    let mut i: usize = 0;
    while i < roster.len()
        invariant
            i <= roster@.len(),
            forall|j: int| 0 <= j < i ==> (#[trigger] roster@[j]@) != name@,
        decreases roster@.len() - i,
    {
        if str_eq(roster[i].as_str(), name) {
            proof {
                assert(strs_view(roster@)[i as int] == name@);
            }
            return true;
        }
        i = i + 1;
    }
    proof {
        if names_has(strs_view(roster@), name@) {
            let j = choose|j: int|
                0 <= j < strs_view(roster@).len() && #[trigger] strs_view(roster@)[j] == name@;
            assert(roster@[j]@ == name@);
        }
    }
    false
}

/// Law: a later `typing` event for the same user supersedes the earlier
/// timer entirely. After re-arming, the timer is due exactly from the newer
/// deadline on; nothing is left of the first one.
pub proof fn lemma_typing_debounce(
    t0: TimerManager,
    t1: TimerManager,
    t2: TimerManager,
    name: Seq<char>,
    first: int,
    second: int,
)
    requires
        armed(t0, t1, name, first + TYPING_TIMEOUT),
        armed(t1, t2, name, second + TYPING_TIMEOUT),
    ensures
        forall|at: int| #[trigger] due(t2, name, at) <==> at >= second + TYPING_TIMEOUT,
{
}

/// Law: a fired timer is gone for good. Once a sweep removes a due timer,
/// no later clock value finds it due again, so its indicator flips off only
/// once per arming.
pub proof fn lemma_fired_timer_is_gone(
    pre: TimerManager,
    post: TimerManager,
    now: int,
    name: Seq<char>,
)
    requires
        swept(pre, post, now),
        due(pre, name, now),
    ensures
        forall|later: int| !(#[trigger] due(post, name, later)),
{
    assert(swept_at(pre, post, now, name));
}

/// Under `wf`, entry `i` is the one `choose` picks for its name, so the
/// deadline read there is `deadline_of`.
proof fn lemma_deadline_at(t: TimerManager, i: int)
    requires
        t.wf(),
        0 <= i < t.entries@.len(),
    ensures
        has_timer(t, t.entries@[i].name@),
        deadline_of(t, t.entries@[i].name@) == t.entries@[i].deadline as int,
{
    let name = t.entries@[i].name@;
    assert(has_timer(t, name));
    let j = choose|j: int| 0 <= j < t.entries@.len() && #[trigger] t.entries@[j].name@ == name;
    if i < j {
        assert(t.entries@[i].name@ != t.entries@[j].name@);
    } else if j < i {
        assert(t.entries@[j].name@ != t.entries@[i].name@);
    }
}

/// Two managers whose entries carry the same names pending-agree on every
/// name.
proof fn lemma_same_names_same_timers(a: TimerManager, b: TimerManager, v: Seq<char>)
    requires
        a.entries@.len() == b.entries@.len(),
        forall|k: int|
            0 <= k < a.entries@.len() ==> (#[trigger] a.entries@[k].name@)
                == b.entries@[k].name@,
    ensures
        has_timer(a, v) == has_timer(b, v),
{
    if has_timer(a, v) {
        let j = choose|j: int| 0 <= j < a.entries@.len() && #[trigger] a.entries@[j].name@ == v;
        assert(b.entries@[j].name@ == v);
    }
    if has_timer(b, v) {
        let j = choose|j: int| 0 <= j < b.entries@.len() && #[trigger] b.entries@[j].name@ == v;
        assert(a.entries@[j].name@ == v);
    }
}

/// Same-named entry lists are equally well-formed.
proof fn lemma_entry_names_determine_wf(a: TimerManager, b: TimerManager)
    requires
        a.wf(),
        a.entries@.len() == b.entries@.len(),
        forall|k: int|
            0 <= k < a.entries@.len() ==> (#[trigger] a.entries@[k].name@)
                == b.entries@[k].name@,
    ensures
        b.wf(),
{
    assert forall|i: int, j: int| 0 <= i < j < b.entries@.len() implies (
    #[trigger] b.entries@[i].name@) != (#[trigger] b.entries@[j].name@) by {
        assert(a.entries@[i].name@ != a.entries@[j].name@);
    }
}

} // verus!
