//! A timer queue: values scheduled at millisecond deadlines, handed back in
//! deadline order once their deadline has passed.
//!
//! Time is a count of milliseconds. Each scheduled value gets a task id that
//! can cancel it; ids are handed out in increasing order starting at 1.
//! Values are kept in an ordered map under their (deadline, task id) key,
//! and each task id's deadline in a second map, which finds the key again
//! when a task is cancelled.
use std::collections::BTreeMap;
use std::collections::HashMap;
use vstd::prelude::*;
use vstd::std_specs::btree::{increasing_seq, key_obeys_cmp_spec, spec_btree_map_iter};
use vstd::std_specs::cmp::OrdSpec;
use vstd::std_specs::iter::IteratorSpec;

verus! {

broadcast use vstd::std_specs::btree::group_btree_axioms, vstd::laws_cmp::group_laws_cmp,
    vstd::std_specs::hash::group_hash_axioms;

/// One scheduled value.
pub struct TimerEntry<T> {
    pub task_id: u64,
    pub execute_at: u64,
    pub value: T,
}

/// `a` is due strictly before `b`: earlier deadline, or the same deadline and a
/// smaller task id.
pub open spec fn entry_before<T>(a: TimerEntry<T>, b: TimerEntry<T>) -> bool {
    a.execute_at < b.execute_at || (a.execute_at == b.execute_at && a.task_id < b.task_id)
}

/// The entries are in strictly increasing (deadline, task id) order.
pub open spec fn entries_sorted<T>(s: Seq<TimerEntry<T>>) -> bool {
    forall|i: int, j: int| 0 <= i < j < s.len() ==> entry_before(#[trigger] s[i], #[trigger] s[j])
}

/// No two entries share a task id.
pub open spec fn ids_unique<T>(s: Seq<TimerEntry<T>>) -> bool {
    forall|i: int, j: int|
        0 <= i < s.len() && 0 <= j < s.len() && i != j ==> #[trigger] s[i].task_id
            != #[trigger] s[j].task_id
}

/// Some entry carries the task id `id`.
pub open spec fn has_task<T>(s: Seq<TimerEntry<T>>, id: u64) -> bool {
    exists|i: int| 0 <= i < s.len() && #[trigger] s[i].task_id == id
}

/// The values of a run of entries, in order.
pub open spec fn entry_values<T>(s: Seq<TimerEntry<T>>) -> Seq<T> {
    s.map_values(|e: TimerEntry<T>| e.value)
}

/// `new` is `old` with the entry `value`, under task id `id`, inserted at some
/// position and due at or after `min_at`.
pub open spec fn timer_added<T>(old: Seq<TimerEntry<T>>, new: Seq<TimerEntry<T>>, id: u64, value: T, min_at: u64) -> bool {
    exists|i: int, at: u64|
        0 <= i <= old.len() && at >= min_at && new == old.insert(i, TimerEntry { task_id: id, execute_at: at, value })
}

/// `e` is one of the entries of `s`.
pub open spec fn in_entries<T>(s: Seq<TimerEntry<T>>, e: TimerEntry<T>) -> bool {
    exists|i: int| 0 <= i < s.len() && s[i] == e
}

/// Every entry of `old` whose task id is not in `protect` is still in `new`.
pub open spec fn keeps<T>(old: Seq<TimerEntry<T>>, new: Seq<TimerEntry<T>>, protect: Set<u64>) -> bool {
    forall|e: TimerEntry<T>| #[trigger] in_entries(old, e) && !protect.contains(e.task_id) ==> in_entries(new, e)
}

/// Every entry of `new` was in `old` or has a task id of at least `lo`.
pub open spec fn only_fresh<T>(old: Seq<TimerEntry<T>>, new: Seq<TimerEntry<T>>, lo: u64) -> bool {
    forall|e: TimerEntry<T>| #[trigger] in_entries(new, e) ==> in_entries(old, e) || e.task_id >= lo
}

/// An entry with task id `id`, value `value`, due at or after `min_at`, is pending.
pub open spec fn scheduled<T>(s: Seq<TimerEntry<T>>, id: u64, value: T, min_at: u64) -> bool {
    exists|i: int| 0 <= i < s.len() && s[i].task_id == id && s[i].value == value && s[i].execute_at >= min_at
}

/// Keeping is transitive, for a growing set of protected ids.
pub proof fn lemma_keeps_trans<T>(a: Seq<TimerEntry<T>>, b: Seq<TimerEntry<T>>, c: Seq<TimerEntry<T>>, p: Set<u64>, q: Set<u64>)
    requires
        keeps(a, b, p),
        keeps(b, c, q),
    ensures
        keeps(a, c, p.union(q)),
{
    assert forall|e: TimerEntry<T>| #[trigger] in_entries(a, e) && !p.union(q).contains(e.task_id) implies in_entries(c, e) by {
        assert(in_entries(b, e));
    }
}

/// Keeping holds for any larger set of protected ids.
pub proof fn lemma_keeps_weaken<T>(a: Seq<TimerEntry<T>>, b: Seq<TimerEntry<T>>, p: Set<u64>, q: Set<u64>)
    requires
        keeps(a, b, p),
        p.subset_of(q),
    ensures
        keeps(a, b, q),
{
}

/// Freshness is transitive, for a rising bound.
pub proof fn lemma_only_fresh_trans<T>(a: Seq<TimerEntry<T>>, b: Seq<TimerEntry<T>>, c: Seq<TimerEntry<T>>, lo1: u64, lo2: u64)
    requires
        only_fresh(a, b, lo1),
        only_fresh(b, c, lo2),
        lo1 <= lo2,
    ensures
        only_fresh(a, c, lo1),
{
    assert forall|e: TimerEntry<T>| #[trigger] in_entries(c, e) implies in_entries(a, e) || e.task_id >= lo1 by {
        if !(e.task_id >= lo2) {
            assert(in_entries(b, e));
        }
    }
}

/// A scheduled entry stays scheduled through a step that keeps it.
pub proof fn lemma_scheduled_kept<T>(b: Seq<TimerEntry<T>>, c: Seq<TimerEntry<T>>, q: Set<u64>, id: u64, value: T, min_at: u64)
    requires
        scheduled(b, id, value, min_at),
        keeps(b, c, q),
        !q.contains(id),
    ensures
        scheduled(c, id, value, min_at),
{
    let i = choose|i: int| 0 <= i < b.len() && b[i].task_id == id && b[i].value == value && b[i].execute_at >= min_at;
    assert(in_entries(b, b[i]));
    assert(in_entries(c, b[i]));
    let j = choose|j: int| 0 <= j < c.len() && c[j] == b[i];
    assert(c[j].task_id == id);
}

/// An id that is not pending stays so through a step that adds only ids at or
/// above a bound that the id is under.
pub proof fn lemma_absent_stays<T>(b: Seq<TimerEntry<T>>, c: Seq<TimerEntry<T>>, lo: u64, id: u64)
    requires
        !has_task(b, id),
        only_fresh(b, c, lo),
        id < lo,
    ensures
        !has_task(c, id),
{
    if has_task(c, id) {
        let j = choose|j: int| 0 <= j < c.len() && #[trigger] c[j].task_id == id;
        assert(in_entries(c, c[j]));
        assert(in_entries(b, c[j]));
        let i = choose|i: int| 0 <= i < b.len() && b[i] == c[j];
        assert(b[i].task_id == id);
    }
}

/// Inserting one entry keeps every entry and adds only that one.
pub proof fn lemma_insert_frame<T>(old: Seq<TimerEntry<T>>, i: int, e: TimerEntry<T>)
    requires
        0 <= i <= old.len(),
    ensures
        keeps(old, old.insert(i, e), Set::empty()),
        only_fresh(old, old.insert(i, e), e.task_id),
        scheduled(old.insert(i, e), e.task_id, e.value, e.execute_at),
{
    let new = old.insert(i, e);
    assert forall|x: TimerEntry<T>| #[trigger] in_entries(old, x) && !Set::<u64>::empty().contains(x.task_id) implies in_entries(new, x) by {
        let k = choose|k: int| 0 <= k < old.len() && old[k] == x;
        if k < i {
            assert(new[k] == x);
        } else {
            assert(new[k + 1] == x);
        }
    }
    assert forall|x: TimerEntry<T>| #[trigger] in_entries(new, x) implies in_entries(old, x) || x.task_id >= e.task_id by {
        let k = choose|k: int| 0 <= k < new.len() && new[k] == x;
        if k < i {
            assert(old[k] == x);
        } else if k > i {
            assert(old[k - 1] == x);
        }
    }
    assert(new[i] == e);
}

/// Removing the entry at `i` from entries with unique ids keeps every other
/// entry, adds none, and leaves its id no longer pending.
pub proof fn lemma_remove_frame<T>(old: Seq<TimerEntry<T>>, i: int)
    requires
        0 <= i < old.len(),
        ids_unique(old),
    ensures
        keeps(old, old.remove(i), set![old[i].task_id]),
        only_fresh(old, old.remove(i), u64::MAX),
        forall|e: TimerEntry<T>| #[trigger] in_entries(old.remove(i), e) ==> in_entries(old, e),
        !has_task(old.remove(i), old[i].task_id),
{
    let new = old.remove(i);
    assert forall|x: TimerEntry<T>| #[trigger] in_entries(old, x) && !set![old[i].task_id].contains(x.task_id) implies in_entries(new, x) by {
        let k = choose|k: int| 0 <= k < old.len() && old[k] == x;
        assert(k != i);
        if k < i {
            assert(new[k] == x);
        } else {
            assert(new[k - 1] == x);
        }
    }
    assert forall|x: TimerEntry<T>| #[trigger] in_entries(new, x) implies in_entries(old, x) by {
        let k = choose|k: int| 0 <= k < new.len() && new[k] == x;
        if k < i {
            assert(old[k] == x);
        } else {
            assert(old[k + 1] == x);
        }
    }
    if has_task(new, old[i].task_id) {
        let k = choose|k: int| 0 <= k < new.len() && #[trigger] new[k].task_id == old[i].task_id;
        if k < i {
            assert(new[k] == old[k]);
        } else {
            assert(new[k] == old[k + 1]);
        }
    }
}

/// `a` comes strictly before `b` in (deadline, task id) order.
pub open spec fn key_before(a: (u64, u64), b: (u64, u64)) -> bool {
    a.0 < b.0 || (a.0 == b.0 && a.1 < b.1)
}

/// The smallest key of `tasks` in (deadline, task id) order, if any.
fn first_key<T>(tasks: &BTreeMap<(u64, u64), T>) -> (r: Option<(u64, u64)>)
    ensures
        r is None ==> forall|k: (u64, u64)| !tasks@.contains_key(k),
        r matches Some(k) ==> tasks@.contains_key(k),
        r matches Some(k) ==> forall|k2: (u64, u64)|
            #[trigger] tasks@.contains_key(k2) && k2 != k ==> key_before(k, k2),
{
    let all = tasks.iter();
    let ghost v = all.remaining();
    proof {
        assert(key_obeys_cmp_spec::<(u64, u64)>());
    }
    let ghost keys = v.map_values(|kv: (&(u64, u64), &T)| *kv.0);
    assert(increasing_seq(keys));
    for kv in it: all
        invariant
            it.index() == 0,
            it.seq() == v,
            increasing_seq(keys),
            keys == v.map_values(|kv: (&(u64, u64), &T)| *kv.0),
            v == spec_btree_map_iter(tasks).remaining(),
    {
        let key = *kv.0;
        proof {
            assert(keys[0] == key);
            assert forall|k2: (u64, u64)| #[trigger] tasks@.contains_key(k2) && k2 != key implies key_before(key, k2) by {
                assert(v.contains((&k2, &tasks@[k2])));
                let j = choose|j: int| 0 <= j < v.len() && v[j] == (&k2, &tasks@[k2]);
                assert(keys[j] == k2);
                assert(j != 0);
                assert(keys[0].cmp_spec(&keys[j]) is Less);
            }
        }
        return Some(key);
    }
    proof {
        assert forall|k: (u64, u64)| !tasks@.contains_key(k) by {
            if tasks@.contains_key(k) {
                assert(v.contains((&k, &tasks@[k])));
            }
        }
    }
    None
}

/// The key under which an entry is kept: its deadline, then its task id.
pub open spec fn key_of<T>(e: TimerEntry<T>) -> (u64, u64) {
    (e.execute_at, e.task_id)
}

/// Where an entry with a fresh task id goes among sorted entries: after
/// every entry due before it and before every entry due after it.
proof fn lemma_insert_position<T>(s: Seq<TimerEntry<T>>, e: TimerEntry<T>) -> (pos: int)
    requires
        entries_sorted(s),
        forall|i: int| 0 <= i < s.len() ==> #[trigger] s[i].task_id < e.task_id,
    ensures
        0 <= pos <= s.len(),
        forall|j: int| 0 <= j < pos ==> entry_before(#[trigger] s[j], e),
        forall|j: int| pos <= j < s.len() ==> entry_before(e, #[trigger] s[j]),
    decreases s.len(),
{
    if s.len() == 0 {
        0
    } else {
        let last = s.len() - 1;
        assert(s[last].task_id < e.task_id);
        if entry_before(s[last], e) {
            assert forall|j: int| 0 <= j < s.len() implies entry_before(#[trigger] s[j], e) by {
                if j < last {
                    assert(entry_before(s[j], s[last]));
                }
            }
            s.len() as int
        } else {
            let rest = s.drop_last();
            assert forall|i: int| 0 <= i < rest.len() implies #[trigger] rest[i].task_id < e.task_id by {
                assert(rest[i] == s[i]);
            }
            let p = lemma_insert_position(rest, e);
            assert forall|j: int| 0 <= j < p implies entry_before(#[trigger] s[j], e) by {
                assert(rest[j] == s[j]);
            }
            assert forall|j: int| p <= j < s.len() implies entry_before(e, #[trigger] s[j]) by {
                if j < last {
                    assert(rest[j] == s[j]);
                }
            }
            p
        }
    }
}

/// The pending entries of a timer: each value under its (deadline, task id)
/// key, and the deadline of each task id.
pub struct TimerState<T> {
    tasks: BTreeMap<(u64, u64), T>,
    id_to_tasks: HashMap<u64, u64>,
    entries: Ghost<Seq<TimerEntry<T>>>,
}

impl<T> TimerState<T> {
    /// The pending entries, in due order.
    pub closed spec fn entries(&self) -> Seq<TimerEntry<T>> {
        self.entries@
    }

    /// The two maps hold exactly the entries: each entry's value under its
    /// key, and its deadline under its task id.
    pub closed spec fn inv(&self) -> bool {
        let s = self.entries@;
        &&& forall|i: int|
            0 <= i < s.len() ==> self.tasks@.contains_key(key_of(#[trigger] s[i])) && self.tasks@[key_of(s[i])]
                == s[i].value
        &&& forall|k: (u64, u64)| #[trigger]
            self.tasks@.contains_key(k) ==> exists|i: int| 0 <= i < s.len() && key_of(#[trigger] s[i]) == k
        &&& forall|i: int|
            0 <= i < s.len() ==> self.id_to_tasks@.contains_key((#[trigger] s[i]).task_id)
                && self.id_to_tasks@[s[i].task_id] == s[i].execute_at
        &&& forall|id: u64| #[trigger] self.id_to_tasks@.contains_key(id) ==> has_task(s, id)
        &&& self.tasks@.len() == s.len()
    }

    /// A state with no pending entry.
    pub fn new() -> (s: Self)
        ensures
            s.inv(),
            s.entries() == Seq::<TimerEntry<T>>::empty(),
    {
        TimerState { tasks: BTreeMap::new(), id_to_tasks: HashMap::new(), entries: Ghost(Seq::empty()) }
    }
}

/// Removing the first of sorted entries with unique ids from the maps that
/// hold them leaves maps that hold exactly the rest.
proof fn lemma_drop_first_inv<T>(
    s: Seq<TimerEntry<T>>,
    map0: Map<(u64, u64), T>,
    ids0: Map<u64, u64>,
    state: TimerState<T>,
)
    requires
        s.len() > 0,
        ids_unique(s),
        forall|i: int| 0 <= i < s.len() ==> map0.contains_key(key_of(#[trigger] s[i])) && map0[key_of(s[i])] == s[i].value,
        forall|k: (u64, u64)| #[trigger] map0.contains_key(k) ==> exists|i: int| 0 <= i < s.len() && key_of(#[trigger] s[i]) == k,
        forall|i: int| 0 <= i < s.len() ==> ids0.contains_key((#[trigger] s[i]).task_id) && ids0[s[i].task_id] == s[i].execute_at,
        forall|id: u64| #[trigger] ids0.contains_key(id) ==> has_task(s, id),
        map0.len() == s.len(),
        state.tasks@ == map0.remove(key_of(s[0])),
        state.id_to_tasks@ == ids0.remove(s[0].task_id),
        state.entries@ == s.drop_first(),
    ensures
        state.inv(),
{
    let e = s[0];
    let rest = s.drop_first();
    let m = state.tasks@;
    let ids = state.id_to_tasks@;
    assert forall|a: int| 0 <= a < rest.len() implies m.contains_key(key_of(#[trigger] rest[a]))
        && m[key_of(rest[a])] == rest[a].value && ids.contains_key(rest[a].task_id)
        && ids[rest[a].task_id] == rest[a].execute_at by {
        assert(rest[a] == s[a + 1]);
        assert(s[0].task_id != s[a + 1].task_id);
    }
    assert forall|k2: (u64, u64)| #[trigger] m.contains_key(k2) implies exists|a: int|
        0 <= a < rest.len() && key_of(#[trigger] rest[a]) == k2 by {
        assert(map0.contains_key(k2));
        let oa = choose|oa: int| 0 <= oa < s.len() && key_of(#[trigger] s[oa]) == k2;
        assert(oa != 0);
        assert(rest[oa - 1] == s[oa]);
    }
    assert forall|id: u64| #[trigger] ids.contains_key(id) implies has_task(rest, id) by {
        assert(ids0.contains_key(id));
        assert(has_task(s, id));
        let oa = choose|oa: int| 0 <= oa < s.len() && #[trigger] s[oa].task_id == id;
        assert(oa != 0) by {
            if oa == 0 {
                assert(s[0].task_id == e.task_id);
            }
        }
        assert(rest[oa - 1] == s[oa]);
        assert(rest[oa - 1].task_id == id);
    }
    assert(map0.contains_key(key_of(e)));
    assert(m.len() == rest.len());
}

/// A queue of values that become ready at their deadline.
pub struct Timer<T> {
    state: TimerState<T>,
    last_task_id: u64,
}

impl<T> Timer<T> {
    /// The pending entries, in due order.
    pub closed spec fn pending(&self) -> Seq<TimerEntry<T>> {
        self.state.entries()
    }

    /// The task id that the next scheduled value will get.
    pub closed spec fn next_id(&self) -> u64 {
        self.last_task_id
    }

    /// The timer's invariant: entries in due order, ids unique, every id
    /// already handed out below the next one, and the maps that hold them
    /// in step with them.
    pub open spec fn wf(&self) -> bool {
        &&& entries_sorted(self.pending())
        &&& ids_unique(self.pending())
        &&& 1 <= self.next_id()
        &&& forall|i: int| 0 <= i < self.pending().len() ==> #[trigger] self.pending()[i].task_id < self.next_id()
        &&& self.state_inv()
    }

    /// The maps of the timer hold exactly its pending entries.
    pub closed spec fn state_inv(&self) -> bool {
        self.state.inv()
    }

    /// An empty timer whose first task id is 1.
    pub fn new() -> (t: Self)
        ensures
            t.wf(),
            t.pending() == Seq::<TimerEntry<T>>::empty(),
            t.next_id() == 1,
    {
        Timer { state: TimerState::new(), last_task_id: 1 }
    }

    /// The number of pending entries.
    pub fn len(&self) -> (n: usize)
        requires
            self.wf(),
        ensures
            n == self.pending().len(),
    {
        self.state.tasks.len()
    }

    /// The task id that the next scheduled value will get.
    pub fn next_task_id(&self) -> (n: u64)
        ensures
            n == self.next_id(),
    {
        self.last_task_id
    }

    /// Schedules `value` at `execute_at` and returns its task id, which is the
    /// next id; the entry takes its place in due order.
    pub fn timeout_at(&mut self, execute_at: u64, value: T) -> (task_id: u64)
        requires
            old(self).wf(),
            old(self).next_id() < u64::MAX,
        ensures
            final(self).wf(),
            task_id == old(self).next_id(),
            final(self).next_id() == old(self).next_id() + 1,
            exists|i: int|
                0 <= i <= old(self).pending().len() && final(self).pending() == old(
                    self,
                ).pending().insert(i, TimerEntry { task_id, execute_at, value }),
    {
        let task_id = self.last_task_id;
        let ghost old_tasks = self.state.entries@;
        let ghost entry = TimerEntry { task_id, execute_at, value };
        let ghost old_map = self.state.tasks@;
        let ghost old_ids = self.state.id_to_tasks@;
        let ghost pos = lemma_insert_position(old_tasks, entry);
        proof {
            assert(!old_map.contains_key(key_of(entry))) by {
                if old_map.contains_key(key_of(entry)) {
                    let i = choose|i: int| 0 <= i < old_tasks.len() && key_of(#[trigger] old_tasks[i]) == key_of(entry);
                    assert(old_tasks[i].task_id < task_id);
                }
            }
            assert(!old_ids.contains_key(task_id)) by {
                if old_ids.contains_key(task_id) {
                    assert(has_task(old_tasks, task_id));
                    let i = choose|i: int| 0 <= i < old_tasks.len() && #[trigger] old_tasks[i].task_id == task_id;
                    assert(old_tasks[i].task_id < task_id);
                }
            }
        }
        self.state.tasks.insert((execute_at, task_id), value);
        self.state.id_to_tasks.insert(task_id, execute_at);
        proof {
            self.state.entries@ = old_tasks.insert(pos, entry);
        }
        self.last_task_id = self.last_task_id + 1;
        proof {
            let s = self.state.entries@;
            assert(s == old_tasks.insert(pos as int, entry));
            assert forall|i: int, j: int| 0 <= i < j < s.len() implies entry_before(
                #[trigger] s[i],
                #[trigger] s[j],
            ) by {
                if j < pos {
                } else if j == pos {
                } else if i < pos {
                    assert(entry_before(s[i], entry));
                    assert(entry_before(entry, s[j]));
                } else if i == pos {
                } else {
                    assert(s[i] == old_tasks[i - 1]);
                    assert(s[j] == old_tasks[j - 1]);
                }
            }
            assert forall|i: int, j: int|
                0 <= i < s.len() && 0 <= j < s.len() && i != j implies #[trigger] s[i].task_id
                != #[trigger] s[j].task_id by {
                if i < j {
                    assert(entry_before(s[i], s[j]));
                } else {
                    assert(entry_before(s[j], s[i]));
                }
                if i != pos as int && j != pos as int {
                    let oi = if i < pos { i } else { i - 1 };
                    let oj = if j < pos { j } else { j - 1 };
                    assert(s[i] == old_tasks[oi]);
                    assert(s[j] == old_tasks[oj]);
                }
            }
            assert forall|i: int| 0 <= i < s.len() implies #[trigger] s[i].task_id
                < self.last_task_id by {
                if i < pos {
                    assert(s[i] == old_tasks[i]);
                } else if i > pos {
                    assert(s[i] == old_tasks[i - 1]);
                }
            }
            let m = self.state.tasks@;
            let ids = self.state.id_to_tasks@;
            assert(m == old_map.insert(key_of(entry), entry.value));
            assert(ids == old_ids.insert(task_id, execute_at));
            assert forall|i: int| 0 <= i < s.len() implies m.contains_key(key_of(#[trigger] s[i])) && m[key_of(s[i])]
                == s[i].value && ids.contains_key(s[i].task_id) && ids[s[i].task_id] == s[i].execute_at by {
                if i != pos {
                    let oi = if i < pos { i } else { i - 1 };
                    assert(s[i] == old_tasks[oi]);
                    assert(old_tasks[oi].task_id < task_id);
                }
            }
            assert forall|k: (u64, u64)| #[trigger] m.contains_key(k) implies exists|i: int|
                0 <= i < s.len() && key_of(#[trigger] s[i]) == k by {
                if k == key_of(entry) {
                    assert(key_of(s[pos]) == k);
                } else {
                    assert(old_map.contains_key(k));
                    let oi = choose|oi: int| 0 <= oi < old_tasks.len() && key_of(#[trigger] old_tasks[oi]) == k;
                    let i = if oi < pos { oi } else { oi + 1 };
                    assert(s[i] == old_tasks[oi]);
                    assert(key_of(s[i]) == k);
                }
            }
            assert forall|id: u64| #[trigger] ids.contains_key(id) implies has_task(s, id) by {
                if id == task_id {
                    assert(s[pos as int].task_id == id);
                } else {
                    assert(old_ids.contains_key(id));
                    assert(has_task(old_tasks, id));
                    let oi = choose|oi: int| 0 <= oi < old_tasks.len() && #[trigger] old_tasks[oi].task_id == id;
                    let i = if oi < pos { oi } else { oi + 1 };
                    assert(s[i] == old_tasks[oi]);
                    assert(s[i].task_id == id);
                }
            }
            assert(m.len() == s.len());
        }
        task_id
    }

    /// Schedules `value` `duration` milliseconds from now (saturating at the
    /// largest time) and returns its task id.
    pub fn timeout(&mut self, duration: u64, value: T) -> (task_id: u64)
        requires
            old(self).wf(),
            old(self).next_id() < u64::MAX,
        ensures
            final(self).wf(),
            task_id == old(self).next_id(),
            final(self).next_id() == old(self).next_id() + 1,
            timer_added(old(self).pending(), final(self).pending(), task_id, value, duration),
    {
        let now = now_millis();
        let at = now.saturating_add(duration);
        self.timeout_at(at, value)
    }

    /// Cancels the task `task_id`: hands back its value and removes it when it
    /// is pending, and changes nothing when it is not.
    pub fn cancel(&mut self, task_id: u64) -> (removed: Option<T>)
        requires
            old(self).wf(),
        ensures
            final(self).wf(),
            final(self).next_id() == old(self).next_id(),
            removed is Some <==> has_task(old(self).pending(), task_id),
            removed is None ==> final(self).pending() == old(self).pending(),
            removed is Some ==> exists|i: int|
                0 <= i < old(self).pending().len() && old(self).pending()[i].task_id == task_id
                    && removed == Some(old(self).pending()[i].value) && final(self).pending()
                    == old(self).pending().remove(i),
    {
        let ghost s0 = self.state.entries@;
        let ghost ids0 = self.state.id_to_tasks@;
        let execute_at = match self.state.id_to_tasks.remove(&task_id) {
            Some(at) => at,
            None => {
                proof {
                    assert(self.state.id_to_tasks@ =~= ids0);
                    if has_task(s0, task_id) {
                        let i = choose|i: int| 0 <= i < s0.len() && #[trigger] s0[i].task_id == task_id;
                        assert(ids0.contains_key(s0[i].task_id));
                    }
                }
                return None;
            },
        };
        let ghost i = choose|i: int| 0 <= i < s0.len() && #[trigger] s0[i].task_id == task_id;
        proof {
            assert(ids0.contains_key(task_id));
            assert(has_task(s0, task_id));
            assert(s0[i].task_id == task_id);
            assert(execute_at == s0[i].execute_at);
            assert(key_of(s0[i]) == (execute_at, task_id));
        }
        let ghost map0 = self.state.tasks@;
        let removed = self.state.tasks.remove(&(execute_at, task_id));
        proof {
            let s = s0.remove(i);
            self.state.entries@ = s;
            let m = self.state.tasks@;
            let ids = self.state.id_to_tasks@;
            assert(m == map0.remove(key_of(s0[i])));
            assert(ids == ids0.remove(task_id));
            assert(removed == Some(s0[i].value));
            assert forall|a: int, b: int| 0 <= a < b < s.len() implies entry_before(
                #[trigger] s[a],
                #[trigger] s[b],
            ) by {
                let oa = if a < i { a } else { a + 1 };
                let ob = if b < i { b } else { b + 1 };
                assert(s[a] == s0[oa]);
                assert(s[b] == s0[ob]);
            }
            assert forall|a: int, b: int|
                0 <= a < s.len() && 0 <= b < s.len() && a != b implies #[trigger] s[a].task_id
                != #[trigger] s[b].task_id by {
                let oa = if a < i { a } else { a + 1 };
                let ob = if b < i { b } else { b + 1 };
                assert(s[a] == s0[oa]);
                assert(s[b] == s0[ob]);
            }
            assert forall|a: int| 0 <= a < s.len() implies #[trigger] s[a].task_id
                < self.last_task_id by {
                let oa = if a < i { a } else { a + 1 };
                assert(s[a] == s0[oa]);
            }
            assert forall|a: int| 0 <= a < s.len() implies m.contains_key(key_of(#[trigger] s[a])) && m[key_of(s[a])]
                == s[a].value && ids.contains_key(s[a].task_id) && ids[s[a].task_id] == s[a].execute_at by {
                let oa = if a < i { a } else { a + 1 };
                assert(s[a] == s0[oa]);
                assert(s0[oa].task_id != s0[i].task_id);
            }
            assert forall|k: (u64, u64)| #[trigger] m.contains_key(k) implies exists|a: int|
                0 <= a < s.len() && key_of(#[trigger] s[a]) == k by {
                assert(map0.contains_key(k));
                let oa = choose|oa: int| 0 <= oa < s0.len() && key_of(#[trigger] s0[oa]) == k;
                assert(oa != i);
                let a = if oa < i { oa } else { oa - 1 };
                assert(s[a] == s0[oa]);
            }
            assert forall|id: u64| #[trigger] ids.contains_key(id) implies has_task(s, id) by {
                assert(ids0.contains_key(id));
                assert(has_task(s0, id));
                let oa = choose|oa: int| 0 <= oa < s0.len() && #[trigger] s0[oa].task_id == id;
                assert(oa != i);
                let a = if oa < i { oa } else { oa - 1 };
                assert(s[a] == s0[oa]);
                assert(s[a].task_id == id);
            }
            assert(m.len() == s.len());
        }
        removed
    }

    /// Removes and returns, in due order, the values whose deadline is at or
    /// before `now`; the entries left are all due after `now`.
    pub fn poll(&mut self, now: u64) -> (ready: Vec<T>)
        requires
            old(self).wf(),
        ensures
            final(self).wf(),
            final(self).next_id() == old(self).next_id(),
            ({
                let k = old(self).pending().len() - final(self).pending().len();
                &&& 0 <= k <= old(self).pending().len()
                &&& final(self).pending() == old(self).pending().skip(k)
                &&& ready@ == entry_values(old(self).pending().take(k))
                &&& forall|i: int| 0 <= i < k ==> #[trigger] old(self).pending()[i].execute_at <= now
            }),
            forall|i: int|
                0 <= i < final(self).pending().len() ==> #[trigger] final(self).pending()[i].execute_at
                    > now,
    {
        let ready = Self::collect_ready(&mut self.state, now);
        proof {
            let s = self.state.entries@;
            let k = old(self).pending().len() - s.len();
            assert forall|a: int| 0 <= a < s.len() implies #[trigger] s[a].task_id < self.last_task_id by {
                assert(s[a] == old(self).pending()[a + k]);
            }
        }
        ready
    }

    /// The first of the sorted entries `s`, held in `state`, is the one
    /// under the smallest key `key` of its map.
    proof fn lemma_first_key_is_first(state: &TimerState<T>, key: (u64, u64))
        requires
            state.inv(),
            entries_sorted(state.entries()),
            state.tasks@.contains_key(key),
            forall|k2: (u64, u64)| #[trigger] state.tasks@.contains_key(k2) && k2 != key ==> key_before(key, k2),
        ensures
            state.entries().len() > 0,
            key_of(state.entries()[0]) == key,
    {
        let s = state.entries@;
        let i = choose|i: int| 0 <= i < s.len() && key_of(#[trigger] s[i]) == key;
        if i != 0 {
            assert(entry_before(s[0], s[i]));
            assert(state.tasks@.contains_key(key_of(s[0])));
        }
    }

    /// Removes the leading entries due at or before `now` from `state` and
    /// returns their values in order.
    fn collect_ready(state: &mut TimerState<T>, now: u64) -> (ready: Vec<T>)
        requires
            old(state).inv(),
            entries_sorted(old(state).entries()),
            ids_unique(old(state).entries()),
        ensures
            final(state).inv(),
            entries_sorted(final(state).entries()),
            ids_unique(final(state).entries()),
            ({
                let k = old(state).entries().len() - final(state).entries().len();
                &&& 0 <= k <= old(state).entries().len()
                &&& final(state).entries() == old(state).entries().skip(k)
                &&& ready@ == entry_values(old(state).entries().take(k))
                &&& forall|i: int| 0 <= i < k ==> #[trigger] old(state).entries()[i].execute_at <= now
            }),
            forall|i: int|
                0 <= i < final(state).entries().len() ==> #[trigger] final(state).entries()[i].execute_at
                    > now,
    {
        let ghost s0 = state.entries@;
        let ghost mut k: int = 0;
        let mut ready: Vec<T> = Vec::new();
        assert(s0.skip(0) =~= s0);
        assert(s0.take(0) =~= Seq::<TimerEntry<T>>::empty());
        loop
            invariant
                state.inv(),
                0 <= k <= s0.len(),
                state.entries@ == s0.skip(k),
                entries_sorted(s0),
                ids_unique(s0),
                ready@ == entry_values(s0.take(k)),
                forall|i: int| 0 <= i < k ==> #[trigger] s0[i].execute_at <= now,
            ensures
                state.inv(),
                0 <= k <= s0.len(),
                state.entries@ == s0.skip(k),
                ready@ == entry_values(s0.take(k)),
                forall|i: int| 0 <= i < k ==> #[trigger] s0[i].execute_at <= now,
                forall|i: int| 0 <= i < state.entries@.len() ==> #[trigger] state.entries@[i].execute_at > now,
            decreases s0.len() - k,
        {
            let ghost s = state.entries@;
            proof {
                assert forall|a: int, b: int| 0 <= a < b < s.len() implies entry_before(#[trigger] s[a], #[trigger] s[b]) by {
                    assert(s[a] == s0[a + k]);
                    assert(s[b] == s0[b + k]);
                }
                assert forall|a: int, b: int|
                    0 <= a < s.len() && 0 <= b < s.len() && a != b implies #[trigger] s[a].task_id
                    != #[trigger] s[b].task_id by {
                    assert(s[a] == s0[a + k]);
                    assert(s[b] == s0[b + k]);
                }
            }
            let first = first_key(&state.tasks);
            let key = match first {
                Some(key) => key,
                None => {
                    proof {
                        if s.len() > 0 {
                            assert(state.tasks@.contains_key(key_of(s[0])));
                        }
                    }
                    break;
                },
            };
            proof {
                Self::lemma_first_key_is_first(state, key);
            }
            if key.0 > now {
                proof {
                    assert forall|i: int| 0 <= i < s.len() implies #[trigger] s[i].execute_at > now by {
                        if i > 0 {
                            assert(entry_before(s[0], s[i]));
                        }
                    }
                }
                break;
            }
            let ghost map0 = state.tasks@;
            let ghost ids0 = state.id_to_tasks@;
            let removed = state.tasks.remove(&key);
            state.id_to_tasks.remove(&key.1);
            proof {
                assert(removed == Some(s[0].value));
                assert(s[0] == s0[k]);
            }
            match removed {
                Some(v) => ready.push(v),
                None => {},
            }
            state.entries = Ghost(s.drop_first());
            proof {
                assert(state.tasks@ == map0.remove(key_of(s[0])));
                assert(state.id_to_tasks@ == ids0.remove(s[0].task_id));
                lemma_drop_first_inv(s, map0, ids0, *state);
                assert(s.drop_first() == s0.skip(k + 1));
                assert(s0.take(k + 1) == s0.take(k).push(s0[k]));
                k = k + 1;
            }
        }
        proof {
            let s = state.entries@;
            assert forall|a: int, b: int| 0 <= a < b < s.len() implies entry_before(#[trigger] s[a], #[trigger] s[b]) by {
                assert(s[a] == s0[a + k]);
                assert(s[b] == s0[b + k]);
            }
            assert forall|a: int, b: int|
                0 <= a < s.len() && 0 <= b < s.len() && a != b implies #[trigger] s[a].task_id
                != #[trigger] s[b].task_id by {
                assert(s[a] == s0[a + k]);
                assert(s[b] == s0[b + k]);
            }
        }
        ready
    }

    /// The earliest pending deadline, if any entry is pending.
    pub fn next_deadline(&self) -> (deadline: Option<u64>)
        requires
            self.wf(),
        ensures
            deadline is None <==> self.pending().len() == 0,
            deadline is Some ==> deadline == Some(self.pending()[0].execute_at),
            deadline is Some ==> forall|i: int|
                0 <= i < self.pending().len() ==> deadline.unwrap() <= #[trigger] self.pending()[i].execute_at,
    {
        match first_key(&self.state.tasks) {
            None => {
                proof {
                    if self.pending().len() > 0 {
                        assert(self.state.tasks@.contains_key(key_of(self.pending()[0])));
                    }
                }
                None
            },
            Some(key) => {
                proof {
                    Self::lemma_first_key_is_first(&self.state, key);
                    assert forall|i: int| 0 <= i < self.pending().len() implies self.pending()[0].execute_at
                        <= #[trigger] self.pending()[i].execute_at by {
                        if i > 0 {
                            assert(entry_before(self.pending()[0], self.pending()[i]));
                        }
                    }
                }
                Some(key.0)
            },
        }
    }
}

/// Cancelling a task right after scheduling it undoes the scheduling: the
/// cancel hands back the scheduled value and the pending entries are those
/// from before. (`scheduled_at` and `cancelled_to` are what `timeout_at` and
/// `cancel` ensure.)
pub proof fn lemma_cancel_undoes_schedule<T>(
    t0: Timer<T>,
    t1: Timer<T>,
    t2: Timer<T>,
    at: u64,
    value: T,
    removed: Option<T>,
)
    requires
        t0.wf(),
        t1.wf(),
        exists|i: int|
            0 <= i <= t0.pending().len() && t1.pending() == t0.pending().insert(
                i,
                TimerEntry { task_id: t0.next_id(), execute_at: at, value },
            ),
        removed is Some <==> has_task(t1.pending(), t0.next_id()),
        removed is Some ==> exists|i: int|
            0 <= i < t1.pending().len() && t1.pending()[i].task_id == t0.next_id() && removed == Some(
                t1.pending()[i].value,
            ) && t2.pending() == t1.pending().remove(i),
    ensures
        removed == Some(value),
        t2.pending() == t0.pending(),
{
    let id = t0.next_id();
    let e = TimerEntry { task_id: id, execute_at: at, value };
    let i = choose|i: int| 0 <= i <= t0.pending().len() && t1.pending() == t0.pending().insert(i, e);
    assert(t1.pending()[i] == e);
    assert(t1.pending()[i].task_id == id);
    assert(has_task(t1.pending(), id));
    let j = choose|j: int|
        0 <= j < t1.pending().len() && t1.pending()[j].task_id == id && removed == Some(t1.pending()[j].value)
            && t2.pending() == t1.pending().remove(j);
    assert(j == i) by {
        if j != i {
            assert(t1.pending()[j].task_id != t1.pending()[i].task_id);
        }
    }
    assert(t1.pending().remove(i) =~= t0.pending());
}

/// Scheduling keeps every pending entry and makes the earliest deadline the
/// smaller of the new deadline and the earliest one before: `t1` is `t0`
/// after `timeout_at(at, value)` (what `timeout_at` ensures), so it holds
/// one entry more, and its first entry is due at `at` or at the old first
/// deadline, whichever is earlier. Entries due at the same time are all
/// kept.
pub proof fn lemma_schedule_sets_next_deadline<T>(t0: Timer<T>, t1: Timer<T>, at: u64, value: T)
    requires
        t0.wf(),
        t1.wf(),
        exists|i: int|
            0 <= i <= t0.pending().len() && t1.pending() == t0.pending().insert(
                i,
                TimerEntry { task_id: t0.next_id(), execute_at: at, value },
            ),
    ensures
        t1.pending().len() == t0.pending().len() + 1,
        t1.pending()[0].execute_at == if t0.pending().len() == 0 || at <= t0.pending()[0].execute_at {
            at
        } else {
            t0.pending()[0].execute_at
        },
{
    let e = TimerEntry { task_id: t0.next_id(), execute_at: at, value };
    let i = choose|i: int| 0 <= i <= t0.pending().len() && t1.pending() == t0.pending().insert(i, e);
    assert(t1.pending()[i] == e);
    if i == 0 {
        if t0.pending().len() > 0 {
            assert(t1.pending()[1] == t0.pending()[0]);
            assert(entry_before(t1.pending()[0], t1.pending()[1]));
        }
    } else {
        assert(t1.pending()[0] == t0.pending()[0]);
        assert(entry_before(t1.pending()[0], t1.pending()[i]));
        assert(t0.pending()[0].task_id < t0.next_id());
    }
}

/// Task ids strictly increase over the life of a timer. `ts` are the states
/// of one timer after each call (every call keeps or raises the next id, as
/// `timeout_at`, `timeout`, `cancel` and `poll` ensure); the call made in
/// state `j` scheduled a task, so it returned `ts[j].next_id()` and raised
/// the next id by one. Any task scheduled in a later state `k` gets a larger
/// id, and every task pending when the call in state `j` was made has a
/// smaller one.
pub proof fn lemma_task_ids_increase<T>(ts: Seq<Timer<T>>, j: int, k: int)
    requires
        0 <= j < k < ts.len(),
        forall|i: int| 0 <= i < ts.len() - 1 ==> ts[i].next_id() <= #[trigger] ts[i + 1].next_id(),
        ts[j + 1].next_id() == ts[j].next_id() + 1,
        ts[j].wf(),
    ensures
        ts[j].next_id() < ts[k].next_id(),
        forall|i: int| 0 <= i < ts[j].pending().len() ==> #[trigger] ts[j].pending()[i].task_id < ts[j].next_id(),
    decreases k - j,
{
    if k > j + 1 {
        lemma_next_id_grows(ts, j + 1, k);
    }
}

/// The next id never decreases along a run of states that each keep or
/// raise it.
proof fn lemma_next_id_grows<T>(ts: Seq<Timer<T>>, a: int, b: int)
    requires
        0 <= a <= b < ts.len(),
        forall|i: int| 0 <= i < ts.len() - 1 ==> ts[i].next_id() <= #[trigger] ts[i + 1].next_id(),
    ensures
        ts[a].next_id() <= ts[b].next_id(),
    decreases b - a,
{
    if a < b {
        lemma_next_id_grows(ts, a + 1, b);
        assert(ts[a].next_id() <= ts[a + 1].next_id());
    }
}

/// Every value whose deadline has passed comes out of a poll: an entry due
/// at or before `now` is among the entries a poll at `now` hands back (the
/// first `k`, as `poll` ensures).
pub proof fn lemma_poll_returns_due<T>(t0: Timer<T>, t1: Timer<T>, now: u64, e: TimerEntry<T>)
    requires
        t0.wf(),
        in_entries(t0.pending(), e),
        e.execute_at <= now,
        t1.pending().len() <= t0.pending().len(),
        t1.pending() == t0.pending().skip(t0.pending().len() - t1.pending().len()),
        forall|i: int| 0 <= i < t1.pending().len() ==> #[trigger] t1.pending()[i].execute_at > now,
    ensures
        exists|j: int|
            0 <= j < t0.pending().len() - t1.pending().len() && #[trigger] t0.pending()[j] == e,
        !in_entries(t1.pending(), e),
{
    let k = t0.pending().len() - t1.pending().len();
    let m = choose|m: int| 0 <= m < t0.pending().len() && t0.pending()[m] == e;
    if m >= k {
        assert(t1.pending()[m - k] == e);
    }
    assert(t0.pending()[m] == e);
    if in_entries(t1.pending(), e) {
        let x = choose|x: int| 0 <= x < t1.pending().len() && t1.pending()[x] == e;
        assert(t1.pending()[x].execute_at > now);
    }
}

/// Reads the wall clock, in milliseconds since the Unix epoch, through
/// `std::time::SystemTime::now`. Nothing is stated of the value: it depends on
/// the time at which it is called.
#[verifier::external_body]
pub(crate) fn now_millis() -> u64 {
    match std::time::SystemTime::now().duration_since(std::time::UNIX_EPOCH) {
        Ok(d) => d.as_millis() as u64,
        Err(_) => 0,
    }
}

} // verus!
