//! The disposable in-memory mirror of the user's task list. It has no
//! independent lifecycle: after every mutation the whole mirror is replaced
//! from a fresh list fetch, never patched in place.

use crate::task::Task;
use crate::text::str_eq;
use vstd::pervasive::VecAdditionalExecFns;
use vstd::prelude::*;

verus! {

/// One task per id: what keying the mirror by task id keeps true.
pub open spec fn distinct_task_ids(s: Seq<Task>) -> bool {
    forall|i: int, j: int| 0 <= i < j < s.len() ==> s[i].id@ != s[j].id@
}

/// Index of the task with id `id`.
pub open spec fn task_index(s: Seq<Task>, id: Seq<char>) -> int {
    choose|k: int| 0 <= k < s.len() && s[k].id@ == id
}

/// Some task in `s` has id `id`.
pub open spec fn has_task(s: Seq<Task>, id: Seq<char>) -> bool {
    exists|k: int| 0 <= k < s.len() && s[k].id@ == id
}

/// What storing `t` into `s` keyed by id leaves: the entry with `t`'s id
/// replaced, or `t` appended when the id is new.
pub open spec fn stored(s: Seq<Task>, t: Task) -> Seq<Task> {
    if has_task(s, t.id@) {
        s.update(task_index(s, t.id@), t)
    } else {
        s.push(t)
    }
}

/// The in-memory task mirror, keyed by task id.
pub struct TaskCache {
    entries: Vec<Task>,
}

impl TaskCache {
    /// The mirror holds one task per id.
    pub closed spec fn wf(self) -> bool {
        distinct_task_ids(self.entries@)
    }

    /// The tasks the mirror holds.
    pub closed spec fn view(self) -> Seq<Task> {
        self.entries@
    }

    /// An empty mirror.
    pub fn new() -> (c: TaskCache)
        ensures
            c@ == Seq::<Task>::empty(),
            c.wf(),
    {
        TaskCache { entries: Vec::new() }
    }

    /// The task with id `id`, if the mirror holds one.
    pub fn get(&self, id: &str) -> (r: Option<&Task>)
        requires
            self.wf(),
        ensures
            match r {
                Option::Some(t) => has_task(self@, id@) && 0 <= task_index(self@, id@)
                    < self@.len() && *t == self@[task_index(self@, id@)] && t.id@ == id@,
                Option::None => !has_task(self@, id@),
            },
    {
        let n = self.entries.len();
        let mut i: usize = 0;
        while i < n
            invariant
                n == self.entries@.len(),
                distinct_task_ids(self.entries@),
                0 <= i <= n,
                forall|k: int| 0 <= k < i ==> (#[trigger] self.entries@[k]).id@ != id@,
            decreases n - i,
        {
            if str_eq(self.entries[i].id.as_str(), id) {
                proof {
                    assert(self@[i as int].id@ == id@);
                    assert(has_task(self@, id@));
                    let k0 = task_index(self@, id@);
                    assert(0 <= k0 < self@.len() && self@[k0].id@ == id@);
                    assert(k0 == i as int);
                }
                return Option::Some(&self.entries[i]);
            }
            i = i + 1;
        }
        Option::None
    }

    /// Store `task` under its id, replacing any task already there.
    pub fn insert(&mut self, task: Task)
        requires
            old(self).wf(),
        ensures
            final(self)@ == stored(old(self)@, task),
            final(self).wf(),
    {
        let n = self.entries.len();
        let mut i: usize = 0;
        while i < n
            invariant
                n == self.entries@.len(),
                self.entries@ == old(self).entries@,
                distinct_task_ids(self.entries@),
                0 <= i <= n,
                forall|k: int| 0 <= k < i ==> (#[trigger] self.entries@[k]).id@ != task.id@,
            decreases n - i,
        {
            if str_eq(self.entries[i].id.as_str(), task.id.as_str()) {
                proof {
                    assert(self@[i as int].id@ == task.id@);
                    assert(has_task(self@, task.id@));
                    let k0 = task_index(self@, task.id@);
                    assert(0 <= k0 < self@.len() && self@[k0].id@ == task.id@);
                    assert(k0 == i as int);
                }
                self.entries.set(i, task);
                return ;
            }
            i = i + 1;
        }
        proof {
            assert(!has_task(self@, task.id@));
        }
        self.entries.push(task);
    }

    /// Drop the task with id `id`, if the mirror holds one.
    pub fn remove(&mut self, id: &str)
        requires
            old(self).wf(),
        ensures
            has_task(old(self)@, id@) ==> final(self)@ == old(self)@.remove(
                task_index(old(self)@, id@),
            ),
            !has_task(old(self)@, id@) ==> final(self)@ == old(self)@,
            final(self).wf(),
    {
        let n = self.entries.len();
        let mut i: usize = 0;
        while i < n
            invariant
                n == self.entries@.len(),
                self.entries@ == old(self).entries@,
                distinct_task_ids(self.entries@),
                0 <= i <= n,
                forall|k: int| 0 <= k < i ==> (#[trigger] self.entries@[k]).id@ != id@,
            decreases n - i,
        {
            if str_eq(self.entries[i].id.as_str(), id) {
                proof {
                    assert(self@[i as int].id@ == id@);
                    assert(has_task(self@, id@));
                    let k0 = task_index(self@, id@);
                    assert(0 <= k0 < self@.len() && self@[k0].id@ == id@);
                    assert(k0 == i as int);
                }
                let ghost pre = self.entries@;
                self.entries.remove(i);
                proof {
                    pre.remove_ensures(i as int);
                    assert(distinct_task_ids(self.entries@)) by {
                        assert(forall|a: int|
                            0 <= a < i ==> (#[trigger] self.entries@[a]) == pre[a]);
                        assert(forall|a: int|
                            i <= a < self.entries@.len() ==> (#[trigger] self.entries@[a]) == pre[
                                a + 1
                            ]);
                    }
                }
                return ;
            }
            i = i + 1;
        }
        proof {
            assert(!has_task(self@, id@));
        }
    }

    /// Drop every task.
    pub fn clear(&mut self)
        ensures
            final(self)@ == Seq::<Task>::empty(),
            final(self).wf(),
    {
        self.entries.clear();
    }

    /// Replace the whole mirror with `tasks`, keyed by id: a later task
    /// with an id already seen replaces the earlier one.
    pub fn update_all(&mut self, mut tasks: Vec<Task>)
        ensures
            final(self)@ == tasks@.fold_left(
                Seq::<Task>::empty(),
                |acc: Seq<Task>, t: Task| stored(acc, t),
            ),
            final(self).wf(),
    {
        let ghost whole = tasks@;
        let ghost f = |acc: Seq<Task>, t: Task| stored(acc, t);
        let total = tasks.len();
        proof {
            assert(whole.len() == total as int);
        }
        self.entries.clear();
        let mut i: usize = 0;
        proof {
            assert(whole.take(0) =~= Seq::<Task>::empty());
        }
        while tasks.len() > 0
            invariant
                0 <= i <= whole.len(),
                whole.len() <= usize::MAX,
                tasks@ == whole.skip(i as int),
                self@ == whole.take(i as int).fold_left(Seq::<Task>::empty(), f),
                self.wf(),
                f == (|acc: Seq<Task>, t: Task| stored(acc, t)),
            decreases tasks@.len(),
    {
            let ghost pre = self@;
            let t = tasks.remove(0);
            proof {
                assert(t == whole[i as int]);
                assert(tasks@ =~= whole.skip(i + 1));
            }
            self.insert(t);
            proof {
                assert(whole.take(i + 1).drop_last() =~= whole.take(i as int));
                assert(whole.take(i + 1).last() == whole[i as int]);
                assert(self@ == f(pre, whole[i as int]));
            }
            i = i + 1;
        }
        proof {
            assert(whole.skip(i as int).len() == 0);
            assert(whole.take(i as int) =~= whole);
        }
    }
}

} // verus!
