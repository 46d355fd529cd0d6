//! The synchronization coordinator. Every user action runs the same
//! round: Idle, a mutation against the remote store, a full list refetch,
//! Idle again — the mirror is only ever replaced wholesale after a
//! successful refetch, so reads see writes exactly when the round
//! completes. The reorder sub-protocol and the colon-command decisions live
//! here too; a caller carries the planned requests out.

use crate::cache::{stored, TaskCache};
use crate::task::Task;
use crate::text::{
    join_spaces, join_with_spaces, split_ws, split_ws_text, str_eq, views_of,
};
use vstd::prelude::*;
use vstd::string::*;

verus! {

/// A user row of the account table.
#[derive(Clone, Debug)]
pub struct User {
    pub id: String,
    pub username: String,
    pub password_hash: String,
    pub email: String,
    pub created_at: String,
}

/// The two fields a login form hands over.
#[derive(Clone, Debug)]
pub struct LoginRequest {
    pub username: String,
    pub password: String,
}

/// Where a round stands.
#[derive(Clone, Copy, Debug, PartialEq, Eq, Structural)]
pub enum SyncPhase {
    /// Between rounds.
    Idle,
    /// A mutation is on its way to the remote store.
    Mutating,
    /// The mutation is done; the full list refetch is under way.
    Refreshing,
}

/// Drives one round per user action and owns the task mirror.
pub struct SyncCoordinator {
    pub phase: SyncPhase,
    pub cache: TaskCache,
}

impl SyncCoordinator {
    /// The mirror keeps one task per id.
    pub open spec fn wf(self) -> bool {
        self.cache.wf()
    }

    /// A coordinator between rounds, with an empty mirror.
    pub fn new() -> (c: SyncCoordinator)
        ensures
            c.phase == SyncPhase::Idle,
            c.cache@ == Seq::<Task>::empty(),
            c.wf(),
    {
        SyncCoordinator { phase: SyncPhase::Idle, cache: TaskCache::new() }
    }

    /// A mutation leaves for the remote store. The mirror is untouched:
    /// there is no optimistic local update.
    pub fn begin_mutation(&mut self)
        requires
            old(self).phase == SyncPhase::Idle,
        ensures
            final(self).phase == SyncPhase::Mutating,
            final(self).cache == old(self).cache,
    {
        self.phase = SyncPhase::Mutating;
    }

    /// A read-only round: nothing to write, straight to the refetch that
    /// will replace the mirror.
    pub fn begin_refresh(&mut self)
        requires
            old(self).phase == SyncPhase::Idle,
        ensures
            final(self).phase == SyncPhase::Refreshing,
            final(self).cache == old(self).cache,
    {
        self.phase = SyncPhase::Refreshing;
    }

    /// The mutation came back. On success the round continues with the
    /// refetch; on failure it ends, the mirror still untouched, and the
    /// caller surfaces a status message.
    pub fn mutation_done(&mut self, success: bool)
        requires
            old(self).phase == SyncPhase::Mutating,
        ensures
            final(self).phase == (if success {
                SyncPhase::Refreshing
            } else {
                SyncPhase::Idle
            }),
            final(self).cache == old(self).cache,
    {
        if success {
            self.phase = SyncPhase::Refreshing;
        } else {
            self.phase = SyncPhase::Idle;
        }
    }

    /// The refetched list arrived: the mirror is replaced wholesale, and
    /// only now does the round's mutation become visible.
    pub fn refresh_done(&mut self, tasks: Vec<Task>)
        requires
            old(self).phase == SyncPhase::Refreshing,
        ensures
            final(self).phase == SyncPhase::Idle,
            final(self).cache@ == tasks@.fold_left(
                Seq::<Task>::empty(),
                |acc: Seq<Task>, t: Task| stored(acc, t),
            ),
            final(self).wf(),
    {
        self.cache.update_all(tasks);
        self.phase = SyncPhase::Idle;
    }

    /// The refetch failed: the round ends with the mirror as it was.
    pub fn refresh_failed(&mut self)
        requires
            old(self).phase == SyncPhase::Refreshing,
        ensures
            final(self).phase == SyncPhase::Idle,
            final(self).cache == old(self).cache,
    {
        self.phase = SyncPhase::Idle;
    }
}

/// `t` carrying position `p`.
pub open spec fn at_position(t: Task, p: i32) -> Task {
    Task { position: p, ..t }
}

/// The display list after the record at `from` moves to `to`, before any
/// position is rewritten.
pub open spec fn moved(s: Seq<Task>, from: int, to: int) -> Seq<Task> {
    s.remove(from).insert(to, s[from])
}

/// The records the reorder submits: the contiguous range between `from`
/// and `to` of the moved list, each carrying its index as its position, in
/// ascending target-position order.
pub open spec fn reorder_submission(s: Seq<Task>, from: int, to: int) -> Seq<Task> {
    let lo = if from <= to {
        from
    } else {
        to
    };
    let hi = if from <= to {
        to
    } else {
        from
    };
    Seq::new((hi + 1 - lo) as nat, |k: int| at_position(moved(s, from, to)[lo + k], (lo + k) as i32))
}

/// Plan a reorder: move the record at `from` to `to`, recompute the
/// position of every record in the contiguous range between them, and hand
/// back those records in ascending target-position order, ready to submit.
pub fn plan_reorder(mut tasks: Vec<Task>, from: usize, to: usize) -> (r: Vec<Task>)
    requires
        from < tasks@.len(),
        to < tasks@.len(),
        tasks@.len() <= 0x7fffffff,
    ensures
        r@ == reorder_submission(tasks@, from as int, to as int),
{
    let ghost orig = tasks@;
    let lo = if from <= to {
        from
    } else {
        to
    };
    let hi = if from <= to {
        to
    } else {
        from
    };
    let x = tasks.remove(from);
    tasks.insert(to, x);
    proof {
        assert(tasks@ == moved(orig, from as int, to as int));
    }
    let ghost shifted = tasks@;
    let ghost target = reorder_submission(orig, from as int, to as int);
    let mut out: Vec<Task> = Vec::new();
    let mut i: usize = lo;
    while i <= hi
        invariant
            lo <= i <= hi + 1,
            hi < shifted.len(),
            shifted.len() <= 0x7fffffff,
            target.len() == hi + 1 - lo,
            forall|k: int|
                0 <= k < target.len() ==> target[k] == at_position(
                    shifted[lo + k],
                    (lo + k) as i32,
                ),
            tasks@ == shifted.take(lo as int) + shifted.skip(i as int),
            out@ =~= target.take(i - lo),
        decreases hi + 1 - i,
    {
        let mut t = tasks.remove(lo);
        proof {
            assert((shifted.take(lo as int) + shifted.skip(i as int))[lo as int] == shifted[
                i as int
            ]);
            assert(tasks@ =~= shifted.take(lo as int) + shifted.skip(i + 1));
        }
        t.position = i as i32;
        out.push(t);
        proof {
            assert(out@.last() == at_position(shifted[i as int], i as i32));
            assert(out@ =~= target.take(i + 1 - lo));
        }
        i = i + 1;
    }
    proof {
        assert(target.take(hi + 1 - lo) =~= target);
    }
    out
}

/// What the colon command line asks for.
#[derive(Debug)]
pub enum UserCommand {
    /// Add a task described by the given free text.
    Add(String),
    /// Mark the selected task done.
    Done,
    /// Refetch the task list.
    Sync,
    /// Leave the program.
    Quit,
    /// Show where the configuration lives.
    ShowConfig,
    /// Bind an action to a key.
    SetKey(String, String),
    /// Nothing to do: an empty line, or a command this program does not
    /// know.
    Nothing,
}

/// Decide what a colon command line asks for. The line is split at
/// whitespace; the first word names the command.
pub fn parse_command(input: &str) -> (r: UserCommand)
    ensures
        ({
            let words = split_ws_text(input@);
            &&& (words.len() == 0 ==> r is Nothing)
            &&& (words.len() == 1 && words[0] == "add"@ ==> r is Nothing)
            &&& (words.len() >= 2 && words[0] == "add"@ ==> (r matches UserCommand::Add(t) && t@
                == join_spaces(words.skip(1))))
            &&& (words.len() >= 1 && words[0] == "done"@ ==> r is Done)
            &&& (words.len() >= 1 && words[0] == "sync"@ ==> r is Sync)
            &&& (words.len() >= 1 && (words[0] == "quit"@ || words[0] == "q"@) ==> r is Quit)
            &&& (words.len() == 1 && words[0] == "config"@ ==> r is ShowConfig)
            &&& (words.len() == 3 && words[0] == "config"@ ==> (r matches UserCommand::SetKey(
                a,
                k,
            ) && a@ == words[1] && k@ == words[2]))
            &&& (words.len() >= 1 && words[0] == "config"@ && words.len() != 1 && words.len() != 3
                ==> r is Nothing)
            &&& (words.len() >= 1 && words[0] != "add"@ && words[0] != "done"@ && words[0]
                != "sync"@ && words[0] != "quit"@ && words[0] != "q"@ && words[0] != "config"@
                ==> r is Nothing)
        }),
{
    let mut words = split_ws(input);
    let n = words.len();
    proof {
        reveal_strlit("add");
        reveal_strlit("done");
        reveal_strlit("sync");
        reveal_strlit("quit");
        reveal_strlit("q");
        reveal_strlit("config");
        assert("add"@.len() == 3 && "done"@.len() == 4 && "sync"@.len() == 4 && "quit"@.len()
            == 4 && "q"@.len() == 1 && "config"@.len() == 6);
        assert("done"@[0] == 'd' && "sync"@[0] == 's' && "quit"@[0] == 'q');
        assert(views_of(words@).len() == words@.len());
    }
    if n == 0 {
        return UserCommand::Nothing;
    }
    proof {
        assert(views_of(words@)[0] == words@[0]@);
    }
    if str_eq(words[0].as_str(), "add") {
        if n >= 2 {
            let first = words.remove(0);
            proof {
                assert(views_of(words@) =~= split_ws_text(input@).skip(1));
            }
            let text = join_with_spaces(&words);
            return UserCommand::Add(text);
        }
        return UserCommand::Nothing;
    }
    if str_eq(words[0].as_str(), "done") {
        return UserCommand::Done;
    }
    if str_eq(words[0].as_str(), "sync") {
        return UserCommand::Sync;
    }
    if str_eq(words[0].as_str(), "quit") || str_eq(words[0].as_str(), "q") {
        return UserCommand::Quit;
    }
    if str_eq(words[0].as_str(), "config") {
        if n == 1 {
            return UserCommand::ShowConfig;
        }
        if n == 3 {
            proof {
                assert(views_of(words@)[1] == words@[1]@);
                assert(views_of(words@)[2] == words@[2]@);
            }
            let action = words[1].clone();
            let key = words[2].clone();
            return UserCommand::SetKey(action, key);
        }
        return UserCommand::Nothing;
    }
    UserCommand::Nothing
}

/// How many of the per-record outcomes of a sequential multi-record write
/// succeeded before the first failure: the writes before it are applied,
/// the rest are skipped or failed — partial success is reported, never
/// masked.
pub fn applied_prefix(outcomes: &Vec<bool>) -> (r: usize)
    ensures
        r <= outcomes@.len(),
        forall|i: int| 0 <= i < r ==> outcomes@[i],
        r < outcomes@.len() ==> !outcomes@[r as int],
{
    let n = outcomes.len();
    let mut i: usize = 0;
    while i < n
        invariant
            n == outcomes@.len(),
            0 <= i <= n,
            forall|j: int| 0 <= j < i ==> outcomes@[j],
        decreases n - i,
    {
        if !outcomes[i] {
            return i;
        }
        i = i + 1;
    }
    n
}

} // verus!
