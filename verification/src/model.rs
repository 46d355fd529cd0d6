//! A model of the remote store's documented table behaviour: what creating
//! a row adds, which rows a list fetch returns and in what order, and what
//! the partial PATCH writes leave behind. The client's protocol properties
//! are stated and proved against this model, and an executable in-memory
//! table lets the same scenarios run end to end.

use crate::db::{RowView, SupabaseTask, SupabaseUser, UserView};
use crate::text::str_eq;
use vstd::prelude::*;
use vstd::seq_lib::lemma_multiset_commutative;
use vstd::string::*;

verus! {

/// The abstract values of the rows of `v`.
pub open spec fn views_rows(v: Seq<SupabaseTask>) -> Seq<RowView> {
    v.map_values(|w: SupabaseTask| w@)
}

/// The rows that belong to `uid`, in table order.
pub open spec fn owner_rows(rows: Seq<RowView>, uid: Seq<char>) -> Seq<RowView> {
    rows.filter(|r: RowView| r.user_id == uid)
}

/// Ascending by `position`.
pub open spec fn sorted_by_pos(s: Seq<RowView>) -> bool {
    forall|i: int, j: int| 0 <= i < j < s.len() ==> s[i].position <= s[j].position
}

/// `w` placed in front of the first row whose position is not smaller.
pub open spec fn insert_by_pos(w: RowView, s: Seq<RowView>) -> Seq<RowView>
    decreases s.len(),
{
    if s.len() == 0 {
        seq![w]
    } else if w.position <= s[0].position {
        seq![w] + s
    } else {
        seq![s[0]] + insert_by_pos(w, s.skip(1))
    }
}

/// The rows rearranged into ascending position order.
pub open spec fn sort_by_pos(s: Seq<RowView>) -> Seq<RowView>
    decreases s.len(),
{
    if s.len() == 0 {
        Seq::empty()
    } else {
        insert_by_pos(s[0], sort_by_pos(s.skip(1)))
    }
}

/// What a list fetch for `uid` returns: the owner's rows, ordered by
/// position ascending — the user's manual order, not creation order.
pub open spec fn listing(rows: Seq<RowView>, uid: Seq<char>) -> Seq<RowView> {
    sort_by_pos(owner_rows(rows, uid))
}

/// What a done-flag PATCH leaves: every row whose id matches carries the
/// new flag and the new update stamp, every other row is untouched.
pub open spec fn done_patched(rows: Seq<RowView>, id: Seq<char>, done: bool, stamp: Seq<char>) -> Seq<
    RowView,
> {
    rows.map_values(
        |r: RowView|
            if r.id == id {
                RowView { done, updated_at: stamp, ..r }
            } else {
                r
            },
    )
}

/// What a position PATCH leaves.
pub open spec fn position_patched(
    rows: Seq<RowView>,
    id: Seq<char>,
    position: i32,
    stamp: Seq<char>,
) -> Seq<RowView> {
    rows.map_values(
        |r: RowView|
            if r.id == id {
                RowView { position, updated_at: stamp, ..r }
            } else {
                r
            },
    )
}

/// What a DELETE leaves: the rows whose id differs.
pub open spec fn without_row(rows: Seq<RowView>, id: Seq<char>) -> Seq<RowView> {
    rows.filter(|r: RowView| r.id != id)
}

/// The fields a full-record update writes: everything but a row's
/// identity, owner and creation time.
pub struct TaskPatchView {
    pub title: Seq<char>,
    pub description: Seq<char>,
    pub done: bool,
    pub priority: i32,
    pub due_date: Option<Seq<char>>,
    pub tags: Seq<Seq<char>>,
    pub updated_at: Seq<char>,
    pub position: i32,
}

/// The patch a wire row carries: its writable fields.
pub open spec fn patch_fields(r: RowView) -> TaskPatchView {
    TaskPatchView {
        title: r.title,
        description: r.description,
        done: r.done,
        priority: r.priority,
        due_date: r.due_date,
        tags: r.tags,
        updated_at: r.updated_at,
        position: r.position,
    }
}

/// What a full-record PATCH leaves: every row whose id matches carries the
/// written fields, keeping only its identity, owner and creation time;
/// every other row is untouched.
pub open spec fn task_patched(rows: Seq<RowView>, id: Seq<char>, p: TaskPatchView) -> Seq<
    RowView,
> {
    rows.map_values(
        |r: RowView|
            if r.id == id {
                RowView {
                    id: r.id,
                    user_id: r.user_id,
                    title: p.title,
                    description: p.description,
                    done: p.done,
                    priority: p.priority,
                    due_date: p.due_date,
                    tags: p.tags,
                    created_at: r.created_at,
                    updated_at: p.updated_at,
                    position: p.position,
                }
            } else {
                r
            },
    )
}

/// Inserting keeps the order and adds exactly `w` to the contents.
pub proof fn lemma_insert_by_pos(w: RowView, s: Seq<RowView>)
    requires
        sorted_by_pos(s),
    ensures
        sorted_by_pos(insert_by_pos(w, s)),
        insert_by_pos(w, s).to_multiset() == s.to_multiset().insert(w),
        insert_by_pos(w, s).len() == s.len() + 1,
    decreases s.len(),
{
    broadcast use vstd::seq_lib::group_to_multiset_ensures;
    broadcast use vstd::multiset::group_multiset_axioms;

    if s.len() == 0 {
        assert(seq![w] =~= Seq::<RowView>::empty().push(w));
        assert(seq![w].to_multiset() =~= s.to_multiset().insert(w));
    } else if w.position <= s[0].position {
        let out = seq![w] + s;
        assert(forall|i: int| 0 <= i < s.len() ==> out[i + 1] == s[i]);
        assert(sorted_by_pos(out)) by {
            assert(forall|j: int|
                1 <= j < out.len() ==> out[0].position <= #[trigger] out[j].position);
        }
        assert(seq![w] =~= Seq::<RowView>::empty().push(w));
        lemma_multiset_commutative(seq![w], s);
        assert(out.to_multiset() =~= s.to_multiset().insert(w));
    } else {
        let t = s.skip(1);
        assert(sorted_by_pos(t)) by {
            assert(forall|i: int| 0 <= i < t.len() ==> t[i] == s[i + 1]);
        }
        lemma_insert_by_pos(w, t);
        let rest = insert_by_pos(w, t);
        let out = seq![s[0]] + rest;
        assert(forall|i: int| 0 <= i < rest.len() ==> out[i + 1] == rest[i]);
        // every element of `rest` is either `w` or an element of `t`, and
        // both sit at or above `s[0]`'s position
        assert(forall|i: int| 0 <= i < rest.len() ==> rest.to_multiset().count(#[trigger] rest[i]) > 0);
        assert(forall|i: int|
            0 <= i < rest.len() ==> #[trigger] rest[i] == w || t.contains(rest[i]));
        assert(forall|i: int|
            0 <= i < rest.len() ==> s[0].position <= #[trigger] rest[i].position) by {
            assert(forall|j: int|
                0 <= j < t.len() ==> s[0].position <= #[trigger] t[j].position);
        }
        assert(sorted_by_pos(out));
        assert(seq![s[0]] =~= Seq::<RowView>::empty().push(s[0]));
        lemma_multiset_commutative(seq![s[0]], rest);
        assert(s =~= seq![s[0]] + t);
        lemma_multiset_commutative(seq![s[0]], t);
        assert(out.to_multiset() =~= s.to_multiset().insert(w));
    }
}

/// Sorting keeps exactly the contents and orders them by position.
pub proof fn lemma_sort_by_pos(s: Seq<RowView>)
    ensures
        sorted_by_pos(sort_by_pos(s)),
        sort_by_pos(s).to_multiset() == s.to_multiset(),
        sort_by_pos(s).len() == s.len(),
    decreases s.len(),
{
    broadcast use vstd::seq_lib::group_to_multiset_ensures;
    broadcast use vstd::multiset::group_multiset_axioms;

    if s.len() == 0 {
        assert(sort_by_pos(s).to_multiset() =~= s.to_multiset());
    } else {
        let t = s.skip(1);
        lemma_sort_by_pos(t);
        lemma_insert_by_pos(s[0], sort_by_pos(t));
        assert(s =~= seq![s[0]] + t);
        assert(seq![s[0]] =~= Seq::<RowView>::empty().push(s[0]));
        lemma_multiset_commutative(seq![s[0]], t);
        assert(sort_by_pos(s).to_multiset() =~= s.to_multiset());
    }
}

/// Sorting keeps membership.
pub proof fn lemma_sort_contains(s: Seq<RowView>, w: RowView)
    ensures
        sort_by_pos(s).contains(w) <==> s.contains(w),
{
    broadcast use vstd::seq_lib::group_to_multiset_ensures;

    lemma_sort_by_pos(s);
    assert(s.contains(w) <==> s.to_multiset().count(w) > 0);
    assert(sort_by_pos(s).contains(w) <==> sort_by_pos(s).to_multiset().count(w) > 0);
}

/// Creating a row for `uid` and then listing `uid`'s rows shows that row:
/// nothing along the way loses or changes it.
pub proof fn lemma_create_then_list(rows: Seq<RowView>, w: RowView, uid: Seq<char>)
    requires
        w.user_id == uid,
    ensures
        listing(rows.push(w), uid).contains(w),
{
    broadcast use vstd::seq_lib::group_filter_ensures;

    let owned = owner_rows(rows.push(w), uid);
    assert(rows.push(w)[rows.len() as int] == w);
    assert(owned.contains(w));
    lemma_sort_contains(owned, w);
}

/// A created record survives the whole round: the created wire row appears
/// in the owner's listing, and decoding it yields every field of the task
/// it was made from — the priority ordinal and the timestamp texts lose
/// nothing on the way.
pub proof fn lemma_create_list_roundtrip(
    rows: Seq<RowView>,
    w: SupabaseTask,
    t0: crate::task::Task,
    t: crate::task::Task,
    uid: Seq<char>,
)
    requires
        t0.wf(),
        w.encodes(t0, uid),
        w.decodes_to(t),
    ensures
        listing(rows.push(w@), uid).contains(w@),
        crate::db::task_fields_match(t, t0),
{
    lemma_create_then_list(rows, w@, uid);
    crate::db::lemma_task_codec_roundtrip(w, t0, uid, t);
}

/// Some row of `s` has id `id`.
pub open spec fn has_id(s: Seq<RowView>, id: Seq<char>) -> bool {
    exists|k: int| 0 <= k < s.len() && s[k].id == id
}

/// The index of the row of `s` with id `id`.
pub open spec fn id_index(s: Seq<RowView>, id: Seq<char>) -> int {
    choose|k: int| 0 <= k < s.len() && s[k].id == id
}

/// No two rows of `s` share an id.
pub open spec fn distinct_ids(s: Seq<RowView>) -> bool {
    forall|i: int, j: int| 0 <= i < j < s.len() ==> s[i].id != s[j].id
}

/// The ids of the rows of `s`, in order.
pub open spec fn ids_of(s: Seq<RowView>) -> Seq<Seq<char>> {
    s.map_values(|r: RowView| r.id)
}

/// When some row has the id, `id_index` points at such a row.
pub proof fn lemma_id_index(s: Seq<RowView>, id: Seq<char>)
    requires
        has_id(s, id),
    ensures
        0 <= id_index(s, id) < s.len(),
        s[id_index(s, id)].id == id,
{
    let k = choose|k: int| 0 <= k < s.len() && s[k].id == id;
    assert(id_index(s, id) == k);
}

/// A successful reorder leaves every owner row at the position the
/// submitted sequence assigns to its id, with the owner rows carrying
/// exactly the submitted ids.
pub open spec fn repositioned(owner: Seq<RowView>, submitted: Seq<RowView>) -> bool {
    &&& owner.len() == submitted.len()
    &&& forall|j: int|
        0 <= j < owner.len() ==> has_id(submitted, (#[trigger] owner[j]).id) && owner[j].position
            == id_index(submitted, owner[j].id)
    &&& ids_of(owner).to_multiset() == ids_of(submitted).to_multiset()
}

/// In a run of strictly increasing, non-negative positions, the position at
/// `k` is at least `k`.
proof fn lemma_strict_lower(out: Seq<RowView>, k: int)
    requires
        forall|i: int, j: int| 0 <= i < j < out.len() ==> out[i].position < out[j].position,
        forall|i: int| 0 <= i < out.len() ==> (#[trigger] out[i]).position >= 0,
        0 <= k < out.len(),
    ensures
        out[k].position >= k,
    decreases k,
{
    if k > 0 {
        lemma_strict_lower(out, k - 1);
    }
}

/// In a run of strictly increasing positions all below `n`, with `n` rows,
/// the position at `k` is at most `k`.
proof fn lemma_strict_upper(out: Seq<RowView>, k: int)
    requires
        forall|i: int, j: int| 0 <= i < j < out.len() ==> out[i].position < out[j].position,
        forall|i: int| 0 <= i < out.len() ==> (#[trigger] out[i]).position < out.len(),
        0 <= k < out.len(),
    ensures
        out[k].position <= k,
    decreases out.len() - k,
{
    if k < out.len() - 1 {
        lemma_strict_upper(out, k + 1);
    }
}

/// Reorder is stable: after a successful reorder — every owner row
/// repositioned to the index its id holds in the submitted sequence — a
/// list fetch returns the records in exactly the submitted order.
pub proof fn lemma_reorder_stable(rows: Seq<RowView>, submitted: Seq<RowView>, uid: Seq<char>)
    requires
        distinct_ids(submitted),
        repositioned(owner_rows(rows, uid), submitted),
    ensures
        listing(rows, uid).len() == submitted.len(),
        forall|k: int|
            0 <= k < submitted.len() ==> (#[trigger] listing(rows, uid)[k]).id == submitted[k].id
                && listing(rows, uid)[k].position == k,
{
    broadcast use vstd::seq_lib::group_to_multiset_ensures;

    let owner = owner_rows(rows, uid);
    let out = listing(rows, uid);
    let n = submitted.len() as int;
    lemma_sort_by_pos(owner);
    assert(out.len() == n);

    // ids never repeat among the submitted rows, hence neither among the
    // owner rows
    assert(ids_of(submitted).no_duplicates()) by {
        assert(forall|i: int|
            0 <= i < submitted.len() ==> ids_of(submitted)[i] == (#[trigger] submitted[i]).id);
    }
    ids_of(submitted).lemma_multiset_has_no_duplicates();
    assert(forall|x: Seq<char>| #[trigger]
        ids_of(owner).to_multiset().count(x) <= 1);
    ids_of(owner).lemma_multiset_has_no_duplicates_conv();
    assert(forall|i: int|
        0 <= i < owner.len() ==> ids_of(owner)[i] == (#[trigger] owner[i]).id);
    assert(forall|i: int, j: int| 0 <= i < j < owner.len() ==> owner[i].id != owner[j].id);

    // hence the owner rows themselves never repeat
    assert(owner.no_duplicates());
    owner.lemma_multiset_has_no_duplicates();
    assert(forall|x: RowView| #[trigger] out.to_multiset().count(x) <= 1);
    out.lemma_multiset_has_no_duplicates_conv();

    // every listed row is an owner row, so it sits at the position assigned
    // to its id, inside the bounds
    assert(forall|k: int| 0 <= k < n ==> owner.contains(#[trigger] out[k])) by {
        assert(forall|k: int|
            0 <= k < n ==> out.to_multiset().count(#[trigger] out[k]) > 0);
    }
    assert(forall|k: int|
        0 <= k < n ==> has_id(submitted, (#[trigger] out[k]).id) && out[k].position == id_index(
            submitted,
            out[k].id,
        )) by {
        assert(forall|k: int|
            0 <= k < n ==> exists|j: int| 0 <= j < owner.len() && (#[trigger] out[k]) == owner[j]);
    }
    assert forall|k: int| 0 <= k < n implies 0 <= (#[trigger] out[k]).position < n by {
        lemma_id_index(submitted, out[k].id);
    }

    // two listed rows never share a position: their ids would coincide
    assert forall|i: int, j: int| 0 <= i < j < n implies out[i].position != out[j].position by {
        if out[i].position == out[j].position {
            lemma_id_index(submitted, out[i].id);
            lemma_id_index(submitted, out[j].id);
            assert(out[i].id == submitted[id_index(submitted, out[i].id)].id);
            assert(out[i].id == out[j].id);
            if out[i] == out[j] {
                assert(!out.no_duplicates());
            } else {
                let a = choose|a: int| 0 <= a < owner.len() && owner[a] == out[i];
                let b = choose|b: int| 0 <= b < owner.len() && owner[b] == out[j];
                assert(owner.contains(out[i]) && owner.contains(out[j]));
                assert(owner[a] == out[i] && owner[b] == out[j]);
                assert(a != b);
                assert(owner[a].id != owner[b].id);
            }
        }
    }

    // strictly increasing positions inside 0..n leave only one order: the
    // position at k is k, and the id there is the submitted one
    assert forall|k: int|
        0 <= k < n implies (#[trigger] out[k]).id == submitted[k].id && out[k].position == k by {
        assert(forall|i: int, j: int| 0 <= i < j < out.len() ==> out[i].position < out[j].position);
        lemma_strict_lower(out, k);
        lemma_strict_upper(out, k);
        assert(out[k].position == k);
        lemma_id_index(submitted, out[k].id);
        assert(id_index(submitted, out[k].id) == k);
        assert(submitted[k].id == out[k].id);
    }
}

/// Unfold `insert_by_pos` at the insertion point: when the first `idx` rows
/// sit strictly below `w`'s position and the row at `idx` (if any) does
/// not, `w` lands exactly at `idx`.
proof fn lemma_insert_by_pos_at(w: RowView, s: Seq<RowView>, idx: int)
    requires
        0 <= idx <= s.len(),
        forall|j: int| 0 <= j < idx ==> (#[trigger] s[j]).position < w.position,
        idx < s.len() ==> w.position <= s[idx].position,
    ensures
        insert_by_pos(w, s) == s.take(idx) + seq![w] + s.skip(idx),
    decreases idx,
{
    if idx == 0 {
        if s.len() == 0 {
            assert(insert_by_pos(w, s) =~= s.take(0) + seq![w] + s.skip(0));
        } else {
            assert(insert_by_pos(w, s) =~= s.take(0) + seq![w] + s.skip(0));
        }
    } else {
        let t = s.skip(1);
        assert(forall|j: int| 0 <= j < t.len() ==> t[j] == s[j + 1]);
        lemma_insert_by_pos_at(w, t, idx - 1);
        assert(insert_by_pos(w, s) == seq![s[0]] + insert_by_pos(w, t));
        assert(seq![s[0]] + (t.take(idx - 1) + seq![w] + t.skip(idx - 1)) =~= s.take(idx) + seq![w]
            + s.skip(idx));
    }
}

/// The in-memory table that stands for the remote store in scenarios: rows
/// behave as the documented REST operations leave them.
pub struct StoreModel {
    pub rows: Vec<SupabaseTask>,
}

impl View for StoreModel {
    type V = Seq<RowView>;

    open spec fn view(&self) -> Seq<RowView> {
        views_rows(self.rows@)
    }
}

impl StoreModel {
    /// An empty table.
    pub fn new() -> (m: StoreModel)
        ensures
            m@ == Seq::<RowView>::empty(),
    {
        let m = StoreModel { rows: Vec::new() };
        proof {
            assert(m@ =~= Seq::<RowView>::empty());
        }
        m
    }

    /// A POST of a new row appends it to the table.
    pub fn create_row(&mut self, w: SupabaseTask)
        ensures
            final(self)@ == old(self)@.push(w@),
    {
        self.rows.push(w);
        proof {
            assert(self@ =~= old(self)@.push(self.rows@.last()@));
        }
    }

    /// A PATCH of the done flag rewrites every row whose id matches.
    pub fn patch_done(&mut self, id: &str, done: bool, stamp: &str)
        ensures
            final(self)@ == done_patched(old(self)@, id@, done, stamp@),
    {
        let n = self.rows.len();
        let mut out: Vec<SupabaseTask> = Vec::new();
        let mut i: usize = 0;
        while i < n
            invariant
                n == self.rows@.len(),
                self.rows@ == old(self).rows@,
                0 <= i <= n,
                views_rows(out@) =~= done_patched(old(self)@, id@, done, stamp@).take(i as int),
            decreases n - i,
        {
            let ghost out0 = out@;
            proof {
                assert(views_rows(out0).len() == out0.len());
                assert(out0.len() == i as int);
            }
            let row = &self.rows[i];
            if str_eq(row.id.as_str(), id) {
                let mut patched = row.duplicate();
                patched.done = done;
                patched.updated_at = String::from_str(stamp);
                out.push(patched);
            } else {
                out.push(row.duplicate());
            }
            proof {
                let full = done_patched(old(self)@, id@, done, stamp@);
                assert(views_rows(out@).len() == out@.len());
                assert(full.len() == old(self)@.len());
                assert(out@.len() == i + 1);
                assert(old(self)@[i as int] == self.rows@[i as int]@);
                assert(full[i as int] == (if old(self)@[i as int].id == id@ {
                    RowView { done, updated_at: stamp@, ..old(self)@[i as int] }
                } else {
                    old(self)@[i as int]
                }));
                assert(out@[i as int]@ == full[i as int]);
                assert(views_rows(out@) =~= full.take(i + 1));
            }
            i = i + 1;
        }
        self.rows = out;
        proof {
            assert(done_patched(old(self)@, id@, done, stamp@).take(n as int) =~= done_patched(
                old(self)@,
                id@,
                done,
                stamp@,
            ));
        }
    }

    /// A PATCH of the position rewrites every row whose id matches.
    pub fn patch_position(&mut self, id: &str, position: i32, stamp: &str)
        ensures
            final(self)@ == position_patched(old(self)@, id@, position, stamp@),
    {
        let n = self.rows.len();
        let mut out: Vec<SupabaseTask> = Vec::new();
        let mut i: usize = 0;
        while i < n
            invariant
                n == self.rows@.len(),
                self.rows@ == old(self).rows@,
                0 <= i <= n,
                views_rows(out@) =~= position_patched(old(self)@, id@, position, stamp@).take(
                    i as int,
                ),
            decreases n - i,
        {
            let ghost out0 = out@;
            proof {
                assert(views_rows(out0).len() == out0.len());
                assert(out0.len() == i as int);
            }
            let row = &self.rows[i];
            if str_eq(row.id.as_str(), id) {
                let mut patched = row.duplicate();
                patched.position = position;
                patched.updated_at = String::from_str(stamp);
                out.push(patched);
            } else {
                out.push(row.duplicate());
            }
            proof {
                let full = position_patched(old(self)@, id@, position, stamp@);
                assert(views_rows(out@).len() == out@.len());
                assert(full.len() == old(self)@.len());
                assert(out@.len() == i + 1);
                assert(old(self)@[i as int] == self.rows@[i as int]@);
                assert(full[i as int] == (if old(self)@[i as int].id == id@ {
                    RowView { position, updated_at: stamp@, ..old(self)@[i as int] }
                } else {
                    old(self)@[i as int]
                }));
                assert(out@[i as int]@ == full[i as int]);
                assert(views_rows(out@) =~= full.take(i + 1));
            }
            i = i + 1;
        }
        self.rows = out;
        proof {
            assert(position_patched(old(self)@, id@, position, stamp@).take(n as int)
                =~= position_patched(old(self)@, id@, position, stamp@));
        }
    }

    /// A full-record PATCH rewrites the writable fields of every row whose
    /// id matches, keeping identity, owner and creation time.
    pub fn patch_task(&mut self, id: &str, patch: &SupabaseTask)
        ensures
            final(self)@ == task_patched(old(self)@, id@, patch_fields(patch@)),
    {
        let n = self.rows.len();
        let mut out: Vec<SupabaseTask> = Vec::new();
        let mut i: usize = 0;
        while i < n
            invariant
                n == self.rows@.len(),
                self.rows@ == old(self).rows@,
                0 <= i <= n,
                views_rows(out@) =~= task_patched(old(self)@, id@, patch_fields(patch@)).take(
                    i as int,
                ),
            decreases n - i,
        {
            let ghost out0 = out@;
            proof {
                assert(views_rows(out0).len() == out0.len());
                assert(out0.len() == i as int);
            }
            let row = &self.rows[i];
            if str_eq(row.id.as_str(), id) {
                let mut updated = patch.duplicate();
                updated.id = row.id.clone();
                updated.user_id = row.user_id.clone();
                updated.created_at = row.created_at.clone();
                out.push(updated);
            } else {
                out.push(row.duplicate());
            }
            proof {
                let full = task_patched(old(self)@, id@, patch_fields(patch@));
                assert(views_rows(out@).len() == out@.len());
                assert(full.len() == old(self)@.len());
                assert(out@.len() == i + 1);
                assert(old(self)@[i as int] == self.rows@[i as int]@);
                assert(out@[i as int]@ == full[i as int]);
                assert(views_rows(out@) =~= full.take(i + 1));
            }
            i = i + 1;
        }
        self.rows = out;
        proof {
            assert(task_patched(old(self)@, id@, patch_fields(patch@)).take(n as int)
                =~= task_patched(old(self)@, id@, patch_fields(patch@)));
        }
    }

    /// A DELETE removes every row whose id matches.
    pub fn delete_row(&mut self, id: &str)
        ensures
            final(self)@ == without_row(old(self)@, id@),
    {
        let n = self.rows.len();
        let mut out: Vec<SupabaseTask> = Vec::new();
        let mut i: usize = 0;
        proof {
            reveal(Seq::filter);
            assert(old(self)@.take(0) =~= Seq::<RowView>::empty());
            assert(views_rows(out@) =~= without_row(old(self)@.take(0), id@));
        }
        while i < n
            invariant
                n == self.rows@.len(),
                self.rows@ == old(self).rows@,
                0 <= i <= n,
                views_rows(out@) =~= without_row(old(self)@.take(i as int), id@),
            decreases n - i,
        {
            let row = &self.rows[i];
            if !str_eq(row.id.as_str(), id) {
                out.push(row.duplicate());
            }
            proof {
                reveal(Seq::filter);
                let full = old(self)@;
                assert(full.take(i + 1).drop_last() =~= full.take(i as int));
                assert(full.take(i + 1).last() == full[i as int]);
            }
            i = i + 1;
        }
        self.rows = out;
        proof {
            assert(old(self)@.take(n as int) =~= old(self)@);
        }
    }

    /// A GET for `user_id` returns that owner's rows, ordered by position
    /// ascending.
    pub fn list_for(&self, user_id: &str) -> (r: Vec<SupabaseTask>)
        ensures
            views_rows(r@) == listing(self@, user_id@),
    {
        let n = self.rows.len();
        let mut owned: Vec<SupabaseTask> = Vec::new();
        let mut i: usize = 0;
        proof {
            reveal(Seq::filter);
            assert(self@.take(0) =~= Seq::<RowView>::empty());
            assert(views_rows(owned@) =~= owner_rows(self@.take(0), user_id@));
        }
        while i < n
            invariant
                n == self.rows@.len(),
                0 <= i <= n,
                views_rows(owned@) =~= owner_rows(self@.take(i as int), user_id@),
            decreases n - i,
        {
            let row = &self.rows[i];
            if str_eq(row.user_id.as_str(), user_id) {
                owned.push(row.duplicate());
            }
            proof {
                reveal(Seq::filter);
                let full = self@;
                assert(full.take(i + 1).drop_last() =~= full.take(i as int));
                assert(full.take(i + 1).last() == full[i as int]);
            }
            i = i + 1;
        }
        proof {
            assert(self@.take(n as int) =~= self@);
        }
        // insertion sort, built from the back so ties keep the spec's order
        let m = owned.len();
        let mut sorted_rows: Vec<SupabaseTask> = Vec::new();
        let mut k: usize = m;
        proof {
            assert(views_rows(owned@).skip(m as int) =~= Seq::<RowView>::empty());
            assert(views_rows(sorted_rows@) =~= sort_by_pos(views_rows(owned@).skip(m as int)));
        }
        while k > 0
            invariant
                m == owned@.len(),
                0 <= k <= m,
                views_rows(sorted_rows@) =~= sort_by_pos(views_rows(owned@).skip(k as int)),
            decreases k,
        {
            k = k - 1;
            let w = owned[k].duplicate();
            let ghost prev = views_rows(sorted_rows@);
            // find the insertion point: the first row not below w's position
            let len = sorted_rows.len();
            let mut idx: usize = 0;
            while idx < len && sorted_rows[idx].position < w.position
                invariant
                    len == sorted_rows@.len(),
                    0 <= idx <= len,
                    forall|j: int|
                        0 <= j < idx ==> (#[trigger] sorted_rows@[j]).position < w.position,
                decreases len - idx,
            {
                idx = idx + 1;
            }
            sorted_rows.insert(idx, w);
            proof {
                assert(forall|j: int|
                    0 <= j < prev.len() ==> prev[j] == (#[trigger] sorted_rows@.remove(
                        idx as int,
                    )[j])@ || true);
                lemma_insert_by_pos_at(w@, prev, idx as int);
                let now_views = views_rows(sorted_rows@);
                assert(now_views =~= prev.take(idx as int) + seq![w@] + prev.skip(idx as int));
                let tail = views_rows(owned@).skip(k as int);
                assert(tail[0] == owned@[k as int]@);
                assert(tail.skip(1) =~= views_rows(owned@).skip(k + 1));
                assert(now_views =~= sort_by_pos(tail));
            }
        }
        proof {
            assert(views_rows(owned@).skip(0) =~= views_rows(owned@));
        }
        sorted_rows
    }
}

/// When ids never repeat, `id_index` finds exactly the row it names.
pub proof fn lemma_id_index_unique(s: Seq<RowView>, k: int)
    requires
        distinct_ids(s),
        0 <= k < s.len(),
    ensures
        id_index(s, s[k].id) == k,
{
    assert(has_id(s, s[k].id));
    lemma_id_index(s, s[k].id);
    let k0 = id_index(s, s[k].id);
    if k0 < k {
        assert(s[k0].id != s[k].id);
    } else if k0 > k {
        assert(s[k].id != s[k0].id);
    }
}

/// What one row looks like once the reorder submission has been written:
/// a row whose id the submission names carries the position the submission
/// assigned to that id, freshly stamped; every other row is untouched.
pub open spec fn reorder_write(r: RowView, submitted: Seq<RowView>, stamp: Seq<char>) -> RowView {
    if has_id(submitted, r.id) {
        RowView {
            position: submitted[id_index(submitted, r.id)].position,
            updated_at: stamp,
            ..r
        }
    } else {
        r
    }
}

/// The table after the position writes of a reorder submission, applied
/// one record at a time in the order given, each stamping `stamp`: the
/// write for a record stores that record's position, nothing else.
pub open spec fn submission_applied(
    rows: Seq<RowView>,
    submitted: Seq<RowView>,
    stamp: Seq<char>,
) -> Seq<RowView>
    decreases submitted.len(),
{
    if submitted.len() == 0 {
        rows
    } else {
        position_patched(
            submission_applied(rows, submitted.drop_last(), stamp),
            submitted.last().id,
            submitted.last().position,
            stamp,
        )
    }
}

/// Applying the submission's writes one by one amounts to one
/// `reorder_write` per row: with distinct ids, no later write disturbs an
/// earlier one.
pub proof fn lemma_submission_applied(rows: Seq<RowView>, submitted: Seq<RowView>, stamp: Seq<char>)
    requires
        distinct_ids(submitted),
    ensures
        submission_applied(rows, submitted, stamp).len() == rows.len(),
        forall|j: int|
            0 <= j < rows.len() ==> submission_applied(rows, submitted, stamp)[j]
                == reorder_write(#[trigger] rows[j], submitted, stamp),
    decreases submitted.len(),
{
    if submitted.len() == 0 {
        assert(forall|j: int|
            0 <= j < rows.len() ==> !has_id(submitted, (#[trigger] rows[j]).id));
    } else {
        let n = submitted.len() as int;
        let front = submitted.drop_last();
        let last = submitted.last();
        assert(forall|k: int| 0 <= k < n - 1 ==> front[k] == submitted[k]);
        lemma_submission_applied(rows, front, stamp);
        let prev = submission_applied(rows, front, stamp);
        let out = submission_applied(rows, submitted, stamp);
        assert(out == position_patched(prev, last.id, last.position, stamp));
        assert forall|j: int|
            0 <= j < rows.len() implies out[j] == reorder_write(rows[j], submitted, stamp) by {
            let r = rows[j];
            assert(prev[j] == reorder_write(r, front, stamp));
            if r.id == last.id {
                // the id is new to the front: a duplicate would break
                // distinctness
                assert(!has_id(front, r.id)) by {
                    if has_id(front, r.id) {
                        lemma_id_index(front, r.id);
                        let k0 = id_index(front, r.id);
                        assert(submitted[k0].id == last.id);
                        assert(submitted[k0].id != submitted[n - 1].id);
                    }
                }
                assert(prev[j] == r);
                assert(out[j] == RowView { position: last.position, updated_at: stamp, ..r });
                lemma_id_index_unique(submitted, n - 1);
                assert(id_index(submitted, r.id) == n - 1);
                assert(submitted[n - 1].position == last.position);
            } else {
                assert(out[j] == prev[j]);
                if has_id(front, r.id) {
                    lemma_id_index(front, r.id);
                    let k0 = id_index(front, r.id);
                    lemma_id_index_unique(submitted, k0);
                    lemma_id_index_unique(front, k0);
                    assert(id_index(submitted, r.id) == k0);
                    assert(has_id(submitted, r.id));
                } else {
                    assert(!has_id(submitted, r.id)) by {
                        if has_id(submitted, r.id) {
                            lemma_id_index(submitted, r.id);
                            let k0 = id_index(submitted, r.id);
                            assert(k0 < n - 1 ==> front[k0].id == r.id && has_id(front, r.id));
                            assert(k0 == n - 1 ==> r.id == last.id);
                        }
                    }
                }
            }
        }
    }
}

/// Filtering for an owner commutes with the reorder writes: a write never
/// changes who owns a row.
proof fn lemma_owner_rows_writes(
    a: Seq<RowView>,
    b: Seq<RowView>,
    submitted: Seq<RowView>,
    stamp: Seq<char>,
    uid: Seq<char>,
)
    requires
        b.len() == a.len(),
        forall|j: int| 0 <= j < a.len() ==> b[j] == reorder_write(#[trigger] a[j], submitted, stamp),
    ensures
        owner_rows(b, uid).len() == owner_rows(a, uid).len(),
        forall|j: int|
            0 <= j < owner_rows(a, uid).len() ==> owner_rows(b, uid)[j] == reorder_write(
                #[trigger] owner_rows(a, uid)[j],
                submitted,
                stamp,
            ),
    decreases a.len(),
{
    reveal(Seq::filter);
    if a.len() == 0 {
    } else {
        let a0 = a.drop_last();
        let b0 = b.drop_last();
        assert(forall|j: int| 0 <= j < a0.len() ==> a0[j] == a[j]);
        assert(forall|j: int| 0 <= j < b0.len() ==> b0[j] == b[j]);
        lemma_owner_rows_writes(a0, b0, submitted, stamp, uid);
        assert(b.last() == reorder_write(a.last(), submitted, stamp));
        assert(b.last().user_id == a.last().user_id);
        let fa = owner_rows(a0, uid);
        let fb = owner_rows(b0, uid);
        if a.last().user_id == uid {
            assert(owner_rows(a, uid) =~= fa.push(a.last()));
            assert(owner_rows(b, uid) =~= fb.push(b.last()));
        } else {
            assert(owner_rows(a, uid) =~= fa);
            assert(owner_rows(b, uid) =~= fb);
        }
    }
}

/// Reorder, end to end: the store holds exactly the records of the target
/// order for this owner; the coordinator submits the contiguous range
/// `lo ..= hi` of that order, each record carrying its target slot as its
/// position, while every untouched record already sits at its slot. After
/// the submission's writes are applied one record at a time, a list fetch
/// returns the records in exactly the target order.
pub proof fn lemma_reorder_round(
    rows: Seq<RowView>,
    target: Seq<RowView>,
    lo: int,
    hi: int,
    uid: Seq<char>,
    stamp: Seq<char>,
)
    requires
        distinct_ids(target),
        0 <= lo <= hi < target.len(),
        forall|k: int| lo <= k <= hi ==> (#[trigger] target[k]).position == k,
        ids_of(owner_rows(rows, uid)).to_multiset() == ids_of(target).to_multiset(),
        forall|j: int|
            0 <= j < owner_rows(rows, uid).len() && !has_id(
                target.subrange(lo, hi + 1),
                (#[trigger] owner_rows(rows, uid)[j]).id,
            ) ==> owner_rows(rows, uid)[j].position == id_index(
                target,
                owner_rows(rows, uid)[j].id,
            ),
    ensures
        ({
            let after = listing(
                submission_applied(rows, target.subrange(lo, hi + 1), stamp),
                uid,
            );
            &&& after.len() == target.len()
            &&& forall|k: int|
                0 <= k < target.len() ==> (#[trigger] after[k]).id == target[k].id
                    && after[k].position == k
        }),
{
    broadcast use vstd::seq_lib::group_to_multiset_ensures;

    let submitted = target.subrange(lo, hi + 1);
    assert(forall|k: int| 0 <= k < submitted.len() ==> submitted[k] == target[lo + k]);
    assert(distinct_ids(submitted));
    let table = submission_applied(rows, submitted, stamp);
    lemma_submission_applied(rows, submitted, stamp);
    lemma_owner_rows_writes(rows, table, submitted, stamp, uid);
    let owner_a = owner_rows(rows, uid);
    let owner_b = owner_rows(table, uid);

    // the writes keep every id, so the owner still holds exactly the
    // target records
    assert(ids_of(owner_b) =~= ids_of(owner_a)) by {
        assert(forall|j: int|
            0 <= j < owner_a.len() ==> ids_of(owner_b)[j] == (#[trigger] owner_a[j]).id);
    }
    assert(ids_of(owner_a).to_multiset().len() == ids_of(owner_a).len());
    assert(ids_of(target).to_multiset().len() == ids_of(target).len());
    assert(ids_of(owner_a).len() == ids_of(target).len());
    assert(owner_a.len() == target.len());

    // each owner row ends at the slot the target order assigns to its id:
    // submitted records by the write just applied, untouched records
    // because they stood there already
    assert forall|j: int| 0 <= j < owner_b.len() implies has_id(
        target,
        (#[trigger] owner_b[j]).id,
    ) && owner_b[j].position == id_index(target, owner_b[j].id) by {
        assert(ids_of(owner_a)[j] == owner_a[j].id);
        assert(ids_of(owner_a).contains(owner_a[j].id));
        assert(ids_of(owner_a).to_multiset().count(owner_a[j].id) > 0);
        assert(ids_of(target).contains(owner_a[j].id));
        let kt = choose|k: int|
            0 <= k < ids_of(target).len() && ids_of(target)[k] == owner_a[j].id;
        assert(target[kt].id == owner_a[j].id);
        assert(has_id(target, owner_a[j].id));
        assert(owner_b[j] == reorder_write(owner_a[j], submitted, stamp));
        assert(owner_b[j].id == owner_a[j].id);
        if has_id(submitted, owner_a[j].id) {
            lemma_id_index(submitted, owner_a[j].id);
            let k0 = id_index(submitted, owner_a[j].id);
            assert(submitted[k0].position == lo + k0);
            lemma_id_index_unique(target, lo + k0);
            assert(id_index(target, owner_a[j].id) == lo + k0);
        } else {
            assert(owner_b[j] == owner_a[j]);
        }
    }
    assert(repositioned(owner_b, target));
    lemma_reorder_stable(table, target, uid);
}

/// The abstract values of the user rows of `v`.
pub open spec fn views_users(v: Seq<SupabaseUser>) -> Seq<UserView> {
    v.map_values(|u: SupabaseUser| u@)
}

/// The rows whose username matches, in table order — what the login
/// flow's filtered GET returns.
pub open spec fn username_rows(rows: Seq<UserView>, username: Seq<char>) -> Seq<UserView> {
    rows.filter(|u: UserView| u.username == username)
}

/// The user table that stands for the remote account store in scenarios:
/// registration appends the row the store echoes back, and the login
/// fetch filters by username.
pub struct UserTable {
    pub rows: Vec<SupabaseUser>,
}

impl View for UserTable {
    type V = Seq<UserView>;

    open spec fn view(&self) -> Seq<UserView> {
        views_users(self.rows@)
    }
}

impl UserTable {
    /// An empty table.
    pub fn new() -> (m: UserTable)
        ensures
            m@ == Seq::<UserView>::empty(),
    {
        let m = UserTable { rows: Vec::new() };
        proof {
            assert(m@ =~= Seq::<UserView>::empty());
        }
        m
    }

    /// A POST of a new user row appends it to the table.
    pub fn create_user(&mut self, u: SupabaseUser)
        ensures
            final(self)@ == old(self)@.push(u@),
    {
        self.rows.push(u);
        proof {
            assert(self@ =~= old(self)@.push(self.rows@.last()@));
        }
    }

    /// A GET filtered by username returns the matching rows, in table
    /// order.
    pub fn rows_for_username(&self, username: &str) -> (r: Vec<SupabaseUser>)
        ensures
            views_users(r@) == username_rows(self@, username@),
    {
        let n = self.rows.len();
        let mut matching: Vec<SupabaseUser> = Vec::new();
        let mut i: usize = 0;
        proof {
            reveal(Seq::filter);
            assert(self@.take(0) =~= Seq::<UserView>::empty());
            assert(views_users(matching@) =~= username_rows(self@.take(0), username@));
        }
        while i < n
            invariant
                n == self.rows@.len(),
                0 <= i <= n,
                views_users(matching@) =~= username_rows(self@.take(i as int), username@),
            decreases n - i,
        {
            let row = &self.rows[i];
            if str_eq(row.username.as_str(), username) {
                matching.push(row.duplicate());
            }
            proof {
                reveal(Seq::filter);
                let full = self@;
                assert(full.take(i + 1).drop_last() =~= full.take(i as int));
                assert(full.take(i + 1).last() == full[i as int]);
            }
            i = i + 1;
        }
        proof {
            assert(self@.take(n as int) =~= self@);
        }
        matching
    }
}

/// Toggling a record twice returns its done flag to where it began: the
/// first write stores the negation, the second — computed from the
/// refreshed value — stores the negation of that.
pub proof fn lemma_toggle_twice(
    rows: Seq<RowView>,
    id: Seq<char>,
    d: bool,
    stamp1: Seq<char>,
    stamp2: Seq<char>,
)
    ensures
        ({
            let twice = done_patched(done_patched(rows, id, !d, stamp1), id, !!d, stamp2);
            &&& twice.len() == rows.len()
            &&& forall|j: int|
                0 <= j < rows.len() && rows[j].id == id ==> (#[trigger] twice[j]) == RowView {
                    done: d,
                    updated_at: stamp2,
                    ..rows[j]
                }
            &&& forall|j: int|
                0 <= j < rows.len() && rows[j].id != id ==> (#[trigger] twice[j]) == rows[j]
        }),
{
}

} // verus!
