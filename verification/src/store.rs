//! The blob store: a table of `(id, bytes, mimetype)` rows held in memory,
//! with insert-by-id, fetch-by-id and delete-by-id.  The table is modelled
//! as a sequence of row models; lookups find the first (and, under the
//! well-formedness invariant, only) row with a given id.

use vstd::prelude::*;
use crate::strutil::starts_with;

verus! {

/// One persisted image.
pub struct ImageRow {
    pub id: String,
    pub bytes: Vec<u8>,
    pub mimetype: String,
}

/// Mathematical model of one row.
pub struct RowModel {
    pub id: Seq<char>,
    pub bytes: Seq<u8>,
    pub mimetype: Seq<char>,
}

impl View for ImageRow {
    type V = RowModel;

    open spec fn view(&self) -> RowModel {
        RowModel { id: self.id@, bytes: self.bytes@, mimetype: self.mimetype@ }
    }
}

/// The store; its model is the sequence of row models.
pub struct ImageStore {
    rows: Vec<ImageRow>,
}

impl View for ImageStore {
    type V = Seq<RowModel>;

    closed spec fn view(&self) -> Seq<RowModel> {
        self.rows@.map_values(|r: ImageRow| r@)
    }
}

/// First row with the given id, searching from position `i`.
pub open spec fn lookup_from(rows: Seq<RowModel>, id: Seq<char>, i: int) -> Option<RowModel>
    decreases rows.len() - i,
{
    if i < 0 || i >= rows.len() {
        None
    } else if rows[i].id == id {
        Some(rows[i])
    } else {
        lookup_from(rows, id, i + 1)
    }
}

/// First row with the given id, if any.
pub open spec fn lookup(rows: Seq<RowModel>, id: Seq<char>) -> Option<RowModel> {
    lookup_from(rows, id, 0)
}

/// The rows with the first occurrence of the given id taken out.
pub open spec fn remove_row(rows: Seq<RowModel>, id: Seq<char>) -> Seq<RowModel>
    decreases rows.len(),
{
    if rows.len() == 0 {
        rows
    } else if rows[0].id == id {
        rows.drop_first()
    } else {
        seq![rows[0]] + remove_row(rows.drop_first(), id)
    }
}

/// No two rows share an id.
pub open spec fn ids_distinct(rows: Seq<RowModel>) -> bool {
    forall|i: int, j: int| 0 <= i < j < rows.len()
        ==> (#[trigger] rows[i]).id != (#[trigger] rows[j]).id
}

/// Every persisted row carries a non-empty payload and an `image/` mimetype.
pub open spec fn rows_wf(rows: Seq<RowModel>) -> bool {
    &&& ids_distinct(rows)
    &&& forall|i: int| 0 <= i < rows.len() ==> (#[trigger] rows[i]).bytes.len() > 0
    &&& forall|i: int| 0 <= i < rows.len() ==> starts_with((#[trigger] rows[i]).mimetype, "image/"@)
}

/// A found row is a row of the table, with the id it was looked up under.
pub proof fn lemma_lookup_found(rows: Seq<RowModel>, id: Seq<char>, i: int)
    requires
        lookup_from(rows, id, i).is_some(),
        0 <= i,
    ensures
        exists|k: int| i <= k < rows.len() && rows[k] == lookup_from(rows, id, i).unwrap(),
        lookup_from(rows, id, i).unwrap().id == id,
    decreases rows.len() - i,
{
    if i < rows.len() && rows[i].id != id {
        lemma_lookup_found(rows, id, i + 1);
    }
}

/// Appending a fresh row leaves other lookups unchanged and makes the new
/// id found.
pub proof fn lemma_lookup_push(rows: Seq<RowModel>, row: RowModel, x: Seq<char>, i: int)
    requires
        0 <= i <= rows.len(),
    ensures
        lookup_from(rows.push(row), x, i) == if lookup_from(rows, x, i).is_some() {
            lookup_from(rows, x, i)
        } else if row.id == x {
            Some(row)
        } else {
            None::<RowModel>
        },
    decreases rows.len() - i,
{
    reveal_with_fuel(lookup_from, 3);
    if i < rows.len() {
        assert(rows.push(row)[i] == rows[i]);
        lemma_lookup_push(rows, row, x, i + 1);
    } else {
        assert(rows.push(row)[i] == row);
    }
}

/// Removing an id (under distinctness) empties its lookup and leaves every
/// other lookup unchanged.
pub proof fn lemma_lookup_remove(rows: Seq<RowModel>, id: Seq<char>, x: Seq<char>)
    requires
        ids_distinct(rows),
    ensures
        lookup(remove_row(rows, id), x) == if x == id {
            None::<RowModel>
        } else {
            lookup(rows, x)
        },
    decreases rows.len(),
{
    reveal_with_fuel(lookup_from, 2);
    if rows.len() == 0 {
    } else if rows[0].id == id {
        lemma_lookup_drop_first(rows, x);
        if x == id {
            if lookup(rows.drop_first(), x).is_some() {
                lemma_lookup_found(rows.drop_first(), x, 0);
                let k = choose|k: int| 0 <= k < rows.drop_first().len()
                    && rows.drop_first()[k] == lookup(rows.drop_first(), x).unwrap();
                assert(rows[k + 1] == rows.drop_first()[k]);
                assert(false);
            }
        }
    } else {
        let d = rows.drop_first();
        assert(ids_distinct(d)) by {
            assert(forall|i: int, j: int| 0 <= i < j < d.len()
                ==> d[i] == rows[i + 1] && d[j] == rows[j + 1]);
        }
        lemma_lookup_remove(d, id, x);
        let r = seq![rows[0]] + remove_row(d, id);
        assert(r[0] == rows[0]);
        assert(r.drop_first() =~= remove_row(d, id));
        lemma_lookup_drop_first(r, x);
        lemma_lookup_drop_first(rows, x);
    }
}

/// Unfolding one step of `lookup`.
pub proof fn lemma_lookup_drop_first(rows: Seq<RowModel>, x: Seq<char>)
    requires
        rows.len() > 0,
    ensures
        lookup(rows, x) == if rows[0].id == x {
            Some(rows[0])
        } else {
            lookup(rows.drop_first(), x)
        },
    decreases rows.len(),
{
    if rows[0].id != x {
        lemma_lookup_shift(rows, x, 1);
    }
}

/// Searching `rows` from `i + 1` is searching `rows.drop_first()` from `i`.
proof fn lemma_lookup_shift(rows: Seq<RowModel>, x: Seq<char>, i: int)
    requires
        1 <= i <= rows.len(),
    ensures
        lookup_from(rows, x, i) == lookup_from(rows.drop_first(), x, i - 1),
    decreases rows.len() - i,
{
    if i < rows.len() {
        assert(rows.drop_first()[i - 1] == rows[i]);
        lemma_lookup_shift(rows, x, i + 1);
    }
}

/// Distinctness and row validity survive appending a fresh, valid row.
pub proof fn lemma_wf_push(rows: Seq<RowModel>, row: RowModel)
    requires
        rows_wf(rows),
        lookup(rows, row.id).is_none(),
        row.bytes.len() > 0,
        starts_with(row.mimetype, "image/"@),
    ensures
        rows_wf(rows.push(row)),
{
    let r = rows.push(row);
    assert forall|i: int, j: int| 0 <= i < j < r.len() implies
        (#[trigger] r[i]).id != (#[trigger] r[j]).id by {
        if j == rows.len() {
            lemma_lookup_none_no_row(rows, row.id, i);
        }
    }
    assert(forall|i: int| 0 <= i < rows.len() ==> r[i] == rows[i]);
}

/// If a lookup misses, no row from `i` on bears that id.
proof fn lemma_lookup_none_no_row(rows: Seq<RowModel>, id: Seq<char>, i: int)
    requires
        lookup(rows, id).is_none(),
        0 <= i < rows.len(),
    ensures
        rows[i].id != id,
    decreases i,
{
    lemma_lookup_none_from(rows, id, 0, i);
}

proof fn lemma_lookup_none_from(rows: Seq<RowModel>, id: Seq<char>, j: int, i: int)
    requires
        lookup_from(rows, id, j).is_none(),
        0 <= j <= i < rows.len(),
    ensures
        rows[i].id != id,
    decreases i - j,
{
    if j < i {
        lemma_lookup_none_from(rows, id, j + 1, i);
    }
}

/// Well-formedness survives removing a row.
pub proof fn lemma_wf_remove(rows: Seq<RowModel>, id: Seq<char>)
    requires
        rows_wf(rows),
    ensures
        rows_wf(remove_row(rows, id)),
    decreases rows.len(),
{
    if rows.len() == 0 {
    } else if rows[0].id == id {
        assert(forall|i: int| 0 <= i < rows.drop_first().len()
            ==> #[trigger] rows.drop_first()[i] == rows[i + 1]);
    } else {
        let d = rows.drop_first();
        assert(forall|i: int| 0 <= i < d.len() ==> #[trigger] d[i] == rows[i + 1]);
        lemma_wf_remove(d, id);
        let r = seq![rows[0]] + remove_row(d, id);
        lemma_remove_subset(d, id);
        assert forall|i: int, j: int| 0 <= i < j < r.len() implies
            (#[trigger] r[i]).id != (#[trigger] r[j]).id by {
            if i == 0 {
                let rd = remove_row(d, id);
                assert(r[j] == rd[j - 1]);
                let k = choose|k: int| 0 <= k < d.len() && d[k] == rd[j - 1];
                assert(rows[k + 1] == d[k]);
            } else {
                assert(r[i] == remove_row(d, id)[i - 1]);
                assert(r[j] == remove_row(d, id)[j - 1]);
            }
        }
        assert forall|i: int| 0 <= i < r.len() implies (#[trigger] r[i]).bytes.len() > 0
            && starts_with(r[i].mimetype, "image/"@) by {
            if i > 0 {
                let rd = remove_row(d, id);
                assert(r[i] == rd[i - 1]);
                let k = choose|k: int| 0 <= k < d.len() && d[k] == rd[i - 1];
                assert(rows[k + 1] == d[k]);
            }
        }
    }
}

/// Every row that survives a removal was a row before it.
proof fn lemma_remove_subset(rows: Seq<RowModel>, id: Seq<char>)
    ensures
        forall|i: int| 0 <= i < remove_row(rows, id).len()
            ==> exists|k: int| 0 <= k < rows.len()
                && rows[k] == #[trigger] remove_row(rows, id)[i],
    decreases rows.len(),
{
    if rows.len() == 0 {
    } else if rows[0].id == id {
        assert forall|i: int| 0 <= i < remove_row(rows, id).len() implies
            exists|k: int| 0 <= k < rows.len()
                && rows[k] == #[trigger] remove_row(rows, id)[i] by {
            assert(rows[i + 1] == rows.drop_first()[i]);
        }
    } else {
        let d = rows.drop_first();
        lemma_remove_subset(d, id);
        let r = seq![rows[0]] + remove_row(d, id);
        assert forall|i: int| 0 <= i < r.len() implies
            exists|k: int| 0 <= k < rows.len() && rows[k] == #[trigger] r[i] by {
            if i == 0 {
                assert(rows[0] == r[0]);
            } else {
                assert(r[i] == remove_row(d, id)[i - 1]);
                let k = choose|k: int| 0 <= k < d.len() && d[k] == remove_row(d, id)[i - 1];
                assert(rows[k + 1] == d[k]);
            }
        }
    }
}

impl ImageStore {
    /// An empty table.
    pub fn new() -> (r: ImageStore)
        ensures
            r@ == Seq::<RowModel>::empty(),
            rows_wf(r@),
    {
        let r = ImageStore { rows: Vec::new() };
        proof {
            assert(r@ =~= Seq::<RowModel>::empty());
        }
        r
    }

    /// Number of rows held.
    pub fn len(&self) -> (r: usize)
        ensures
            r == self@.len(),
    {
        self.rows.len()
    }

    /// The row stored under `id`, if any.
    pub fn fetch(&self, id: &str) -> (r: Option<&ImageRow>)
        ensures
            match r {
                Some(row) => lookup(self@, id@) == Some(row@),
                None => lookup(self@, id@).is_none(),
            },
    {
        let n: usize = self.rows.len();
        let mut i: usize = 0;
        while i < n
            invariant
                n == self.rows.len(),
                i <= n,
                lookup(self@, id@) == lookup_from(self@, id@, i as int),
            decreases n - i,
        {
            if crate::strutil::str_eq(self.rows[i].id.as_str(), id) {
                return Some(&self.rows[i]);
            }
            i = i + 1;
        }
        None
    }

    /// Insert a row under a fresh id; refuse a duplicate id and leave the
    /// table unchanged in that case.
    pub fn insert(&mut self, row: ImageRow) -> (r: bool)
        ensures
            r == lookup(old(self)@, row@.id).is_none(),
            final(self)@ == if r {
                old(self)@.push(row@)
            } else {
                old(self)@
            },
    {
        if self.fetch(row.id.as_str()).is_some() {
            return false;
        }
        proof {
            assert(self@.push(row@) =~= self.rows@.push(row).map_values(|r: ImageRow| r@));
        }
        self.rows.push(row);
        true
    }

    /// Delete the row under `id`; deleting a missing id is a no-op.
    pub fn delete(&mut self, id: &str)
        ensures
            final(self)@ == remove_row(old(self)@, id@),
    {
        let n: usize = self.rows.len();
        let mut i: usize = 0;
        while i < n
            invariant
                *self == *old(self),
                n == self.rows.len(),
                i <= n,
                forall|j: int| 0 <= j < i ==> (#[trigger] self@[j]).id != id@,
            decreases n - i,
        {
            if crate::strutil::str_eq(self.rows[i].id.as_str(), id) {
                proof {
                    lemma_remove_at(self@, id@, i as int);
                }
                self.rows.remove(i);
                proof {
                    assert(self.rows@.map_values(|r: ImageRow| r@)
                        =~= old(self).rows@.map_values(|r: ImageRow| r@).remove(i as int));
                }
                return;
            }
            i = i + 1;
        }
        proof {
            lemma_remove_none(self@, id@);
        }
    }
}

/// When position `i` holds the first row with `id`, removal is deletion at `i`.
proof fn lemma_remove_at(rows: Seq<RowModel>, id: Seq<char>, i: int)
    requires
        0 <= i < rows.len(),
        rows[i].id == id,
        forall|j: int| 0 <= j < i ==> (#[trigger] rows[j]).id != id,
    ensures
        remove_row(rows, id) == rows.remove(i),
    decreases i,
{
    if i == 0 {
        assert(remove_row(rows, id) =~= rows.remove(0));
    } else {
        let d = rows.drop_first();
        assert(forall|j: int| 0 <= j < d.len() ==> #[trigger] d[j] == rows[j + 1]);
        lemma_remove_at(d, id, i - 1);
        assert(remove_row(rows, id) == seq![rows[0]] + d.remove(i - 1));
        assert(seq![rows[0]] + d.remove(i - 1) =~= rows.remove(i));
    }
}

/// Removing an id that no row bears changes nothing.
proof fn lemma_remove_none(rows: Seq<RowModel>, id: Seq<char>)
    requires
        forall|j: int| 0 <= j < rows.len() ==> (#[trigger] rows[j]).id != id,
    ensures
        remove_row(rows, id) == rows,
    decreases rows.len(),
{
    if rows.len() > 0 {
        let d = rows.drop_first();
        assert(forall|j: int| 0 <= j < d.len() ==> #[trigger] d[j] == rows[j + 1]);
        lemma_remove_none(d, id);
        assert(seq![rows[0]] + d =~= rows);
    }
}

} // verus!
