//! The movie record, its status codes, and an in-memory movie table that
//! realises the repository's query contracts: rows ordered by ascending id,
//! ids assigned once and never reused, prefix search, full-row update that
//! silently skips a missing id, and delete reporting the rows affected.

use vstd::prelude::*;
use vstd::string::StringExecFns;
use crate::text::is_prefix_of;
use crate::text::str_eq;
use crate::text::str_starts_with;

verus! {

/// Lifecycle stage of a movie record.
#[allow(non_camel_case_types)]
pub enum Status {
    PREPARE,
    ON,
    OFF,
}

/// Code stored for each lifecycle stage.
pub open spec fn status_code_view(s: Status) -> Seq<char> {
    match s {
        Status::PREPARE => "0"@,
        Status::ON => "1"@,
        Status::OFF => "99"@,
    }
}

/// Display label of each lifecycle stage.
pub open spec fn status_label_view(s: Status) -> Seq<char> {
    match s {
        Status::PREPARE => "not yet released"@,
        Status::ON => "released"@,
        Status::OFF => "withdrawn"@,
    }
}

/// Display label of a stored status code; an unknown code is shown unchanged.
pub open spec fn status_label(code: Seq<char>) -> Seq<char> {
    if code == "0"@ {
        "not yet released"@
    } else if code == "1"@ {
        "released"@
    } else if code == "99"@ {
        "withdrawn"@
    } else {
        code
    }
}

impl Status {
    /// The code under which this stage is stored.
    pub fn to_code(&self) -> (r: String)
        ensures
            r@ == status_code_view(*self),
    {
        match self {
            Status::PREPARE => String::from_str("0"),
            Status::ON => String::from_str("1"),
            Status::OFF => String::from_str("99"),
        }
    }

    /// The label under which this stage is displayed.
    pub fn to_status(&self) -> (r: String)
        ensures
            r@ == status_label_view(*self),
    {
        match self {
            Status::PREPARE => String::from_str("not yet released"),
            Status::ON => String::from_str("released"),
            Status::OFF => String::from_str("withdrawn"),
        }
    }

    /// The display label of a stored code; an unknown code passes through.
    pub fn to_status_string(code: String) -> (r: String)
        ensures
            r@ == status_label(code@),
    {
        if str_eq(code.as_str(), "0") {
            String::from_str("not yet released")
        } else if str_eq(code.as_str(), "1") {
            String::from_str("released")
        } else if str_eq(code.as_str(), "99") {
            String::from_str("withdrawn")
        } else {
            code
        }
    }
}

/// A movie row. Fields are optional so that a not-yet-persisted record and
/// a persisted one are told apart at the type level: the store assigns `id`
/// and `created_at` stays from the insert, while `updated_at` is absent
/// until the first update.
pub struct Movie {
    pub id: Option<i32>,
    pub name: Option<String>,
    pub status: Option<String>,
    pub description: Option<String>,
    pub created_at: Option<u64>,
    pub updated_at: Option<u64>,
}

/// Mathematical image of a movie row.
pub ghost struct MovieView {
    pub id: Option<i32>,
    pub name: Option<Seq<char>>,
    pub status: Option<Seq<char>>,
    pub description: Option<Seq<char>>,
    pub created_at: Option<u64>,
    pub updated_at: Option<u64>,
}

impl View for Movie {
    type V = MovieView;

    open spec fn view(&self) -> MovieView {
        MovieView {
            id: self.id,
            name: self.name.deep_view(),
            status: self.status.deep_view(),
            description: self.description.deep_view(),
            created_at: self.created_at,
            updated_at: self.updated_at,
        }
    }
}

impl DeepView for Movie {
    type V = MovieView;

    open spec fn deep_view(&self) -> MovieView {
        self.view()
    }
}

impl Clone for Movie {
    fn clone(&self) -> (res: Self)
        ensures
            res == *self,
    {
        Movie {
            id: self.id,
            name: match &self.name {
                Some(s) => Some(s.clone()),
                None => None,
            },
            status: match &self.status {
                Some(s) => Some(s.clone()),
                None => None,
            },
            description: match &self.description {
                Some(s) => Some(s.clone()),
                None => None,
            },
            created_at: self.created_at,
            updated_at: self.updated_at,
        }
    }
}

/// A stored row always carries an id of at least one, a name, a status, a
/// description and its insertion time.
pub open spec fn row_wf(m: MovieView) -> bool {
    &&& m.id is Some
    &&& 1 <= m.id.unwrap()
    &&& m.name is Some
    &&& m.status is Some
    &&& m.description is Some
    &&& m.created_at is Some
}

/// Position of the first row holding `id`.
pub open spec fn find_index(rows: Seq<MovieView>, id: i32) -> Option<int>
    decreases rows.len(),
{
    if rows.len() == 0 {
        None
    } else if rows[0].id == Some(id) {
        Some(0)
    } else {
        match find_index(rows.subrange(1, rows.len() as int), id) {
            Some(i) => Some(i + 1),
            None => None,
        }
    }
}

/// The first row holding `id`, if any.
pub open spec fn find_row(rows: Seq<MovieView>, id: i32) -> Option<MovieView> {
    match find_index(rows, id) {
        Some(i) => Some(rows[i]),
        None => None,
    }
}

/// When the first `k` rows do not hold `id`, the search outcome is decided
/// by what stands at position `k`.
pub proof fn lemma_find_index_after(rows: Seq<MovieView>, id: i32, k: int)
    requires
        0 <= k <= rows.len(),
        forall|j: int| 0 <= j < k ==> (#[trigger] rows[j]).id != Some(id),
    ensures
        k == rows.len() ==> find_index(rows, id) is None,
        k < rows.len() && rows[k].id == Some(id) ==> find_index(rows, id) == Some(k),
    decreases k, rows.len(),
{
    if k == 0 {
    } else {
        let tail = rows.subrange(1, rows.len() as int);
        assert(rows[0].id != Some(id));
        assert forall|j: int| 0 <= j < k - 1 implies (#[trigger] tail[j]).id != Some(id) by {
            assert(tail[j] == rows[j + 1]);
        }
        lemma_find_index_after(tail, id, k - 1);
        if k < rows.len() && rows[k].id == Some(id) {
            assert(tail[k - 1] == rows[k]);
        }
    }
}

/// The row as it stands after an update request `m`: a full overwrite of
/// name, status, description and update time on the row whose id matches,
/// keeping id and insertion time.
pub open spec fn apply_update(row: MovieView, m: MovieView) -> MovieView {
    if row.id == m.id {
        MovieView { name: m.name, status: m.status, description: m.description, updated_at: m.updated_at, ..row }
    } else {
        row
    }
}

/// The table contents after an update request `m`.
pub open spec fn updated_rows(rows: Seq<MovieView>, m: MovieView) -> Seq<MovieView> {
    rows.map_values(|r: MovieView| apply_update(r, m))
}

/// The table contents after deleting `id`.
pub open spec fn delete_rows(rows: Seq<MovieView>, id: i32) -> Seq<MovieView> {
    match find_index(rows, id) {
        Some(i) => rows.remove(i),
        None => rows,
    }
}

/// How many rows deleting `id` affects.
pub open spec fn delete_count(rows: Seq<MovieView>, id: i32) -> u64 {
    if find_index(rows, id) is Some {
        1
    } else {
        0
    }
}

/// A row with an assigned id in place of whatever the record carried.
pub open spec fn with_id(m: MovieView, id: i32) -> MovieView {
    MovieView { id: Some(id), ..m }
}

/// The prefix-match predicate of the name search. A row without a name
/// matches nothing, as a null column matches no pattern.
pub open spec fn name_matches(m: MovieView, p: Seq<char>) -> bool {
    m.name is Some && is_prefix_of(p, m.name.unwrap())
}

/// The name-search predicate for the prefix `p`.
pub open spec fn prefix_pred(p: Seq<char>) -> spec_fn(MovieView) -> bool {
    |m: MovieView| name_matches(m, p)
}

/// The movie table: rows in ascending id order, and the id the next insert
/// will be assigned.
pub struct MovieTable {
    rows: Vec<Movie>,
    next_id: i32,
}

impl View for MovieTable {
    type V = Seq<MovieView>;

    closed spec fn view(&self) -> Seq<MovieView> {
        self.rows.deep_view()
    }
}

impl MovieTable {
    /// Rows are well formed, ids strictly ascend, and every id is below the
    /// next one to be assigned.
    pub closed spec fn wf(self) -> bool {
        &&& forall|i: int| 0 <= i < self@.len() ==> row_wf(#[trigger] self@[i])
        &&& forall|i: int, j: int|
            0 <= i < j < self@.len() ==> (#[trigger] self@[i]).id.unwrap() < (
            #[trigger] self@[j]).id.unwrap()
        &&& forall|i: int| 0 <= i < self@.len() ==> (#[trigger] self@[i]).id.unwrap() < self.next_id
        &&& 1 <= self.next_id
    }

    /// The id the next insert will be assigned.
    pub closed spec fn spec_next_id(self) -> int {
        self.next_id as int
    }

    /// Whether another id can still be assigned.
    pub open spec fn can_assign_id(self) -> bool {
        self.spec_next_id() < i32::MAX as int
    }

    /// An empty table.
    pub fn new() -> (t: MovieTable)
        ensures
            t.wf(),
            t@ == Seq::<MovieView>::empty(),
            t.spec_next_id() == 1,
    {
        let t = MovieTable { rows: Vec::new(), next_id: 1 };
        proof {
            assert(t@ =~= Seq::<MovieView>::empty());
        }
        t
    }

    /// Whether another id can still be assigned, for callers outside proofs.
    pub fn has_capacity(&self) -> (r: bool)
        ensures
            r == self.can_assign_id(),
    {
        self.next_id < i32::MAX
    }

    /// Number of stored rows.
    pub fn len(&self) -> (n: usize)
        ensures
            n == self@.len(),
    {
        self.rows.len()
    }
}

/// All rows, in ascending id order.
pub fn find_all(table: &MovieTable) -> (r: Vec<Movie>)
    ensures
        r.deep_view() == table@,
{
    let mut out: Vec<Movie> = Vec::new();
    let n = table.rows.len();
    let mut i: usize = 0;
    while i < n
        invariant
            n == table.rows.len(),
            i <= n,
            out@.len() == i,
            forall|j: int| 0 <= j < i ==> out.deep_view()[j] == table@[j],
        decreases n - i,
    {
        let m = table.rows[i].clone();
        let ghost out0 = out;
        out.push(m);
        proof {
            assert forall|j: int| 0 <= j < i as int + 1 implies out.deep_view()[j] == table@[j] by {
                if j < i as int {
                    assert(out@[j] == out0@[j]);
                    assert(out0.deep_view()[j] == out0@[j].deep_view());
                } else {
                    assert(out@[j] == m);
                }
                assert(out.deep_view()[j] == out@[j].deep_view());
            }
        }
        i += 1;
    }
    proof {
        assert(out.deep_view() =~= table@);
    }
    out
}

/// The rows whose name starts with `name`, in ascending id order.
pub fn find_by_name(table: &MovieTable, name: String) -> (r: Vec<Movie>)
    requires
        table.wf(),
    ensures
        r.deep_view() == table@.filter(prefix_pred(name@)),
        forall|i: int| 0 <= i < r.deep_view().len() ==> row_wf(#[trigger] r.deep_view()[i]),
{
    let mut out: Vec<Movie> = Vec::new();
    let n = table.rows.len();
    let mut i: usize = 0;
    while i < n
        invariant
            table.wf(),
            n == table.rows.len(),
            i <= n,
            out.deep_view() == table@.subrange(0, i as int).filter(prefix_pred(name@)),
            forall|j: int| 0 <= j < out.deep_view().len() ==> row_wf(#[trigger] out.deep_view()[j]),
        decreases n - i,
    {
        let matches = match &table.rows[i].name {
            Some(s) => str_starts_with(s.as_str(), name.as_str()),
            None => false,
        };
        proof {
            let pred = prefix_pred(name@);
            let prev = table@.subrange(0, i as int);
            let cur = table@.subrange(0, i as int + 1);
            assert(cur.drop_last() =~= prev);
            assert(cur.drop_last() == prev);
            assert(cur.last() == table@[i as int]);
            assert(matches == name_matches(table@[i as int], name@));
            assert(pred(cur.last()) == name_matches(table@[i as int], name@));
            assert(row_wf(table@[i as int]));
            reveal_with_fuel(Seq::<_>::filter, 2);
            if matches {
                assert(cur.filter(pred) == prev.filter(pred).push(table@[i as int]));
            } else {
                assert(cur.filter(pred) == prev.filter(pred));
            }
        }
        if matches {
            let m = table.rows[i].clone();
            let ghost out0 = out;
            out.push(m);
            proof {
                let pred = prefix_pred(name@);
                let cur = table@.subrange(0, i as int + 1);
                assert(out.deep_view() =~= out0.deep_view().push(table@[i as int]));
                assert(out.deep_view() =~= cur.filter(pred));
                assert forall|j: int| 0 <= j < out.deep_view().len() implies row_wf(
                    #[trigger] out.deep_view()[j],
                ) by {
                    if j < out0.deep_view().len() {
                        assert(out.deep_view()[j] == out0.deep_view()[j]);
                    }
                }
            }
        }
        i += 1;
    }
    proof {
        assert(table@.subrange(0, n as int) =~= table@);
    }
    out
}

/// The row holding `id`, if any.
pub fn find_by_id(table: &MovieTable, id: i32) -> (r: Option<Movie>)
    ensures
        r.deep_view() == find_row(table@, id),
{
    let n = table.rows.len();
    let mut i: usize = 0;
    while i < n
        invariant
            n == table.rows.len(),
            i <= n,
            forall|j: int| 0 <= j < i ==> (#[trigger] table@[j]).id != Some(id),
        decreases n - i,
    {
        let rid = table.rows[i].id;
        let hit = match rid {
            Some(v) => v == id,
            None => false,
        };
        if hit {
            proof {
                lemma_find_index_after(table@, id, i as int);
            }
            return Some(table.rows[i].clone());
        }
        i += 1;
    }
    proof {
        lemma_find_index_after(table@, id, n as int);
    }
    None
}

/// Stores a new record: the table assigns the next id and keeps the
/// record's fields, insertion time included, as a new last row.
pub fn insert(table: &mut MovieTable, movie: Movie)
    requires
        old(table).wf(),
        old(table).can_assign_id(),
        movie.id is None,
        movie.name is Some,
        movie.status is Some,
        movie.description is Some,
        movie.created_at is Some,
        movie.updated_at is None,
    ensures
        final(table).wf(),
        final(table)@ == old(table)@.push(with_id(movie@, old(table).spec_next_id() as i32)),
        final(table).spec_next_id() == old(table).spec_next_id() + 1,
        forall|i: int|
            0 <= i < old(table)@.len() ==> (#[trigger] old(table)@[i]).id.unwrap() < old(
                table,
            ).spec_next_id(),
{
    let id = table.next_id;
    table.next_id = table.next_id + 1;
    let row = Movie {
        id: Some(id),
        name: movie.name,
        status: movie.status,
        description: movie.description,
        created_at: movie.created_at,
        updated_at: movie.updated_at,
    };
    table.rows.push(row);
    proof {
        assert(table@ =~= old(table)@.push(with_id(movie@, id)));
        assert forall|i: int, j: int| 0 <= i < j < table@.len() implies (
        #[trigger] table@[i]).id.unwrap() < (#[trigger] table@[j]).id.unwrap() by {
            if j < table@.len() - 1 {
                assert(table@[i] == old(table)@[i]);
                assert(table@[j] == old(table)@[j]);
            } else {
                assert(table@[i] == old(table)@[i]);
                assert(table@[j].id == Some(id));
            }
        }
    }
}

/// Overwrites name, status, description and update time of the row whose
/// id matches the record's; a missing id changes nothing.
pub fn update(table: &mut MovieTable, movie: Movie)
    requires
        old(table).wf(),
        movie.id is Some,
        movie.name is Some,
        movie.status is Some,
        movie.description is Some,
        movie.created_at is None,
        movie.updated_at is Some,
    ensures
        final(table).wf(),
        final(table)@ == updated_rows(old(table)@, movie@),
        final(table).spec_next_id() == old(table).spec_next_id(),
{
    let target = movie.id.unwrap();
    let n = table.rows.len();
    let mut i: usize = 0;
    let mut at: usize = 0;
    let mut found = false;
    while i < n && !found
        invariant
            *table == *old(table),
            old(table).wf(),
            movie.id is Some,
            target == movie.id.unwrap(),
            n == table.rows.len(),
            i <= n,
            found ==> i < n && at == i && table@[at as int].id == Some(target),
            forall|j: int| 0 <= j < i ==> (#[trigger] table@[j]).id != Some(target),
        decreases n - i + (if found { 0int } else { 1int }),
    {
        let rid = table.rows[i].id;
        let hit = match rid {
            Some(v) => v == target,
            None => false,
        };
        if hit {
            at = i;
            found = true;
        } else {
            i += 1;
        }
    }
    proof {
        if found {
            // ids strictly ascend, so no row other than `at` holds the target id
            assert forall|j: int|
                0 <= j < table@.len() && j != at as int implies (#[trigger] table@[j]).id != Some(
                target,
            ) by {
                if j < at as int {
                    assert(table@[j].id.unwrap() < table@[at as int].id.unwrap());
                } else {
                    assert(table@[at as int].id.unwrap() < table@[j].id.unwrap());
                }
                assert(row_wf(table@[j]));
            }
        }
    }
    if found {
        let old_row = table.rows.remove(at);
        let new_row = Movie {
            id: old_row.id,
            name: movie.name,
            status: movie.status,
            description: movie.description,
            created_at: old_row.created_at,
            updated_at: movie.updated_at,
        };
        table.rows.insert(at, new_row);
        proof {
            assert(table.rows@ =~= old(table).rows@.update(at as int, new_row));
            assert forall|j: int| 0 <= j < table@.len() implies table@[j] == apply_update(
                #[trigger] old(table)@[j],
                movie@,
            ) by {
                assert(table@[j] == table.rows@[j].deep_view());
                if j == at as int {
                    assert(table.rows@[j] == new_row);
                } else {
                    assert(table.rows@[j] == old(table).rows@[j]);
                    assert(old(table)@[j].id != Some(target));
                }
            }
            assert(table@ =~= updated_rows(old(table)@, movie@));
            lemma_update_preserves_wf(*old(table), *table, movie@);
        }
    } else {
        proof {
            assert forall|j: int| 0 <= j < table@.len() implies table@[j] == apply_update(
                #[trigger] old(table)@[j],
                movie@,
            ) by {
                assert(old(table)@[j].id != Some(target));
            }
            assert(table@ =~= updated_rows(old(table)@, movie@));
        }
    }
}

/// An update keeps every id and the insertion times, so the table stays
/// well formed.
proof fn lemma_update_preserves_wf(t0: MovieTable, t1: MovieTable, m: MovieView)
    requires
        t0.wf(),
        t1@ == updated_rows(t0@, m),
        t1.spec_next_id() == t0.spec_next_id(),
        m.name is Some,
        m.status is Some,
        m.description is Some,
    ensures
        t1.wf(),
{
    assert forall|j: int|
        0 <= j < t1@.len() implies row_wf(#[trigger] t1@[j]) && t1@[j].id == t0@[j].id by {
        assert(t1@[j] == apply_update(t0@[j], m));
        assert(row_wf(t0@[j]));
    }
    assert forall|a: int, b: int| 0 <= a < b < t1@.len() implies (#[trigger] t1@[a]).id.unwrap() < (
    #[trigger] t1@[b]).id.unwrap() by {
        assert(t1@[a].id == t0@[a].id);
        assert(t1@[b].id == t0@[b].id);
        assert(t0@[a].id.unwrap() < t0@[b].id.unwrap());
    }
}

/// Removes the row holding `id` and reports how many rows that affected:
/// one when the row existed, zero when it did not.
pub fn delete(table: &mut MovieTable, id: i32) -> (r: u64)
    requires
        old(table).wf(),
    ensures
        final(table).wf(),
        r == delete_count(old(table)@, id),
        final(table)@ == delete_rows(old(table)@, id),
        final(table).spec_next_id() == old(table).spec_next_id(),
{
    let n = table.rows.len();
    let mut i: usize = 0;
    while i < n
        invariant
            *table == *old(table),
            old(table).wf(),
            n == table.rows.len(),
            i <= n,
            forall|j: int| 0 <= j < i ==> (#[trigger] table@[j]).id != Some(id),
        decreases n - i,
    {
        let rid = table.rows[i].id;
        let hit = match rid {
            Some(v) => v == id,
            None => false,
        };
        if hit {
            proof {
                lemma_find_index_after(table@, id, i as int);
            }
            table.rows.remove(i);
            proof {
                assert(table@ =~= old(table)@.remove(i as int));
                assert forall|a: int, b: int| 0 <= a < b < table@.len() implies (
                #[trigger] table@[a]).id.unwrap() < (#[trigger] table@[b]).id.unwrap() by {
                    let ai = if a < i { a } else { a + 1 };
                    let bi = if b < i { b } else { b + 1 };
                    assert(table@[a] == old(table)@[ai]);
                    assert(table@[b] == old(table)@[bi]);
                }
                assert forall|a: int| 0 <= a < table@.len() implies row_wf(#[trigger] table@[a])
                    && table@[a].id.unwrap() < old(table).spec_next_id() by {
                    let ai = if a < i { a } else { a + 1 };
                    assert(table@[a] == old(table)@[ai]);
                }
            }
            return 1;
        }
        i += 1;
    }
    proof {
        lemma_find_index_after(table@, id, n as int);
    }
    0
}

/// Every row of a well-formed table is itself well formed.
pub proof fn lemma_wf_rows(t: MovieTable)
    requires
        t.wf(),
    ensures
        forall|i: int| 0 <= i < t@.len() ==> row_wf(#[trigger] t@[i]),
{
}

/// A found index lies in the table and the row there holds the id.
pub proof fn lemma_find_index_in_range(rows: Seq<MovieView>, id: i32)
    ensures
        find_index(rows, id) matches Some(i) ==> 0 <= i < rows.len() && rows[i].id == Some(id),
    decreases rows.len(),
{
    if rows.len() > 0 && rows[0].id != Some(id) {
        let tail = rows.subrange(1, rows.len() as int);
        lemma_find_index_in_range(tail, id);
    }
}

/// A freshly inserted row is found again under its assigned id, with the
/// same fields; fetching what was just stored gives it back.
pub proof fn lemma_insert_then_find(rows: Seq<MovieView>, m: MovieView)
    requires
        m.id is Some,
        forall|i: int| 0 <= i < rows.len() ==> (#[trigger] rows[i]).id != m.id,
    ensures
        find_row(rows.push(m), m.id.unwrap()) == Some(m),
{
    let all = rows.push(m);
    assert forall|j: int| 0 <= j < rows.len() implies (#[trigger] all[j]).id != Some(
        m.id.unwrap(),
    ) by {
        assert(all[j] == rows[j]);
    }
    lemma_find_index_after(all, m.id.unwrap(), rows.len() as int);
}

/// An update changes no id, so a fetch afterwards finds the same row as
/// before, with the overwrite applied: new name, status, description and
/// update time, the id and the insertion time kept. A fetch that found
/// nothing still finds nothing.
pub proof fn lemma_update_then_find(rows: Seq<MovieView>, m: MovieView, id: i32)
    ensures
        find_index(updated_rows(rows, m), id) == find_index(rows, id),
        find_row(rows, id) matches Some(r) ==> find_row(updated_rows(rows, m), id) == Some(
            apply_update(r, m),
        ),
        find_row(rows, id) is None ==> find_row(updated_rows(rows, m), id) is None,
    decreases rows.len(),
{
    let up = updated_rows(rows, m);
    assert(up.len() == rows.len());
    if rows.len() > 0 {
        assert(up[0] == apply_update(rows[0], m));
        assert(up[0].id == rows[0].id);
        if rows[0].id != Some(id) {
            let tail = rows.subrange(1, rows.len() as int);
            lemma_update_then_find(tail, m, id);
            assert(up.subrange(1, up.len() as int) =~= updated_rows(tail, m));
            lemma_find_index_in_range(rows, id);
            match find_index(rows, id) {
                Some(i) => {
                    assert(up[i] == apply_update(rows[i], m));
                },
                None => {},
            }
        }
    }
}

/// Deleting an id that no row holds reports zero affected rows and leaves
/// the table unchanged, so deleting it again does exactly the same.
pub proof fn lemma_delete_missing_twice(rows: Seq<MovieView>, id: i32)
    requires
        find_index(rows, id) is None,
    ensures
        delete_count(rows, id) == 0,
        delete_rows(rows, id) == rows,
        delete_count(delete_rows(rows, id), id) == 0,
        delete_rows(delete_rows(rows, id), id) == rows,
{
}

} // verus!
