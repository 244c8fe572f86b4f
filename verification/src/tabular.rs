//! The rows a catalog keeps of its tables and views, and what create,
//! commit, rename, drop and list do to them.

use crate::catalog::{DeletionDetails, Metadata, MetadataView};
use crate::error::ErrorKind;
use crate::flags::ListFlags;
use crate::ident::{NamespaceIdentUuid, WarehouseIdent};
use crate::tabular_idents::TabularIdentUuid;
use crate::text::text_of;
use vstd::prelude::*;

verus! {

/// Where a tabular stands in its life. A tabular that has expired has no row.
#[derive(Debug, Clone, Copy, PartialEq, Eq, Structural)]
pub enum TabularStatus {
    /// Created, no metadata file written yet.
    Staged,
    /// Has a current metadata file.
    Active,
    /// Dropped softly; waits for its expiration.
    SoftDeleted,
}

/// The row of a table or a view.
#[derive(Debug, Clone)]
pub struct Tabular {
    pub tabular_id: TabularIdentUuid,
    pub warehouse_id: WarehouseIdent,
    pub namespace_id: NamespaceIdentUuid,
    pub name: String,
    pub metadata_location: Option<String>,
    pub storage_location: String,
    pub metadata: Metadata,
    pub status: TabularStatus,
    pub created_at: i64,
    pub deletion: Option<DeletionDetails>,
}

/// What a row holds, as plain values.
pub struct TabularView {
    pub tabular_id: TabularIdentUuid,
    pub warehouse_id: WarehouseIdent,
    pub namespace_id: NamespaceIdentUuid,
    pub name: Seq<char>,
    pub metadata_location: Option<Seq<char>>,
    pub storage_location: Seq<char>,
    pub metadata: MetadataView,
    pub status: TabularStatus,
    pub created_at: i64,
    pub deletion: Option<DeletionDetails>,
}

impl View for Tabular {
    type V = TabularView;

    open spec fn view(&self) -> TabularView {
        TabularView {
            tabular_id: self.tabular_id,
            warehouse_id: self.warehouse_id,
            namespace_id: self.namespace_id,
            name: self.name@,
            metadata_location: text_of(self.metadata_location),
            storage_location: self.storage_location@,
            metadata: self.metadata@,
            status: self.status,
            created_at: self.created_at,
            deletion: self.deletion,
        }
    }
}

/// Whether a row counts for the uniqueness of names: it is not soft-deleted.
pub open spec fn is_live(t: TabularView) -> bool {
    t.status != TabularStatus::SoftDeleted
}

/// Whether a row goes by the given name: warehouse, namespace, kind (table
/// or view) and name.
pub open spec fn has_name(
    t: TabularView,
    warehouse_id: WarehouseIdent,
    namespace_id: NamespaceIdentUuid,
    table: bool,
    name: Seq<char>,
) -> bool {
    &&& t.warehouse_id == warehouse_id
    &&& t.namespace_id == namespace_id
    &&& (t.tabular_id is Table) == table
    &&& t.name == name
}

/// Whether two rows go by the same name.
pub open spec fn names_alike(a: TabularView, b: TabularView) -> bool {
    has_name(a, b.warehouse_id, b.namespace_id, b.tabular_id is Table, b.name)
}

/// What holds of every row: a staged tabular has no metadata file, an active
/// one has one, and the details of the deletion are there exactly for a
/// soft-deleted one.
pub open spec fn valid_row(t: TabularView) -> bool {
    &&& t.status == TabularStatus::Staged ==> t.metadata_location is None
    &&& t.status == TabularStatus::Active ==> t.metadata_location is Some
    &&& t.status == TabularStatus::SoftDeleted <==> t.deletion is Some
}

/// What holds of the rows of a catalog: every row is valid, no identifier
/// occurs twice, and no two rows that are not soft-deleted go by the same
/// name.
pub open spec fn valid_rows(rows: Seq<TabularView>) -> bool {
    &&& forall|i: int| 0 <= i < rows.len() ==> valid_row(#[trigger] rows[i])
    &&& forall|i: int, j: int|
        0 <= i < j < rows.len() ==> (#[trigger] rows[i]).tabular_id != (
        #[trigger] rows[j]).tabular_id
    &&& forall|i: int, j: int|
        0 <= i < j < rows.len() && is_live(#[trigger] rows[i]) && is_live(#[trigger] rows[j])
            ==> !names_alike(rows[i], rows[j])
}

/// Whether the row at `i` has the identifier `id`.
pub open spec fn row_at(rows: Seq<TabularView>, id: TabularIdentUuid, i: int) -> bool {
    0 <= i < rows.len() && rows[i].tabular_id == id
}

/// Whether some row has the identifier `id`.
pub open spec fn has_row(rows: Seq<TabularView>, id: TabularIdentUuid) -> bool {
    exists|i: int| row_at(rows, id, i)
}

/// The index of a row with the identifier `id`.
pub open spec fn index_of_row(rows: Seq<TabularView>, id: TabularIdentUuid) -> int {
    choose|i: int| row_at(rows, id, i)
}

/// Whether a row that is not soft-deleted goes by the given name.
pub open spec fn key_taken(
    rows: Seq<TabularView>,
    warehouse_id: WarehouseIdent,
    namespace_id: NamespaceIdentUuid,
    table: bool,
    name: Seq<char>,
) -> bool {
    exists|i: int|
        0 <= i < rows.len() && is_live(#[trigger] rows[i]) && has_name(
            rows[i],
            warehouse_id,
            namespace_id,
            table,
            name,
        )
}

/// Whether a row that is not soft-deleted goes by the name of `t`.
pub open spec fn name_taken(rows: Seq<TabularView>, t: TabularView) -> bool {
    key_taken(rows, t.warehouse_id, t.namespace_id, t.tabular_id is Table, t.name)
}

/// Whether a listing with `flags` shows tabulars of the given status.
pub open spec fn shows(flags: ListFlags, status: TabularStatus) -> bool {
    match status {
        TabularStatus::Active => flags.include_active,
        TabularStatus::Staged => flags.include_staged,
        TabularStatus::SoftDeleted => flags.include_deleted,
    }
}

/// The row of a new tabular: staged without a metadata file, active with one.
pub open spec fn new_row(
    tabular_id: TabularIdentUuid,
    warehouse_id: WarehouseIdent,
    namespace_id: NamespaceIdentUuid,
    name: Seq<char>,
    metadata_location: Option<Seq<char>>,
    storage_location: Seq<char>,
    metadata: MetadataView,
    created_at: i64,
) -> TabularView {
    TabularView {
        tabular_id,
        warehouse_id,
        namespace_id,
        name,
        metadata_location,
        storage_location,
        metadata,
        status: if metadata_location is Some {
            TabularStatus::Active
        } else {
            TabularStatus::Staged
        },
        created_at,
        deletion: None,
    }
}

/// Create: the row is added, unless its identifier is in use or a live row
/// goes by its name.
pub open spec fn spec_create(rows: Seq<TabularView>, t: TabularView) -> Result<
    Seq<TabularView>,
    ErrorKind,
> {
    if has_row(rows, t.tabular_id) || name_taken(rows, t) {
        Err(ErrorKind::Conflict)
    } else {
        Ok(rows.push(t))
    }
}

/// Get: the row with the identifier, if a listing with `flags` shows it.
pub open spec fn spec_get(rows: Seq<TabularView>, id: TabularIdentUuid, flags: ListFlags) -> Option<
    TabularView,
> {
    if has_row(rows, id) && shows(flags, rows[index_of_row(rows, id)].status) {
        Some(rows[index_of_row(rows, id)])
    } else {
        None
    }
}

/// List: the identifiers of the rows of a warehouse that `flags` show, in
/// the order of the rows.
pub open spec fn spec_list(rows: Seq<TabularView>, warehouse_id: WarehouseIdent, flags: ListFlags) -> Seq<
    TabularIdentUuid,
>
    decreases rows.len(),
{
    if rows.len() == 0 {
        Seq::empty()
    } else {
        let before = spec_list(rows.drop_last(), warehouse_id, flags);
        let t = rows.last();
        if t.warehouse_id == warehouse_id && shows(flags, t.status) {
            before.push(t.tabular_id)
        } else {
            before
        }
    }
}

/// Rename: the live row with the identifier gets a new namespace and name,
/// unless a live row goes by that name already. Nothing else of it changes.
pub open spec fn spec_rename(
    rows: Seq<TabularView>,
    id: TabularIdentUuid,
    namespace_id: NamespaceIdentUuid,
    name: Seq<char>,
) -> Result<Seq<TabularView>, ErrorKind> {
    let i = index_of_row(rows, id);
    if !has_row(rows, id) || !is_live(rows[i]) {
        Err(ErrorKind::NotFound)
    } else {
        let moved = TabularView { namespace_id, name, ..rows[i] };
        if name_taken(rows, moved) {
            Err(ErrorKind::Conflict)
        } else {
            Ok(rows.update(i, moved))
        }
    }
}

/// Hard drop: the live row with the identifier is removed.
pub open spec fn spec_drop(rows: Seq<TabularView>, id: TabularIdentUuid) -> Result<
    Seq<TabularView>,
    ErrorKind,
> {
    let i = index_of_row(rows, id);
    if !has_row(rows, id) || !is_live(rows[i]) {
        Err(ErrorKind::NotFound)
    } else {
        Ok(rows.remove(i))
    }
}

/// Soft drop: the live row with the identifier is marked as deleted at
/// `now`, to expire `grace` microseconds later. It keeps its identifier and its
/// locations. An expiration beyond the last time that can be written down is an
/// internal error.
pub open spec fn spec_mark_deleted(
    rows: Seq<TabularView>,
    id: TabularIdentUuid,
    expiration_task_id: u128,
    now: i64,
    grace: nat,
) -> Result<Seq<TabularView>, ErrorKind> {
    let i = index_of_row(rows, id);
    if !has_row(rows, id) || !is_live(rows[i]) {
        Err(ErrorKind::NotFound)
    } else if now + grace > i64::MAX {
        Err(ErrorKind::Internal)
    } else {
        Ok(
            rows.update(
                i,
                TabularView {
                    status: TabularStatus::SoftDeleted,
                    deletion: Some(
                        DeletionDetails {
                            expiration_task_id,
                            expiration_date: (now + grace) as i64,
                            deleted_at: now,
                            created_at: rows[i].created_at,
                        },
                    ),
                    ..rows[i]
                },
            ),
        )
    }
}

/// Expiration: the soft-deleted row with the identifier is removed.
pub open spec fn spec_expire(rows: Seq<TabularView>, id: TabularIdentUuid) -> Result<
    Seq<TabularView>,
    ErrorKind,
> {
    let i = index_of_row(rows, id);
    if !has_row(rows, id) || is_live(rows[i]) {
        Err(ErrorKind::NotFound)
    } else {
        Ok(rows.remove(i))
    }
}

/// A proposed new metadata file of a tabular, with the location of the
/// metadata file that the proposal was made from.
pub struct CommitView {
    pub tabular_id: TabularIdentUuid,
    pub previous_metadata_location: Option<Seq<char>>,
    pub new_metadata: MetadataView,
    pub new_metadata_location: Seq<char>,
}

/// Commit of one tabular: the live row with the identifier takes the new
/// metadata and its location and is active, provided that its metadata
/// location is still the one the proposal was made from.
pub open spec fn spec_commit(rows: Seq<TabularView>, c: CommitView) -> Result<
    Seq<TabularView>,
    ErrorKind,
> {
    let i = index_of_row(rows, c.tabular_id);
    if !has_row(rows, c.tabular_id) || !is_live(rows[i]) {
        Err(ErrorKind::NotFound)
    } else if rows[i].metadata_location != c.previous_metadata_location {
        Err(ErrorKind::Conflict)
    } else {
        Ok(
            rows.update(
                i,
                TabularView {
                    metadata_location: Some(c.new_metadata_location),
                    metadata: c.new_metadata,
                    status: TabularStatus::Active,
                    ..rows[i]
                },
            ),
        )
    }
}

/// Commit of a batch, one after the other: all of them, or the first
/// failure and no change.
pub open spec fn spec_commit_all(rows: Seq<TabularView>, commits: Seq<CommitView>) -> Result<
    Seq<TabularView>,
    ErrorKind,
>
    decreases commits.len(),
{
    if commits.len() == 0 {
        Ok(rows)
    } else {
        match spec_commit(rows, commits[0]) {
            Ok(next) => spec_commit_all(next, commits.drop_first()),
            Err(e) => Err(e),
        }
    }
}

/// In valid rows an identifier is found at one index only.
pub proof fn lemma_row_index(rows: Seq<TabularView>, id: TabularIdentUuid, i: int)
    requires
        valid_rows(rows),
        row_at(rows, id, i),
    ensures
        has_row(rows, id),
        index_of_row(rows, id) == i,
{
    let k = index_of_row(rows, id);
    assert(row_at(rows, id, k));
    if k < i {
        assert(rows[k].tabular_id != rows[i].tabular_id);
    } else if i < k {
        assert(rows[i].tabular_id != rows[k].tabular_id);
    }
}

/// Create keeps the rows valid: in particular no two live rows go by the
/// same name afterwards.
pub proof fn lemma_create_keeps_valid(rows: Seq<TabularView>, t: TabularView)
    requires
        valid_rows(rows),
        valid_row(t),
        spec_create(rows, t) is Ok,
    ensures
        valid_rows(spec_create(rows, t)->Ok_0),
{
    let after = rows.push(t);
    assert forall|i: int, j: int| 0 <= i < j < after.len() implies (#[trigger] after[i]).tabular_id
        != (#[trigger] after[j]).tabular_id by {
        if j == rows.len() {
            assert(!row_at(rows, t.tabular_id, i));
        }
    }
    assert forall|i: int, j: int|
        0 <= i < j < after.len() && is_live(#[trigger] after[i]) && is_live(
            #[trigger] after[j],
        ) implies !names_alike(after[i], after[j]) by {
        if j == rows.len() {
            assert(is_live(rows[i]));
        }
    }
}

/// Rename keeps the rows valid.
pub proof fn lemma_rename_keeps_valid(
    rows: Seq<TabularView>,
    id: TabularIdentUuid,
    namespace_id: NamespaceIdentUuid,
    name: Seq<char>,
)
    requires
        valid_rows(rows),
        spec_rename(rows, id, namespace_id, name) is Ok,
    ensures
        valid_rows(spec_rename(rows, id, namespace_id, name)->Ok_0),
{
    let k = index_of_row(rows, id);
    assert(row_at(rows, id, k));
    let moved = TabularView { namespace_id, name, ..rows[k] };
    let after = rows.update(k, moved);
    assert forall|i: int, j: int|
        0 <= i < j < after.len() && is_live(#[trigger] after[i]) && is_live(
            #[trigger] after[j],
        ) implies !names_alike(after[i], after[j]) by {
        if i == k {
            assert(is_live(rows[j]));
        } else if j == k {
            assert(is_live(rows[i]));
        } else {
            assert(is_live(rows[i]) && is_live(rows[j]));
        }
    }
    assert forall|i: int, j: int| 0 <= i < j < after.len() implies (#[trigger] after[i]).tabular_id
        != (#[trigger] after[j]).tabular_id by {
        assert(rows[i].tabular_id != rows[j].tabular_id);
    }
    assert forall|i: int| 0 <= i < after.len() implies valid_row(#[trigger] after[i]) by {
        assert(valid_row(rows[i]));
    }
}

/// Removing a row keeps the rows valid.
pub proof fn lemma_remove_keeps_valid(rows: Seq<TabularView>, k: int)
    requires
        valid_rows(rows),
        0 <= k < rows.len(),
    ensures
        valid_rows(rows.remove(k)),
{
    let after = rows.remove(k);
    assert forall|i: int| 0 <= i < after.len() implies #[trigger] after[i] == rows[if i < k {
        i
    } else {
        i + 1
    }] by {}
    assert forall|i: int| 0 <= i < after.len() implies valid_row(#[trigger] after[i]) by {
        assert(valid_row(rows[if i < k {
            i
        } else {
            i + 1
        }]));
    }
    assert forall|i: int, j: int| 0 <= i < j < after.len() implies (#[trigger] after[i]).tabular_id
        != (#[trigger] after[j]).tabular_id by {
        let a = if i < k {
            i
        } else {
            i + 1
        };
        let b = if j < k {
            j
        } else {
            j + 1
        };
        assert(rows[a].tabular_id != rows[b].tabular_id);
    }
    assert forall|i: int, j: int|
        0 <= i < j < after.len() && is_live(#[trigger] after[i]) && is_live(
            #[trigger] after[j],
        ) implies !names_alike(after[i], after[j]) by {
        let a = if i < k {
            i
        } else {
            i + 1
        };
        let b = if j < k {
            j
        } else {
            j + 1
        };
        assert(is_live(rows[a]) && is_live(rows[b]));
    }
}

/// A row that keeps its identifier and its name, and is live only if it was,
/// can take the place of another without harm to the validity of the rows.
pub proof fn lemma_update_keeps_valid(rows: Seq<TabularView>, k: int, t: TabularView)
    requires
        valid_rows(rows),
        0 <= k < rows.len(),
        valid_row(t),
        t.tabular_id == rows[k].tabular_id,
        names_alike(t, rows[k]),
        is_live(t) ==> is_live(rows[k]),
    ensures
        valid_rows(rows.update(k, t)),
{
    let after = rows.update(k, t);
    assert forall|i: int| 0 <= i < after.len() implies valid_row(#[trigger] after[i]) by {
        assert(valid_row(rows[i]));
    }
    assert forall|i: int, j: int| 0 <= i < j < after.len() implies (#[trigger] after[i]).tabular_id
        != (#[trigger] after[j]).tabular_id by {
        assert(rows[i].tabular_id != rows[j].tabular_id);
    }
    assert forall|i: int, j: int|
        0 <= i < j < after.len() && is_live(#[trigger] after[i]) && is_live(
            #[trigger] after[j],
        ) implies !names_alike(after[i], after[j]) by {
        assert(is_live(rows[i]) && is_live(rows[j]));
        assert(!names_alike(rows[i], rows[j]));
    }
}

/// Hard drop, soft drop, expiration and commit keep the rows valid.
pub proof fn lemma_drop_and_commit_keep_valid(
    rows: Seq<TabularView>,
    id: TabularIdentUuid,
    expiration_task_id: u128,
    now: i64,
    grace: nat,
    c: CommitView,
)
    requires
        valid_rows(rows),
    ensures
        spec_drop(rows, id) matches Ok(after) ==> valid_rows(after),
        spec_expire(rows, id) matches Ok(after) ==> valid_rows(after),
        spec_mark_deleted(rows, id, expiration_task_id, now, grace) matches Ok(after)
            ==> valid_rows(after),
        spec_commit(rows, c) matches Ok(after) ==> valid_rows(after),
{
    if has_row(rows, id) {
        let k = index_of_row(rows, id);
        assert(row_at(rows, id, k));
        lemma_remove_keeps_valid(rows, k);
        if spec_mark_deleted(rows, id, expiration_task_id, now, grace) is Ok {
            let after = spec_mark_deleted(rows, id, expiration_task_id, now, grace)->Ok_0;
            lemma_update_keeps_valid(rows, k, after[k]);
            assert(after =~= rows.update(k, after[k]));
        }
    }
    if spec_commit(rows, c) is Ok {
        let after = spec_commit(rows, c)->Ok_0;
        let k = index_of_row(rows, c.tabular_id);
        assert(row_at(rows, c.tabular_id, k));
        assert(valid_row(rows[k]));
        lemma_update_keeps_valid(rows, k, after[k]);
        assert(after =~= rows.update(k, after[k]));
    }
}

/// A batch of commits keeps the rows valid.
pub proof fn lemma_commit_all_keeps_valid(rows: Seq<TabularView>, commits: Seq<CommitView>)
    requires
        valid_rows(rows),
    ensures
        spec_commit_all(rows, commits) matches Ok(after) ==> valid_rows(after),
    decreases commits.len(),
{
    if commits.len() > 0 {
        if spec_commit(rows, commits[0]) is Ok {
            let next = spec_commit(rows, commits[0])->Ok_0;
            lemma_drop_and_commit_keep_valid(rows, commits[0].tabular_id, 0, 0, 0, commits[0]);
            lemma_commit_all_keeps_valid(next, commits.drop_first());
        }
    }
}

/// Create, then get: the row that was created comes back as it went in,
/// with the same metadata.
pub proof fn lemma_create_then_get(rows: Seq<TabularView>, t: TabularView, flags: ListFlags)
    requires
        valid_rows(rows),
        valid_row(t),
        spec_create(rows, t) is Ok,
        shows(flags, t.status),
    ensures
        spec_get(spec_create(rows, t)->Ok_0, t.tabular_id, flags) == Some(t),
{
    let after = rows.push(t);
    lemma_create_keeps_valid(rows, t);
    lemma_row_index(after, t.tabular_id, rows.len() as int);
}

/// Rename changes the namespace and the name of a tabular and nothing else:
/// its identifier, its storage location and its metadata location stay.
pub proof fn lemma_rename_preserves(
    rows: Seq<TabularView>,
    id: TabularIdentUuid,
    namespace_id: NamespaceIdentUuid,
    name: Seq<char>,
    flags: ListFlags,
)
    requires
        valid_rows(rows),
        spec_rename(rows, id, namespace_id, name) is Ok,
    ensures
        spec_get(rows, id, flags) matches Some(before) ==> spec_get(
            spec_rename(rows, id, namespace_id, name)->Ok_0,
            id,
            flags,
        ) == Some(TabularView { namespace_id, name, ..before }),
        spec_get(rows, id, flags) is None ==> spec_get(
            spec_rename(rows, id, namespace_id, name)->Ok_0,
            id,
            flags,
        ) is None,
        spec_rename(rows, id, namespace_id, name)->Ok_0.len() == rows.len(),
        forall|i: int|
            0 <= i < rows.len() ==> {
                let before = #[trigger] rows[i];
                let after = spec_rename(rows, id, namespace_id, name)->Ok_0[i];
                &&& after.tabular_id == before.tabular_id
                &&& after.storage_location == before.storage_location
                &&& after.metadata_location == before.metadata_location
            },
{
    let k = index_of_row(rows, id);
    assert(row_at(rows, id, k));
    let after = spec_rename(rows, id, namespace_id, name)->Ok_0;
    lemma_rename_keeps_valid(rows, id, namespace_id, name);
    assert(row_at(after, id, k));
    lemma_row_index(after, id, k);
}

/// After a soft drop the name is free again: a create under the same name
/// succeeds exactly if it comes with an identifier that no row has, and the
/// soft-deleted row keeps its own.
pub proof fn lemma_soft_drop_then_create(
    rows: Seq<TabularView>,
    id: TabularIdentUuid,
    expiration_task_id: u128,
    now: i64,
    grace: nat,
    t: TabularView,
)
    requires
        valid_rows(rows),
        spec_mark_deleted(rows, id, expiration_task_id, now, grace) is Ok,
        names_alike(t, rows[index_of_row(rows, id)]),
    ensures
        ({
            let dropped = spec_mark_deleted(rows, id, expiration_task_id, now, grace)->Ok_0;
            &&& has_row(dropped, id)
            &&& spec_create(dropped, t) is Ok <==> !has_row(rows, t.tabular_id)
            &&& spec_create(dropped, t) is Ok ==> t.tabular_id != id
        }),
{
    let k = index_of_row(rows, id);
    assert(row_at(rows, id, k));
    let dropped = spec_mark_deleted(rows, id, expiration_task_id, now, grace)->Ok_0;
    assert(row_at(dropped, id, k));
    assert forall|i: int| 0 <= i < dropped.len() && is_live(#[trigger] dropped[i]) implies !names_alike(
        dropped[i],
        t,
    ) by {
        assert(i != k);
        assert(dropped[i] == rows[i]);
        if i < k {
            assert(!names_alike(rows[i], rows[k]));
        } else {
            assert(!names_alike(rows[k], rows[i]));
        }
    }
    assert(!name_taken(dropped, t));
    if has_row(rows, t.tabular_id) {
        let j = index_of_row(rows, t.tabular_id);
        assert(row_at(rows, t.tabular_id, j));
        assert(row_at(dropped, t.tabular_id, j));
    }
    if has_row(dropped, t.tabular_id) {
        let j = index_of_row(dropped, t.tabular_id);
        assert(row_at(dropped, t.tabular_id, j));
        assert(row_at(rows, t.tabular_id, j));
    }
}

/// A commit made from a metadata location that is no longer the current one
/// fails with a conflict, alone or at the head of a batch.
pub proof fn lemma_stale_commit_conflicts(rows: Seq<TabularView>, commits: Seq<CommitView>)
    requires
        commits.len() > 0,
        has_row(rows, commits[0].tabular_id),
        is_live(rows[index_of_row(rows, commits[0].tabular_id)]),
        rows[index_of_row(rows, commits[0].tabular_id)].metadata_location
            != commits[0].previous_metadata_location,
    ensures
        spec_commit(rows, commits[0]) == Err::<Seq<TabularView>, ErrorKind>(ErrorKind::Conflict),
        spec_commit_all(rows, commits) == Err::<Seq<TabularView>, ErrorKind>(ErrorKind::Conflict),
{
}

/// Of two commits made from the same metadata location, for new locations
/// other than that one, the first wins: the second fails with a conflict.
pub proof fn lemma_second_commit_conflicts(rows: Seq<TabularView>, first: CommitView, second: CommitView)
    requires
        valid_rows(rows),
        first.tabular_id == second.tabular_id,
        first.previous_metadata_location == second.previous_metadata_location,
        Some(first.new_metadata_location) != first.previous_metadata_location,
        spec_commit(rows, first) is Ok,
    ensures
        spec_commit(spec_commit(rows, first)->Ok_0, second) == Err::<Seq<TabularView>, ErrorKind>(
            ErrorKind::Conflict,
        ),
        spec_commit_all(rows, seq![first, second]) == Err::<Seq<TabularView>, ErrorKind>(
            ErrorKind::Conflict,
        ),
{
    let k = index_of_row(rows, first.tabular_id);
    assert(row_at(rows, first.tabular_id, k));
    let after = spec_commit(rows, first)->Ok_0;
    lemma_drop_and_commit_keep_valid(rows, first.tabular_id, 0, 0, 0, first);
    assert(row_at(after, first.tabular_id, k));
    lemma_row_index(after, first.tabular_id, k);
    let batch = seq![first, second];
    assert(batch[0] == first);
    assert(batch.drop_first()[0] == second);
    assert(spec_commit_all(after, batch.drop_first()) == Err::<Seq<TabularView>, ErrorKind>(
        ErrorKind::Conflict,
    ));
}

/// The first commit of a staged tabular makes it active, with the metadata
/// location that was committed.
pub proof fn lemma_commit_activates(rows: Seq<TabularView>, c: CommitView, flags: ListFlags)
    requires
        valid_rows(rows),
        spec_commit(rows, c) is Ok,
        flags.include_active,
    ensures
        spec_get(spec_commit(rows, c)->Ok_0, c.tabular_id, flags) matches Some(t) && t.status
            == TabularStatus::Active && t.metadata_location == Some(c.new_metadata_location)
            && t.metadata == c.new_metadata,
{
    let k = index_of_row(rows, c.tabular_id);
    assert(row_at(rows, c.tabular_id, k));
    let after = spec_commit(rows, c)->Ok_0;
    lemma_drop_and_commit_keep_valid(rows, c.tabular_id, 0, 0, 0, c);
    assert(row_at(after, c.tabular_id, k));
    lemma_row_index(after, c.tabular_id, k);
}

/// An identifier is listed exactly if a row of the warehouse has it and the
/// flags show that row.
pub proof fn lemma_listed(
    rows: Seq<TabularView>,
    warehouse_id: WarehouseIdent,
    flags: ListFlags,
    id: TabularIdentUuid,
)
    ensures
        spec_list(rows, warehouse_id, flags).contains(id) <==> exists|i: int|
            row_at(rows, id, i) && (#[trigger] rows[i]).warehouse_id == warehouse_id && shows(
                flags,
                rows[i].status,
            ),
    decreases rows.len(),
{
    let list = spec_list(rows, warehouse_id, flags);
    if rows.len() > 0 {
        let before_rows = rows.drop_last();
        let before = spec_list(before_rows, warehouse_id, flags);
        let t = rows.last();
        lemma_listed(before_rows, warehouse_id, flags, id);
        let shown = t.warehouse_id == warehouse_id && shows(flags, t.status);
        if list.contains(id) {
            let n = choose|n: int| 0 <= n < list.len() && list[n] == id;
            if shown && n == before.len() {
                assert(row_at(rows, id, rows.len() - 1));
            } else {
                assert(before[n] == id);
                assert(before.contains(id));
                let i = choose|i: int|
                    row_at(before_rows, id, i) && (#[trigger] before_rows[i]).warehouse_id
                        == warehouse_id && shows(flags, before_rows[i].status);
                assert(row_at(rows, id, i) && rows[i].warehouse_id == warehouse_id);
            }
        }
        if exists|i: int|
            row_at(rows, id, i) && (#[trigger] rows[i]).warehouse_id == warehouse_id && shows(
                flags,
                rows[i].status,
            ) {
            let i = choose|i: int|
                row_at(rows, id, i) && (#[trigger] rows[i]).warehouse_id == warehouse_id && shows(
                    flags,
                    rows[i].status,
                );
            if i == rows.len() - 1 {
                assert(list[before.len() as int] == id);
            } else {
                assert(row_at(before_rows, id, i) && before_rows[i].warehouse_id == warehouse_id);
                assert(before.contains(id));
                let n = choose|n: int| 0 <= n < before.len() && before[n] == id;
                assert(list[n] == id);
            }
        }
    }
}

/// The flags of the listing that shows active tabulars only.
pub open spec fn only_active() -> ListFlags {
    ListFlags { include_active: true, include_staged: false, include_deleted: false }
}

/// The flags of the listing that shows staged tabulars only.
pub open spec fn only_staged() -> ListFlags {
    ListFlags { include_active: false, include_staged: true, include_deleted: false }
}

/// The flags of the listing that shows soft-deleted tabulars only.
pub open spec fn only_soft_deleted() -> ListFlags {
    ListFlags { include_active: false, include_staged: false, include_deleted: true }
}

/// The flags of the listing that shows tabulars of every status.
pub open spec fn every_status() -> ListFlags {
    ListFlags { include_active: true, include_staged: true, include_deleted: true }
}

/// The listing of every status has as many entries as the three listings of
/// one status together.
pub proof fn lemma_list_all_len(rows: Seq<TabularView>, warehouse_id: WarehouseIdent)
    ensures
        spec_list(rows, warehouse_id, every_status()).len() == spec_list(
            rows,
            warehouse_id,
            only_active(),
        ).len() + spec_list(rows, warehouse_id, only_staged()).len() + spec_list(
            rows,
            warehouse_id,
            only_soft_deleted(),
        ).len(),
    decreases rows.len(),
{
    if rows.len() > 0 {
        lemma_list_all_len(rows.drop_last(), warehouse_id);
    }
}

/// The listing of every status is the disjoint union of the listings of the
/// active, of the staged and of the soft-deleted tabulars: it has what they
/// have, as many entries as they have together, and no identifier is in two of
/// them.
pub proof fn lemma_list_all_is_disjoint_union(
    rows: Seq<TabularView>,
    warehouse_id: WarehouseIdent,
    id: TabularIdentUuid,
)
    requires
        valid_rows(rows),
    ensures
        ({
            let all = spec_list(rows, warehouse_id, every_status());
            let active = spec_list(rows, warehouse_id, only_active());
            let staged = spec_list(rows, warehouse_id, only_staged());
            let deleted = spec_list(rows, warehouse_id, only_soft_deleted());
            &&& all.contains(id) <==> active.contains(id) || staged.contains(id)
                || deleted.contains(id)
            &&& !(active.contains(id) && staged.contains(id))
            &&& !(active.contains(id) && deleted.contains(id))
            &&& !(staged.contains(id) && deleted.contains(id))
            &&& all.len() == active.len() + staged.len() + deleted.len()
        }),
{
    lemma_listed(rows, warehouse_id, every_status(), id);
    lemma_listed(rows, warehouse_id, only_active(), id);
    lemma_listed(rows, warehouse_id, only_staged(), id);
    lemma_listed(rows, warehouse_id, only_soft_deleted(), id);
    lemma_list_all_len(rows, warehouse_id);
    if has_row(rows, id) {
        let k = index_of_row(rows, id);
        assert(row_at(rows, id, k));
        assert forall|i: int| row_at(rows, id, i) implies i == k by {
            lemma_row_index(rows, id, i);
        }
    }
}

} // verus!
