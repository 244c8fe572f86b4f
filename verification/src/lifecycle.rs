//! The life of a tabular: its states and the transitions between them, and
//! what commit, drop and load do on a server in memory.

use crate::catalog::{
    location_not_allowed, TabularDeleteProfile, ViewMetadataWithLocation, WarehouseView,
};
use crate::error::{error_of, ErrorKind, ErrorModel, ErrorModelView};
use crate::flags::{DropFlags, ListFlags};
use crate::ident::{ViewIdentUuid, WarehouseIdent};
use crate::location::location_text;
use crate::memory::{error_in, gate, tabulars_become, warehouse_at, write_fault};
use crate::server::MemoryServer;
use crate::store::{commit_views, TabularCommit, MICROS_PER_SECOND};
use crate::tabular::{
    has_row, index_of_row, lemma_row_index, row_at, spec_commit, spec_commit_all, spec_drop,
    spec_expire, spec_get, spec_mark_deleted, valid_rows, CommitView, TabularStatus, TabularView,
};
use crate::tabular_idents::TabularIdentUuid;
use crate::transaction::{object_at, object_exists};
use vstd::prelude::*;

verus! {

/// Where a tabular stands in its life.
#[derive(Debug, Clone, Copy, PartialEq, Eq, Structural)]
pub enum TabularState {
    /// Created, no metadata file yet.
    Staged,
    /// Has a current metadata file.
    Active,
    /// Dropped softly; waits for its expiration.
    SoftDeleted,
    /// Gone for good.
    Expired,
}

/// What can happen to a tabular.
#[derive(Debug, Clone, Copy, PartialEq, Eq, Structural)]
pub enum Transition {
    /// A commit that supplies a metadata location.
    Commit,
    /// A soft drop.
    SoftDrop,
    /// A hard drop.
    HardDrop,
    /// The expiration of a soft-deleted tabular.
    Expire,
}

/// The state after a transition; none where the state does not allow it.
pub open spec fn spec_next_state(state: TabularState, transition: Transition) -> Option<
    TabularState,
> {
    match (state, transition) {
        (TabularState::Staged, Transition::Commit) => Some(TabularState::Active),
        (TabularState::Active, Transition::Commit) => Some(TabularState::Active),
        (TabularState::Staged, Transition::SoftDrop) => Some(TabularState::SoftDeleted),
        (TabularState::Active, Transition::SoftDrop) => Some(TabularState::SoftDeleted),
        (TabularState::Staged, Transition::HardDrop) => Some(TabularState::Expired),
        (TabularState::Active, Transition::HardDrop) => Some(TabularState::Expired),
        (TabularState::SoftDeleted, Transition::Expire) => Some(TabularState::Expired),
        _ => None,
    }
}

/// The state after a transition; none where the state does not allow it.
pub fn next_state(state: TabularState, transition: Transition) -> (next: Option<TabularState>)
    ensures
        next == spec_next_state(state, transition),
{
    match state {
        TabularState::Staged | TabularState::Active => match transition {
            Transition::Commit => Some(TabularState::Active),
            Transition::SoftDrop => Some(TabularState::SoftDeleted),
            Transition::HardDrop => Some(TabularState::Expired),
            Transition::Expire => None,
        },
        TabularState::SoftDeleted => match transition {
            Transition::Expire => Some(TabularState::Expired),
            _ => None,
        },
        TabularState::Expired => None,
    }
}

/// The state of the tabular with the identifier: that of its row, expired
/// where it has none.
pub open spec fn state_of(rows: Seq<TabularView>, id: TabularIdentUuid) -> TabularState {
    if has_row(rows, id) {
        match rows[index_of_row(rows, id)].status {
            TabularStatus::Staged => TabularState::Staged,
            TabularStatus::Active => TabularState::Active,
            TabularStatus::SoftDeleted => TabularState::SoftDeleted,
        }
    } else {
        TabularState::Expired
    }
}

/// No transition leaves the expired state.
pub proof fn lemma_expired_is_final(transition: Transition)
    ensures
        spec_next_state(TabularState::Expired, transition) is None,
{
}

/// Commit, soft drop, hard drop and expiration move a tabular as the
/// transitions say: where the state allows the transition the tabular is in
/// the next state afterwards, and where it does not the tabular is not found.
pub proof fn lemma_rows_follow_transitions(
    rows: Seq<TabularView>,
    id: TabularIdentUuid,
    c: CommitView,
    expiration_task_id: u128,
    now: i64,
    grace: nat,
)
    requires
        valid_rows(rows),
        c.tabular_id == id,
    ensures
        spec_commit(rows, c) matches Ok(after) ==> Some(state_of(after, id)) == spec_next_state(
            state_of(rows, id),
            Transition::Commit,
        ),
        spec_commit(rows, c) == Err::<Seq<TabularView>, ErrorKind>(ErrorKind::NotFound)
            <==> spec_next_state(state_of(rows, id), Transition::Commit) is None,
        spec_mark_deleted(rows, id, expiration_task_id, now, grace) matches Ok(after) ==> Some(
            state_of(after, id),
        ) == spec_next_state(state_of(rows, id), Transition::SoftDrop),
        spec_mark_deleted(rows, id, expiration_task_id, now, grace) == Err::<
            Seq<TabularView>,
            ErrorKind,
        >(ErrorKind::NotFound) <==> spec_next_state(state_of(rows, id), Transition::SoftDrop)
            is None,
        spec_drop(rows, id) matches Ok(after) ==> Some(state_of(after, id)) == spec_next_state(
            state_of(rows, id),
            Transition::HardDrop,
        ),
        spec_drop(rows, id) is Err <==> spec_next_state(state_of(rows, id), Transition::HardDrop)
            is None,
        spec_expire(rows, id) matches Ok(after) ==> Some(state_of(after, id)) == spec_next_state(
            state_of(rows, id),
            Transition::Expire,
        ),
        spec_expire(rows, id) is Err <==> spec_next_state(state_of(rows, id), Transition::Expire)
            is None,
{
    if has_row(rows, id) {
        let k = index_of_row(rows, id);
        assert(row_at(rows, id, k));
        crate::tabular::lemma_drop_and_commit_keep_valid(
            rows,
            id,
            expiration_task_id,
            now,
            grace,
            c,
        );
        if spec_commit(rows, c) is Ok {
            let after = spec_commit(rows, c)->Ok_0;
            assert(row_at(after, id, k));
            lemma_row_index(after, id, k);
        }
        if spec_mark_deleted(rows, id, expiration_task_id, now, grace) is Ok {
            let after = spec_mark_deleted(rows, id, expiration_task_id, now, grace)->Ok_0;
            assert(row_at(after, id, k));
            lemma_row_index(after, id, k);
        }
        let removed = rows.remove(k);
        assert forall|i: int| !row_at(removed, id, i) by {
            if 0 <= i < removed.len() {
                if i < k {
                    assert(rows[i].tabular_id != rows[k].tabular_id);
                } else {
                    assert(rows[k].tabular_id != rows[i + 1].tabular_id);
                }
            }
        }
    }
}

/// Whether a drop removes the row at once: the flags ask for it, or the
/// warehouse deletes hard.
pub open spec fn drops_hard(flags: DropFlags, profile: TabularDeleteProfile) -> bool {
    flags.hard_delete || profile is Hard
}

/// The grace period of a delete profile, in seconds.
pub open spec fn grace_seconds(profile: TabularDeleteProfile) -> u64 {
    match profile {
        TabularDeleteProfile::Hard => 0,
        TabularDeleteProfile::Soft { expiration_seconds } => expiration_seconds,
    }
}

/// The error for a view that has no metadata file yet.
pub open spec fn view_not_found() -> ErrorModelView {
    error_of(ErrorKind::NotFound, "View does not exist."@, "ViewNotFound"@)
}

/// The error for metadata that belongs to another tabular than the one to
/// be committed.
pub open spec fn uuid_mismatch() -> ErrorModelView {
    error_of(
        ErrorKind::BadRequest,
        "Metadata does not belong to the tabular."@,
        "TabularUuidMismatch"@,
    )
}

/// What is wrong with a proposed commit, if anything: the location of its
/// metadata file is not allowed in the warehouse, or its metadata belongs to
/// another tabular.
pub open spec fn commit_fault(warehouse: WarehouseView, commit: TabularCommit) -> Option<
    ErrorModelView,
> {
    if !warehouse.allows(commit.commit.new_metadata_location@) {
        Some(location_not_allowed())
    } else if commit.commit.new_metadata.uuid != commit.tabular_id.spec_uuid() {
        Some(uuid_mismatch())
    } else {
        None
    }
}

/// The fault of the first commit of a batch that has one.
pub open spec fn first_commit_fault(warehouse: WarehouseView, commits: Seq<TabularCommit>) -> Option<
    ErrorModelView,
>
    decreases commits.len(),
{
    if commits.len() == 0 {
        None
    } else if commit_fault(warehouse, commits[0]) is Some {
        commit_fault(warehouse, commits[0])
    } else {
        first_commit_fault(warehouse, commits.drop_first())
    }
}

/// The object store after the metadata files of a batch were written one
/// after the other, up to the first whose location holds an object already;
/// and whether all of them were written.
pub open spec fn files_written(files: Seq<(Seq<char>, Seq<u8>)>, commits: Seq<TabularCommit>) -> (
    Seq<(Seq<char>, Seq<u8>)>,
    bool,
)
    decreases commits.len(),
{
    if commits.len() == 0 {
        (files, true)
    } else {
        let file = location_text(commits[0].commit.new_metadata_location@);
        if object_at(files, file) is Some {
            (files, false)
        } else {
            files_written(
                files.push((file, commits[0].commit.new_metadata.document@)),
                commits.drop_first(),
            )
        }
    }
}

impl MemoryServer {
    /// Drops a tabular as the policy of its warehouse says. A hard drop
    /// removes the row and hands out the location of the tabular, for the
    /// caller to purge; a soft drop marks the row as deleted now, to expire
    /// after the grace period of the warehouse, and hands out nothing. The
    /// flags can ask for a hard drop where the warehouse deletes softly.
    pub fn drop_tabular(&mut self, id: TabularIdentUuid, flags: DropFlags, expiration_task_id: u128) -> (r: Result<
        Option<String>,
        ErrorModel,
    >)
        requires
            old(self).catalog.wf(),
        ensures
            final(self).catalog.wf(),
            final(self).files == old(self).files,
            final(self).events == old(self).events,
            final(self).now == old(self).now,
            match write_fault(old(self).catalog@, id) {
                Some(e) => r is Err && r->Err_0@ == e && final(self).catalog@ == old(
                    self,
                ).catalog@,
                None => {
                    let rows = old(self).catalog@.tabulars;
                    let row = rows[index_of_row(rows, id)];
                    let warehouses = old(self).catalog@.warehouses;
                    let warehouse = warehouses[choose|i: int|
                        warehouse_at(warehouses, row.warehouse_id, i)];
                    if drops_hard(flags, warehouse.tabular_delete_profile) {
                        &&& tabulars_become(
                            old(self).catalog@,
                            spec_drop(rows, id),
                            final(self).catalog@,
                            error_in(r),
                        )
                        &&& r matches Ok(location) ==> location is Some && location->0@
                            == row.storage_location
                    } else {
                        &&& tabulars_become(
                            old(self).catalog@,
                            spec_mark_deleted(
                                rows,
                                id,
                                expiration_task_id,
                                old(self).now,
                                (grace_seconds(warehouse.tabular_delete_profile)
                                    * MICROS_PER_SECOND) as nat,
                            ),
                            final(self).catalog@,
                            error_in(r),
                        )
                        &&& r matches Ok(location) ==> location is None
                    }
                },
            },
    {
        let home = match self.catalog.tabulars().get(id, ListFlags::all()) {
            Some(row) => row.warehouse_id,
            None => {
                return Err(ErrorModel::not_found("Tabular does not exist.", "TabularNotFound"));
            },
        };
        let warehouse = match self.catalog.get_warehouse(home) {
            Ok(warehouse) => warehouse,
            Err(e) => {
                return Err(e);
            },
        };
        let grace = match warehouse.tabular_delete_profile {
            TabularDeleteProfile::Hard => None,
            TabularDeleteProfile::Soft { expiration_seconds } => Some(expiration_seconds),
        };
        match grace {
            Some(seconds) if !flags.hard_delete => {
                match self.catalog.mark_tabular_as_deleted(
                    id,
                    expiration_task_id,
                    self.now,
                    seconds,
                ) {
                    Ok(()) => Ok(None),
                    Err(e) => Err(e),
                }
            },
            _ => match self.catalog.drop_tabular(id) {
                Ok(location) => Ok(Some(location)),
                Err(e) => Err(e),
            },
        }
    }

    /// Loads a view: its metadata and where its metadata file lies. A view
    /// that is soft-deleted is loaded only where that is asked for.
    pub fn load_view(&self, view_id: ViewIdentUuid, include_deleted: bool) -> (r: Result<
        ViewMetadataWithLocation,
        ErrorModel,
    >)
        requires
            self.catalog.wf(),
        ensures
            match spec_get(
                self.catalog@.tabulars,
                TabularIdentUuid::View(view_id.0),
                (ListFlags {
                    include_active: true,
                    include_staged: false,
                    include_deleted: include_deleted,
                }),
            ) {
                Some(row) => match row.metadata_location {
                    Some(location) => r is Ok && r->Ok_0.metadata_location@ == location
                        && r->Ok_0.metadata@ == row.metadata,
                    None => r is Err && r->Err_0@ == view_not_found(),
                },
                None => r is Err && r->Err_0@ == view_not_found(),
            },
    {
        let flags = ListFlags { include_active: true, include_staged: false, include_deleted };
        let missing = ErrorModel::not_found("View does not exist.", "ViewNotFound");
        match self.catalog.tabulars().get(TabularIdentUuid::View(view_id.0), flags) {
            Some(row) => match &row.metadata_location {
                Some(location) => Ok(
                    ViewMetadataWithLocation {
                        metadata_location: location.clone(),
                        metadata: row.metadata.duplicate(),
                    },
                ),
                None => Err(missing),
            },
            None => Err(missing),
        }
    }

    /// Commits a batch of proposed table states. Every proposal is checked
    /// first: its metadata file has to lie in the warehouse, and its metadata
    /// has to belong to its table. Then the metadata files are written, and
    /// then all rows are updated in one transaction: each on the condition
    /// that its metadata location is still the one that the proposal was made
    /// from. Where a row has moved on, the batch fails with a conflict and no
    /// row is changed.
    pub fn commit_tables(&mut self, warehouse_id: WarehouseIdent, commits: Vec<TabularCommit>) -> (r: Result<
        (),
        ErrorModel,
    >)
        requires
            old(self).catalog.wf(),
        ensures
            final(self).catalog.wf(),
            final(self).events == old(self).events,
            final(self).now == old(self).now,
            match gate(old(self).catalog@.warehouses, warehouse_id) {
                Some(e) => r is Err && r->Err_0@ == e && final(self).catalog@ == old(
                    self,
                ).catalog@ && final(self).files@ == old(self).files@,
                None => {
                    let warehouses = old(self).catalog@.warehouses;
                    let warehouse = warehouses[choose|i: int|
                        warehouse_at(warehouses, warehouse_id, i)];
                    match first_commit_fault(warehouse, commits@) {
                        Some(e) => r is Err && r->Err_0@ == e && final(self).catalog@ == old(
                            self,
                        ).catalog@ && final(self).files@ == old(self).files@,
                        None => {
                            &&& final(self).files@ == files_written(old(self).files@, commits@).0
                            &&& if files_written(old(self).files@, commits@).1 {
                                tabulars_become(
                                    old(self).catalog@,
                                    spec_commit_all(
                                        old(self).catalog@.tabulars,
                                        commit_views(commits@),
                                    ),
                                    final(self).catalog@,
                                    error_in(r),
                                )
                            } else {
                                r is Err && r->Err_0@ == object_exists() && final(self).catalog@
                                    == old(self).catalog@
                            }
                        },
                    }
                },
            },
    {
        let warehouse = match self.catalog.get_warehouse(warehouse_id) {
            Ok(warehouse) => warehouse,
            Err(e) => {
                return Err(e);
            },
        };
        let mut i: usize = 0;
        assert(commits@.skip(0) =~= commits@);
        while i < commits.len()
            invariant
                i <= commits.len(),
                first_commit_fault(warehouse@, commits@) == first_commit_fault(
                    warehouse@,
                    commits@.skip(i as int),
                ),
                old(self).catalog.wf(),
                *self == *old(self),
                gate(old(self).catalog@.warehouses, warehouse_id) is None,
                warehouse@ == old(self).catalog@.warehouses[choose|j: int|
                    warehouse_at(old(self).catalog@.warehouses, warehouse_id, j)],
            decreases commits.len() - i,
        {
            let ghost rest = commits@.skip(i as int);
            assert(rest[0] == commits@[i as int]);
            assert(rest.drop_first() =~= commits@.skip(i + 1));
            if !warehouse.is_allowed_location(&commits[i].commit.new_metadata_location) {
                return Err(
                    ErrorModel::bad_request(
                        "Table location is not allowed. Table location cannot be the same as the warehouse location.",
                        "InvalidTableLocation",
                    ),
                );
            }
            if commits[i].commit.new_metadata.uuid != commits[i].tabular_id.uuid() {
                return Err(
                    ErrorModel::bad_request(
                        "Metadata does not belong to the tabular.",
                        "TabularUuidMismatch",
                    ),
                );
            }
            i += 1;
        }
        let mut k: usize = 0;
        while k < commits.len()
            invariant
                k <= commits.len(),
                files_written(old(self).files@, commits@) == files_written(
                    self.files@,
                    commits@.skip(k as int),
                ),
                self.catalog == old(self).catalog,
                self.events == old(self).events,
                self.now == old(self).now,
                old(self).catalog.wf(),
                gate(old(self).catalog@.warehouses, warehouse_id) is None,
                warehouse@ == old(self).catalog@.warehouses[choose|j: int|
                    warehouse_at(old(self).catalog@.warehouses, warehouse_id, j)],
                first_commit_fault(warehouse@, commits@) is None,
            decreases commits.len() - k,
        {
            let ghost rest = commits@.skip(k as int);
            assert(rest[0] == commits@[k as int]);
            assert(rest.drop_first() =~= commits@.skip(k + 1));
            let location = commits[k].commit.new_metadata_location.to_string();
            let document = commits[k].commit.new_metadata.document.clone();
            match self.files.write(location, document) {
                Ok(()) => {},
                Err(e) => {
                    return Err(e);
                },
            }
            k += 1;
        }
        self.catalog.commit_table_transaction(warehouse_id, commits)
    }
}

} // verus!
