//! A catalog's tabular rows held in memory.

use crate::catalog::{DeletionDetails, Metadata, TableCommit};
use crate::error::{error_of, ErrorKind, ErrorModel, ErrorModelView};
use crate::flags::ListFlags;
use crate::ident::{NamespaceIdentUuid, WarehouseIdent};
use crate::location::location_text;
use crate::tabular::{
    has_name, has_row, index_of_row, is_live, key_taken, lemma_create_keeps_valid,
    lemma_drop_and_commit_keep_valid, lemma_rename_keeps_valid, lemma_row_index, new_row, row_at,
    shows, spec_commit, spec_commit_all, spec_create, spec_drop, spec_expire, spec_get, spec_list,
    spec_mark_deleted, spec_rename, valid_rows, CommitView, Tabular, TabularStatus, TabularView,
};
use crate::tabular_idents::TabularIdentUuid;
use crate::text::{copy_text, same_text, text_of};
use vstd::prelude::*;

verus! {

/// The error the store answers a failure of the given kind with.
pub open spec fn store_error(kind: ErrorKind) -> ErrorModelView {
    match kind {
        ErrorKind::NotFound => error_of(kind, "Tabular does not exist."@, "TabularNotFound"@),
        ErrorKind::Conflict => error_of(
            kind,
            "Tabular already exists or was changed concurrently."@,
            "TabularConflict"@,
        ),
        _ => error_of(kind, "Expiration time is out of range."@, "ExpirationOutOfRange"@),
    }
}

fn not_found() -> (e: ErrorModel)
    ensures
        e@ == store_error(ErrorKind::NotFound),
{
    ErrorModel::not_found("Tabular does not exist.", "TabularNotFound")
}

fn conflict() -> (e: ErrorModel)
    ensures
        e@ == store_error(ErrorKind::Conflict),
{
    ErrorModel::conflict("Tabular already exists or was changed concurrently.", "TabularConflict")
}

/// Microseconds in a second.
pub const MICROS_PER_SECOND: u64 = 1_000_000;

/// A proposed new state of a tabular, with the location of the metadata file
/// that the proposal was made from (none for a staged tabular).
#[derive(Debug, Clone)]
pub struct TabularCommit {
    pub tabular_id: TabularIdentUuid,
    pub previous_metadata_location: Option<String>,
    pub commit: TableCommit,
}

impl View for TabularCommit {
    type V = CommitView;

    open spec fn view(&self) -> CommitView {
        CommitView {
            tabular_id: self.tabular_id,
            previous_metadata_location: text_of(self.previous_metadata_location),
            new_metadata: self.commit.new_metadata@,
            new_metadata_location: location_text(self.commit.new_metadata_location@),
        }
    }
}

/// The views of a list of commits.
pub open spec fn commit_views(commits: Seq<TabularCommit>) -> Seq<CommitView> {
    commits.map_values(|c: TabularCommit| c@)
}

/// The views of a list of rows.
pub open spec fn row_views(rows: Seq<Tabular>) -> Seq<TabularView> {
    rows.map_values(|t: Tabular| t@)
}

impl Tabular {
    /// A copy of the row.
    pub fn duplicate(&self) -> (copy: Self)
        ensures
            copy@ == self@,
    {
        Tabular {
            tabular_id: self.tabular_id,
            warehouse_id: self.warehouse_id,
            namespace_id: self.namespace_id,
            name: self.name.clone(),
            metadata_location: copy_text(&self.metadata_location),
            storage_location: self.storage_location.clone(),
            metadata: self.metadata.duplicate(),
            status: self.status,
            created_at: self.created_at,
            deletion: self.deletion,
        }
    }

    /// Whether the tabular is a table rather than a view.
    pub fn is_table(&self) -> (table: bool)
        ensures
            table == (self.tabular_id is Table),
    {
        match self.tabular_id {
            TabularIdentUuid::Table(_) => true,
            TabularIdentUuid::View(_) => false,
        }
    }

    /// Whether a listing with `flags` shows the tabular.
    pub fn is_shown(&self, flags: ListFlags) -> (shown: bool)
        ensures
            shown == shows(flags, self.status),
    {
        match self.status {
            TabularStatus::Active => flags.include_active,
            TabularStatus::Staged => flags.include_staged,
            TabularStatus::SoftDeleted => flags.include_deleted,
        }
    }

    fn goes_by(
        &self,
        warehouse_id: WarehouseIdent,
        namespace_id: NamespaceIdentUuid,
        table: bool,
        name: &String,
    ) -> (b: bool)
        ensures
            b == has_name(self@, warehouse_id, namespace_id, table, name@),
    {
        self.warehouse_id == warehouse_id && self.namespace_id == namespace_id && self.is_table()
            == table && self.name == *name
    }
}

/// The tabular rows of a catalog.
#[derive(Debug, Clone)]
pub struct TabularStore {
    rows: Vec<Tabular>,
}

impl View for TabularStore {
    type V = Seq<TabularView>;

    closed spec fn view(&self) -> Seq<TabularView> {
        row_views(self.rows@)
    }
}

impl TabularStore {
    /// The validity of the rows: see [`valid_rows`].
    pub open spec fn wf(&self) -> bool {
        valid_rows(self@)
    }

    /// A store without rows.
    pub fn new() -> (store: Self)
        ensures
            store.wf(),
            store@ == Seq::<TabularView>::empty(),
    {
        let store = TabularStore { rows: Vec::new() };
        assert(store@ =~= Seq::<TabularView>::empty());
        store
    }

    /// The number of rows.
    pub fn len(&self) -> (n: usize)
        ensures
            n == self@.len(),
    {
        self.rows.len()
    }

    /// A copy of the store.
    pub fn duplicate(&self) -> (copy: Self)
        ensures
            copy@ == self@,
    {
        let mut rows: Vec<Tabular> = Vec::with_capacity(self.rows.len());
        let mut i: usize = 0;
        while i < self.rows.len()
            invariant
                i <= self.rows.len(),
                row_views(rows@) == row_views(self.rows@).take(i as int),
            decreases self.rows.len() - i,
        {
            let ghost before = rows@;
            let copy = self.rows[i].duplicate();
            rows.push(copy);
            i += 1;
            assert(row_views(before.push(copy)) =~= row_views(before).push(copy@));
            assert(row_views(rows@) =~= row_views(self.rows@).take(i as int));
        }
        assert(row_views(self.rows@).take(i as int) =~= row_views(self.rows@));
        TabularStore { rows }
    }

    fn find(&self, id: TabularIdentUuid) -> (found: Option<usize>)
        ensures
            found matches Some(i) ==> row_at(self@, id, i as int),
            found is None ==> !has_row(self@, id),
    {
        let mut i: usize = 0;
        while i < self.rows.len()
            invariant
                i <= self.rows.len(),
                forall|j: int| 0 <= j < i ==> !row_at(self@, id, j),
            decreases self.rows.len() - i,
        {
            if self.rows[i].tabular_id == id {
                return Some(i);
            }
            i += 1;
        }
        None
    }

    fn find_live(&self, id: TabularIdentUuid) -> (found: Option<usize>)
        requires
            self.wf(),
        ensures
            found matches Some(i) ==> has_row(self@, id) && index_of_row(self@, id) == i
                && is_live(self@[i as int]),
            found is None ==> !has_row(self@, id) || !is_live(self@[index_of_row(self@, id)]),
    {
        match self.find(id) {
            Some(i) => {
                proof {
                    lemma_row_index(self@, id, i as int);
                }
                match self.rows[i].status {
                    TabularStatus::SoftDeleted => None,
                    _ => Some(i),
                }
            },
            None => None,
        }
    }

    fn is_key_taken(
        &self,
        warehouse_id: WarehouseIdent,
        namespace_id: NamespaceIdentUuid,
        table: bool,
        name: &String,
    ) -> (taken: bool)
        ensures
            taken == key_taken(self@, warehouse_id, namespace_id, table, name@),
    {
        let mut i: usize = 0;
        while i < self.rows.len()
            invariant
                i <= self.rows.len(),
                forall|j: int|
                    0 <= j < i ==> !(is_live(#[trigger] self@[j]) && has_name(
                        self@[j],
                        warehouse_id,
                        namespace_id,
                        table,
                        name@,
                    )),
            decreases self.rows.len() - i,
        {
            let live = match self.rows[i].status {
                TabularStatus::SoftDeleted => false,
                _ => true,
            };
            if live && self.rows[i].goes_by(warehouse_id, namespace_id, table, name) {
                assert(is_live(self@[i as int]));
                return true;
            }
            i += 1;
        }
        false
    }

    /// Whether a tabular that is not soft-deleted lies in the namespace.
    pub fn has_live_in(&self, warehouse_id: WarehouseIdent, namespace_id: NamespaceIdentUuid) -> (b: bool)
        ensures
            b == exists|i: int|
                0 <= i < self@.len() && is_live(#[trigger] self@[i]) && self@[i].warehouse_id
                    == warehouse_id && self@[i].namespace_id == namespace_id,
    {
        let mut i: usize = 0;
        while i < self.rows.len()
            invariant
                i <= self.rows.len(),
                forall|j: int|
                    0 <= j < i ==> !(is_live(#[trigger] self@[j]) && self@[j].warehouse_id
                        == warehouse_id && self@[j].namespace_id == namespace_id),
            decreases self.rows.len() - i,
        {
            let live = match self.rows[i].status {
                TabularStatus::SoftDeleted => false,
                _ => true,
            };
            if live && self.rows[i].warehouse_id == warehouse_id && self.rows[i].namespace_id
                == namespace_id {
                assert(is_live(self@[i as int]));
                return true;
            }
            i += 1;
        }
        false
    }

    /// Adds the row of a new tabular: staged where `metadata_location` is
    /// absent, active where it is given. Fails with a conflict where the
    /// identifier is in use or a tabular of the same kind that is not
    /// soft-deleted goes by the name in the namespace.
    pub fn create(
        &mut self,
        tabular_id: TabularIdentUuid,
        warehouse_id: WarehouseIdent,
        namespace_id: NamespaceIdentUuid,
        name: String,
        metadata_location: Option<String>,
        storage_location: String,
        metadata: Metadata,
        created_at: i64,
    ) -> (r: Result<(), ErrorModel>)
        requires
            old(self).wf(),
        ensures
            final(self).wf(),
            match spec_create(
                old(self)@,
                new_row(
                    tabular_id,
                    warehouse_id,
                    namespace_id,
                    name@,
                    text_of(metadata_location),
                    storage_location@,
                    metadata@,
                    created_at,
                ),
            ) {
                Ok(rows) => r is Ok && final(self)@ == rows,
                Err(kind) => r is Err && r->Err_0@ == store_error(kind) && final(self)@ == old(
                    self,
                )@,
            },
    {
        let status = match metadata_location {
            Some(_) => TabularStatus::Active,
            None => TabularStatus::Staged,
        };
        let row = Tabular {
            tabular_id,
            warehouse_id,
            namespace_id,
            name,
            metadata_location,
            storage_location,
            metadata,
            status,
            created_at,
            deletion: None,
        };
        let table = row.is_table();
        if self.find(tabular_id).is_some() || self.is_key_taken(
            warehouse_id,
            namespace_id,
            table,
            &row.name,
        ) {
            return Err(conflict());
        }
        proof {
            lemma_create_keeps_valid(self@, row@);
            assert(row_views(self.rows@.push(row)) =~= row_views(self.rows@).push(row@));
        }
        self.rows.push(row);
        Ok(())
    }

    /// The row with the identifier, if a listing with `flags` shows it.
    pub fn get(&self, id: TabularIdentUuid, flags: ListFlags) -> (r: Option<&Tabular>)
        requires
            self.wf(),
        ensures
            match spec_get(self@, id, flags) {
                Some(t) => r is Some && r->0@ == t,
                None => r is None,
            },
    {
        match self.find(id) {
            Some(i) => {
                proof {
                    lemma_row_index(self@, id, i as int);
                }
                if self.rows[i].is_shown(flags) {
                    Some(&self.rows[i])
                } else {
                    None
                }
            },
            None => None,
        }
    }

    /// The identifier of the first row of the kind that goes by the name in
    /// the namespace and that `flags` show. Among tabulars that are not
    /// soft-deleted there is one such row at most.
    pub fn tabular_ident_to_id(
        &self,
        warehouse_id: WarehouseIdent,
        namespace_id: NamespaceIdentUuid,
        table: bool,
        name: &String,
        flags: ListFlags,
    ) -> (r: Option<TabularIdentUuid>)
        ensures
            r matches Some(id) ==> exists|i: int|
                #![trigger self@[i]]
                {
                    &&& row_at(self@, id, i)
                    &&& has_name(self@[i], warehouse_id, namespace_id, table, name@)
                    &&& shows(flags, self@[i].status)
                    &&& forall|j: int|
                        0 <= j < i ==> !(has_name(
                            #[trigger] self@[j],
                            warehouse_id,
                            namespace_id,
                            table,
                            name@,
                        ) && shows(flags, self@[j].status))
                },
            r is None ==> forall|j: int|
                0 <= j < self@.len() ==> !(has_name(
                    #[trigger] self@[j],
                    warehouse_id,
                    namespace_id,
                    table,
                    name@,
                ) && shows(flags, self@[j].status)),
    {
        let mut i: usize = 0;
        while i < self.rows.len()
            invariant
                i <= self.rows.len(),
                forall|j: int|
                    0 <= j < i ==> !(has_name(
                        #[trigger] self@[j],
                        warehouse_id,
                        namespace_id,
                        table,
                        name@,
                    ) && shows(flags, self@[j].status)),
            decreases self.rows.len() - i,
        {
            if self.rows[i].goes_by(warehouse_id, namespace_id, table, name) && self.rows[i].is_shown(
                flags,
            ) {
                assert(row_at(self@, self.rows[i as int].tabular_id, i as int));
                return Some(self.rows[i].tabular_id);
            }
            i += 1;
        }
        None
    }

    /// The identifiers of the tabulars of a warehouse that `flags` show, in
    /// the order of their rows.
    pub fn list(&self, warehouse_id: WarehouseIdent, flags: ListFlags) -> (ids: Vec<TabularIdentUuid>)
        ensures
            ids@ == spec_list(self@, warehouse_id, flags),
    {
        let mut ids: Vec<TabularIdentUuid> = Vec::new();
        let mut i: usize = 0;
        assert(self@.take(0) =~= Seq::<TabularView>::empty());
        while i < self.rows.len()
            invariant
                i <= self.rows.len(),
                ids@ == spec_list(self@.take(i as int), warehouse_id, flags),
            decreases self.rows.len() - i,
        {
            assert(self@.take(i + 1).drop_last() =~= self@.take(i as int));
            assert(self@.take(i + 1).last() == self.rows[i as int]@);
            if self.rows[i].warehouse_id == warehouse_id && self.rows[i].is_shown(flags) {
                ids.push(self.rows[i].tabular_id);
            }
            i += 1;
        }
        assert(self@.take(i as int) =~= self@);
        ids
    }

    /// Gives the tabular a new namespace and name. Its identifier and its
    /// locations stay as they are.
    pub fn rename(
        &mut self,
        id: TabularIdentUuid,
        namespace_id: NamespaceIdentUuid,
        name: String,
    ) -> (r: Result<(), ErrorModel>)
        requires
            old(self).wf(),
        ensures
            final(self).wf(),
            match spec_rename(old(self)@, id, namespace_id, name@) {
                Ok(rows) => r is Ok && final(self)@ == rows,
                Err(kind) => r is Err && r->Err_0@ == store_error(kind) && final(self)@ == old(
                    self,
                )@,
            },
    {
        let i = match self.find_live(id) {
            Some(i) => i,
            None => {
                return Err(not_found());
            },
        };
        let warehouse_id = self.rows[i].warehouse_id;
        let table = self.rows[i].is_table();
        if self.is_key_taken(warehouse_id, namespace_id, table, &name) {
            return Err(conflict());
        }
        proof {
            lemma_rename_keeps_valid(self@, id, namespace_id, name@);
        }
        let ghost before = self.rows@;
        let mut row = self.rows.remove(i);
        row.namespace_id = namespace_id;
        row.name = name;
        self.rows.insert(i, row);
        assert(row_views(self.rows@) =~= row_views(before).update(i as int, row@));
        Ok(())
    }

    /// Removes the row of a tabular that is not soft-deleted and hands out
    /// its storage location, for the caller to purge.
    pub fn drop_tabular(&mut self, id: TabularIdentUuid) -> (r: Result<String, ErrorModel>)
        requires
            old(self).wf(),
        ensures
            final(self).wf(),
            match spec_drop(old(self)@, id) {
                Ok(rows) => r is Ok && final(self)@ == rows && r->Ok_0@ == old(
                    self,
                )@[index_of_row(old(self)@, id)].storage_location,
                Err(kind) => r is Err && r->Err_0@ == store_error(kind) && final(self)@ == old(
                    self,
                )@,
            },
    {
        let i = match self.find_live(id) {
            Some(i) => i,
            None => {
                return Err(not_found());
            },
        };
        proof {
            lemma_drop_and_commit_keep_valid(
                self@,
                id,
                0,
                0,
                0,
                CommitView {
                    tabular_id: id,
                    previous_metadata_location: None,
                    new_metadata: self@[0].metadata,
                    new_metadata_location: Seq::empty(),
                },
            );
        }
        let ghost before = self.rows@;
        let row = self.rows.remove(i);
        assert(row_views(self.rows@) =~= row_views(before).remove(i as int));
        Ok(row.storage_location)
    }

    /// Marks a tabular that is not soft-deleted as deleted at `now`, to
    /// expire `grace_seconds` later. The row keeps its identifier and its
    /// locations. Fails where the time of expiration cannot be represented.
    pub fn mark_tabular_as_deleted(
        &mut self,
        id: TabularIdentUuid,
        expiration_task_id: u128,
        now: i64,
        grace_seconds: u64,
    ) -> (r: Result<(), ErrorModel>)
        requires
            old(self).wf(),
        ensures
            final(self).wf(),
            match spec_mark_deleted(
                old(self)@,
                id,
                expiration_task_id,
                now,
                (grace_seconds * MICROS_PER_SECOND) as nat,
            ) {
                Ok(rows) => r is Ok && final(self)@ == rows,
                Err(kind) => r is Err && r->Err_0@ == store_error(kind) && final(self)@ == old(
                    self,
                )@,
            },
    {
        let i = match self.find_live(id) {
            Some(i) => i,
            None => {
                return Err(not_found());
            },
        };
        let grace: i128 = grace_seconds as i128 * MICROS_PER_SECOND as i128;
        let expiration: i128 = now as i128 + grace;
        if expiration > i64::MAX as i128 {
            return Err(
                ErrorModel::internal("Expiration time is out of range.", "ExpirationOutOfRange"),
            );
        }
        proof {
            lemma_drop_and_commit_keep_valid(
                self@,
                id,
                expiration_task_id,
                now,
                grace as nat,
                CommitView {
                    tabular_id: id,
                    previous_metadata_location: None,
                    new_metadata: self@[0].metadata,
                    new_metadata_location: Seq::empty(),
                },
            );
        }
        let ghost before = self.rows@;
        let mut row = self.rows.remove(i);
        row.status = TabularStatus::SoftDeleted;
        row.deletion = Some(
            DeletionDetails {
                expiration_task_id,
                expiration_date: expiration as i64,
                deleted_at: now,
                created_at: row.created_at,
            },
        );
        self.rows.insert(i, row);
        assert(row_views(self.rows@) =~= row_views(before).update(i as int, row@));
        Ok(())
    }

    /// Removes the row of a soft-deleted tabular whose time has come.
    pub fn expire(&mut self, id: TabularIdentUuid) -> (r: Result<(), ErrorModel>)
        requires
            old(self).wf(),
        ensures
            final(self).wf(),
            match spec_expire(old(self)@, id) {
                Ok(rows) => r is Ok && final(self)@ == rows,
                Err(kind) => r is Err && r->Err_0@ == store_error(kind) && final(self)@ == old(
                    self,
                )@,
            },
    {
        let i = match self.find(id) {
            Some(i) => i,
            None => {
                return Err(not_found());
            },
        };
        proof {
            lemma_row_index(self@, id, i as int);
        }
        match self.rows[i].status {
            TabularStatus::SoftDeleted => {},
            _ => {
                return Err(not_found());
            },
        }
        proof {
            lemma_drop_and_commit_keep_valid(
                self@,
                id,
                0,
                0,
                0,
                CommitView {
                    tabular_id: id,
                    previous_metadata_location: None,
                    new_metadata: self@[0].metadata,
                    new_metadata_location: Seq::empty(),
                },
            );
        }
        let ghost before = self.rows@;
        let _ = self.rows.remove(i);
        assert(row_views(self.rows@) =~= row_views(before).remove(i as int));
        Ok(())
    }

    /// Commits one tabular: its row takes the new metadata and the location
    /// of the new metadata file and is active. Fails with a conflict where
    /// the row's metadata location is not the one the commit was made from.
    pub fn commit_tabular(&mut self, commit: TabularCommit) -> (r: Result<(), ErrorModel>)
        requires
            old(self).wf(),
        ensures
            final(self).wf(),
            match spec_commit(old(self)@, commit@) {
                Ok(rows) => r is Ok && final(self)@ == rows,
                Err(kind) => r is Err && r->Err_0@ == store_error(kind) && final(self)@ == old(
                    self,
                )@,
            },
    {
        let i = match self.find_live(commit.tabular_id) {
            Some(i) => i,
            None => {
                return Err(not_found());
            },
        };
        if !same_text(&self.rows[i].metadata_location, &commit.previous_metadata_location) {
            return Err(conflict());
        }
        proof {
            lemma_drop_and_commit_keep_valid(self@, commit.tabular_id, 0, 0, 0, commit@);
        }
        let ghost before = self.rows@;
        let mut row = self.rows.remove(i);
        row.metadata_location = Some(commit.commit.new_metadata_location.to_string());
        row.metadata = commit.commit.new_metadata;
        row.status = TabularStatus::Active;
        self.rows.insert(i, row);
        assert(row_views(self.rows@) =~= row_views(before).update(i as int, row@));
        Ok(())
    }

    /// Commits a batch, one tabular after the other. Either every commit
    /// takes effect, or the first failure is returned and no row has changed.
    pub fn commit_table_transaction(&mut self, commits: Vec<TabularCommit>) -> (r: Result<
        (),
        ErrorModel,
    >)
        requires
            old(self).wf(),
        ensures
            final(self).wf(),
            match spec_commit_all(old(self)@, commit_views(commits@)) {
                Ok(rows) => r is Ok && final(self)@ == rows,
                Err(kind) => r is Err && r->Err_0@ == store_error(kind) && final(self)@ == old(
                    self,
                )@,
            },
    {
        let backup = self.duplicate();
        let mut pending = commits;
        let ghost all = commit_views(commits@);
        let n = pending.len();
        let mut done: usize = 0;
        assert(all.skip(0) =~= all);
        while done < n
            invariant
                self.wf(),
                old(self).wf(),
                backup@ == old(self)@,
                all == commit_views(commits@),
                done <= n,
                n == all.len(),
                commit_views(pending@) == all.skip(done as int),
                spec_commit_all(old(self)@, all) == spec_commit_all(self@, all.skip(done as int)),
            decreases n - done,
        {
            let ghost rest = all.skip(done as int);
            let ghost before = pending@;
            let commit = pending.remove(0);
            proof {
                assert(commit@ == commit_views(before)[0]);
                assert(commit_views(before.remove(0)) =~= commit_views(before).remove(0));
                assert(rest.remove(0) =~= all.skip(done + 1));
                assert(rest.drop_first() =~= all.skip(done + 1));
                assert(rest[0] == commit@);
            }
            match self.commit_tabular(commit) {
                Ok(()) => {},
                Err(e) => {
                    *self = backup;
                    return Err(e);
                },
            }
            done += 1;
        }
        Ok(())
    }
}

} // verus!
