//! A catalog backend that keeps warehouses, namespaces and tabulars in
//! memory.

use crate::catalog::{
    warehouse_inactive, GetNamespaceResponse, Metadata, NamespaceView, Warehouse, WarehouseStatus,
    WarehouseView,
};
use crate::error::{error_of, ErrorKind, ErrorModel, ErrorModelView};
use crate::flags::ListFlags;
use crate::ident::{NamespaceIdentUuid, ProjectIdent, SecretIdent, WarehouseIdent};
use crate::names::NamespaceIdent;
use crate::storage::{optional_property_texts, Properties, StorageProfile};
use crate::store::{commit_views, store_error, TabularCommit, TabularStore};
use crate::store::MICROS_PER_SECOND;
use crate::tabular::{
    has_row, index_of_row, is_live, new_row, spec_commit_all, spec_create, spec_drop, spec_list,
    spec_mark_deleted, spec_rename, valid_rows, TabularView,
};
use crate::tabular_idents::TabularIdentUuid;
use crate::text::text_of;
use vstd::prelude::*;

verus! {

/// What a catalog holds, as plain values.
pub struct CatalogView {
    pub warehouses: Seq<WarehouseView>,
    pub namespaces: Seq<NamespaceView>,
    pub tabulars: Seq<TabularView>,
}

/// The views of a list of warehouses.
pub open spec fn warehouse_views(warehouses: Seq<Warehouse>) -> Seq<WarehouseView> {
    warehouses.map_values(|w: Warehouse| w@)
}

/// The views of a list of namespaces.
pub open spec fn namespace_views(namespaces: Seq<GetNamespaceResponse>) -> Seq<NamespaceView> {
    namespaces.map_values(|n: GetNamespaceResponse| n@)
}

/// Whether the warehouse at `i` has the identifier `id`.
pub open spec fn warehouse_at(warehouses: Seq<WarehouseView>, id: WarehouseIdent, i: int) -> bool {
    0 <= i < warehouses.len() && warehouses[i].id == id
}

/// Whether the namespace at `i` is the namespace `ident` of the warehouse.
pub open spec fn namespace_at(
    namespaces: Seq<NamespaceView>,
    warehouse_id: WarehouseIdent,
    ident: Seq<Seq<char>>,
    i: int,
) -> bool {
    &&& 0 <= i < namespaces.len()
    &&& namespaces[i].warehouse_id == warehouse_id
    &&& namespaces[i].namespace == ident
}

/// Whether the warehouse has a namespace with the identifier.
pub open spec fn has_namespace_id(
    namespaces: Seq<NamespaceView>,
    warehouse_id: WarehouseIdent,
    namespace_id: NamespaceIdentUuid,
) -> bool {
    exists|i: int|
        0 <= i < namespaces.len() && (#[trigger] namespaces[i]).warehouse_id == warehouse_id
            && namespaces[i].namespace_id == namespace_id
}

/// The error for a warehouse that does not exist.
pub open spec fn warehouse_not_found() -> ErrorModelView {
    error_of(ErrorKind::NotFound, "Warehouse does not exist."@, "WarehouseNotFound"@)
}

/// The error for a warehouse whose identifier is in use.
pub open spec fn warehouse_exists() -> ErrorModelView {
    error_of(ErrorKind::Conflict, "Warehouse already exists."@, "WarehouseAlreadyExists"@)
}

/// The error for a namespace that does not exist.
pub open spec fn namespace_missing() -> ErrorModelView {
    error_of(ErrorKind::NotFound, "Namespace does not exist"@, "NamespaceNotFound"@)
}

/// The error for a namespace that exists already.
pub open spec fn namespace_exists() -> ErrorModelView {
    error_of(ErrorKind::Conflict, "Namespace already exists."@, "NamespaceAlreadyExists"@)
}

/// The error for a namespace that still has children.
pub open spec fn namespace_not_empty() -> ErrorModelView {
    error_of(ErrorKind::Conflict, "Namespace is not empty."@, "NamespaceNotEmpty"@)
}

/// Why the warehouse takes no requests, if it takes none: it does not
/// exist, or it is not active.
pub open spec fn gate(warehouses: Seq<WarehouseView>, id: WarehouseIdent) -> Option<ErrorModelView> {
    if !exists|i: int| warehouse_at(warehouses, id, i) {
        Some(warehouse_not_found())
    } else if warehouses[choose|i: int| warehouse_at(warehouses, id, i)].status
        != WarehouseStatus::Active {
        Some(warehouse_inactive())
    } else {
        None
    }
}

/// The identifier of the namespace `ident` of the warehouse; none where the
/// warehouse takes no requests or has no such namespace.
pub open spec fn spec_namespace_id(
    c: CatalogView,
    warehouse_id: WarehouseIdent,
    ident: Seq<Seq<char>>,
) -> Option<NamespaceIdentUuid> {
    if gate(c.warehouses, warehouse_id) is None && exists|i: int|
        namespace_at(c.namespaces, warehouse_id, ident, i) {
        Some(
            c.namespaces[choose|i: int|
                namespace_at(c.namespaces, warehouse_id, ident, i)].namespace_id,
        )
    } else {
        None
    }
}

/// Whether `parent` is a proper ancestor of `child`.
pub open spec fn is_ancestor(parent: Seq<Seq<char>>, child: Seq<Seq<char>>) -> bool {
    parent.len() < child.len() && parent.is_prefix_of(child)
}

/// Whether the namespace has a child: a namespace below it, or a tabular in
/// it that is not soft-deleted.
pub open spec fn has_children(c: CatalogView, n: NamespaceView) -> bool {
    ||| exists|i: int|
        0 <= i < c.namespaces.len() && (#[trigger] c.namespaces[i]).warehouse_id
            == n.warehouse_id && is_ancestor(n.namespace, c.namespaces[i].namespace)
    ||| exists|i: int|
        0 <= i < c.tabulars.len() && is_live(#[trigger] c.tabulars[i])
            && c.tabulars[i].warehouse_id == n.warehouse_id && c.tabulars[i].namespace_id
            == n.namespace_id
}

/// What holds of a catalog: its tabular rows are valid, no two warehouses
/// have the same identifier, and no two namespaces have the same identifier or
/// the same name in one warehouse.
pub open spec fn valid_catalog(c: CatalogView) -> bool {
    &&& valid_rows(c.tabulars)
    &&& forall|i: int, j: int|
        0 <= i < j < c.warehouses.len() ==> (#[trigger] c.warehouses[i]).id != (
        #[trigger] c.warehouses[j]).id
    &&& forall|i: int, j: int|
        0 <= i < j < c.namespaces.len() ==> (#[trigger] c.namespaces[i]).namespace_id != (
        #[trigger] c.namespaces[j]).namespace_id
    &&& forall|i: int, j: int|
        0 <= i < j < c.namespaces.len() && (#[trigger] c.namespaces[i]).warehouse_id == (
        #[trigger] c.namespaces[j]).warehouse_id ==> c.namespaces[i].namespace
            != c.namespaces[j].namespace
}

/// A catalog in memory.
#[derive(Debug)]
pub struct MemoryCatalog {
    warehouses: Vec<Warehouse>,
    namespaces: Vec<GetNamespaceResponse>,
    tabulars: TabularStore,
}

impl View for MemoryCatalog {
    type V = CatalogView;

    closed spec fn view(&self) -> CatalogView {
        CatalogView {
            warehouses: warehouse_views(self.warehouses@),
            namespaces: namespace_views(self.namespaces@),
            tabulars: self.tabulars@,
        }
    }
}

fn warehouse_missing() -> (e: ErrorModel)
    ensures
        e@ == warehouse_not_found(),
{
    ErrorModel::not_found("Warehouse does not exist.", "WarehouseNotFound")
}

fn no_namespace() -> (e: ErrorModel)
    ensures
        e@ == namespace_missing(),
{
    ErrorModel::not_found("Namespace does not exist", "NamespaceNotFound")
}

impl MemoryCatalog {
    /// The validity of the catalog: see [`valid_catalog`].
    pub open spec fn wf(&self) -> bool {
        valid_catalog(self@)
    }

    /// A catalog without warehouses.
    pub fn new() -> (catalog: Self)
        ensures
            catalog.wf(),
            catalog@.warehouses.len() == 0,
            catalog@.namespaces.len() == 0,
            catalog@.tabulars.len() == 0,
    {
        MemoryCatalog { warehouses: Vec::new(), namespaces: Vec::new(), tabulars: TabularStore::new() }
    }

    /// A copy of the catalog.
    pub fn duplicate(&self) -> (copy: Self)
        ensures
            copy@ == self@,
    {
        let mut warehouses: Vec<Warehouse> = Vec::with_capacity(self.warehouses.len());
        let mut i: usize = 0;
        while i < self.warehouses.len()
            invariant
                i <= self.warehouses.len(),
                warehouse_views(warehouses@) == warehouse_views(self.warehouses@).take(i as int),
            decreases self.warehouses.len() - i,
        {
            let ghost before = warehouses@;
            let copy = self.warehouses[i].duplicate();
            warehouses.push(copy);
            i += 1;
            assert(warehouse_views(before.push(copy)) =~= warehouse_views(before).push(copy@));
            assert(warehouse_views(warehouses@) =~= warehouse_views(self.warehouses@).take(
                i as int,
            ));
        }
        assert(warehouse_views(self.warehouses@).take(i as int) =~= warehouse_views(
            self.warehouses@,
        ));
        let mut namespaces: Vec<GetNamespaceResponse> = Vec::with_capacity(self.namespaces.len());
        let mut k: usize = 0;
        while k < self.namespaces.len()
            invariant
                k <= self.namespaces.len(),
                namespace_views(namespaces@) == namespace_views(self.namespaces@).take(k as int),
            decreases self.namespaces.len() - k,
        {
            let ghost before = namespaces@;
            let copy = self.namespaces[k].duplicate();
            namespaces.push(copy);
            k += 1;
            assert(namespace_views(before.push(copy)) =~= namespace_views(before).push(copy@));
            assert(namespace_views(namespaces@) =~= namespace_views(self.namespaces@).take(
                k as int,
            ));
        }
        assert(namespace_views(self.namespaces@).take(k as int) =~= namespace_views(
            self.namespaces@,
        ));
        MemoryCatalog { warehouses, namespaces, tabulars: self.tabulars.duplicate() }
    }

    /// The tabular rows.
    pub fn tabulars(&self) -> (tabulars: &TabularStore)
        ensures
            tabulars@ == self@.tabulars,
    {
        &self.tabulars
    }

    fn find_warehouse(&self, id: WarehouseIdent) -> (found: Option<usize>)
        requires
            self.wf(),
        ensures
            found matches Some(i) ==> warehouse_at(self@.warehouses, id, i as int) && (choose|
                k: int,
            | warehouse_at(self@.warehouses, id, k)) == i,
            found is None ==> !exists|k: int| warehouse_at(self@.warehouses, id, k),
    {
        let mut i: usize = 0;
        while i < self.warehouses.len()
            invariant
                self.wf(),
                i <= self.warehouses.len(),
                forall|j: int| 0 <= j < i ==> !warehouse_at(self@.warehouses, id, j),
            decreases self.warehouses.len() - i,
        {
            if self.warehouses[i].id == id {
                proof {
                    assert(warehouse_at(self@.warehouses, id, i as int));
                    let k = choose|k: int| warehouse_at(self@.warehouses, id, k);
                    if k < i {
                        assert(self@.warehouses[k].id != self@.warehouses[i as int].id);
                    } else if i < k {
                        assert(self@.warehouses[i as int].id != self@.warehouses[k].id);
                    }
                }
                return Some(i);
            }
            i += 1;
        }
        None
    }

    /// Checks that the warehouse takes requests.
    pub fn require_warehouse(&self, id: WarehouseIdent) -> (r: Result<(), ErrorModel>)
        requires
            self.wf(),
        ensures
            match gate(self@.warehouses, id) {
                Some(e) => r is Err && r->Err_0@ == e,
                None => r is Ok,
            },
    {
        match self.find_warehouse(id) {
            None => Err(warehouse_missing()),
            Some(i) => crate::catalog::require_active_warehouse(self.warehouses[i].status),
        }
    }

    fn find_namespace(&self, warehouse_id: WarehouseIdent, ident: &NamespaceIdent) -> (found: Option<
        usize,
    >)
        requires
            self.wf(),
        ensures
            found matches Some(i) ==> namespace_at(self@.namespaces, warehouse_id, ident@, i as int)
                && (choose|k: int| namespace_at(self@.namespaces, warehouse_id, ident@, k)) == i,
            found is None ==> !exists|k: int|
                namespace_at(self@.namespaces, warehouse_id, ident@, k),
    {
        let mut i: usize = 0;
        while i < self.namespaces.len()
            invariant
                self.wf(),
                i <= self.namespaces.len(),
                forall|j: int|
                    0 <= j < i ==> !namespace_at(self@.namespaces, warehouse_id, ident@, j),
            decreases self.namespaces.len() - i,
        {
            if self.namespaces[i].warehouse_id == warehouse_id && self.namespaces[i].namespace.same_as(
                ident,
            ) {
                proof {
                    assert(namespace_at(self@.namespaces, warehouse_id, ident@, i as int));
                    let k = choose|k: int| namespace_at(self@.namespaces, warehouse_id, ident@, k);
                    if k < i {
                        assert(self@.namespaces[k].namespace != self@.namespaces[i as int].namespace);
                    } else if i < k {
                        assert(self@.namespaces[i as int].namespace != self@.namespaces[k].namespace);
                    }
                }
                return Some(i);
            }
            i += 1;
        }
        None
    }

    fn has_namespace(&self, warehouse_id: WarehouseIdent, namespace_id: NamespaceIdentUuid) -> (b: bool)
        ensures
            b == has_namespace_id(self@.namespaces, warehouse_id, namespace_id),
    {
        let mut i: usize = 0;
        while i < self.namespaces.len()
            invariant
                i <= self.namespaces.len(),
                forall|j: int|
                    0 <= j < i ==> !((#[trigger] self@.namespaces[j]).warehouse_id == warehouse_id
                        && self@.namespaces[j].namespace_id == namespace_id),
            decreases self.namespaces.len() - i,
        {
            if self.namespaces[i].warehouse_id == warehouse_id && self.namespaces[i].namespace_id
                == namespace_id {
                assert(self@.namespaces[i as int].warehouse_id == warehouse_id);
                return true;
            }
            i += 1;
        }
        false
    }

    /// Adds a warehouse. Fails with a conflict where its identifier is in
    /// use.
    pub fn create_warehouse(&mut self, warehouse: Warehouse) -> (r: Result<(), ErrorModel>)
        requires
            old(self).wf(),
        ensures
            final(self).wf(),
            if exists|i: int| warehouse_at(old(self)@.warehouses, warehouse.id, i) {
                r is Err && r->Err_0@ == warehouse_exists() && final(self)@ == old(self)@
            } else {
                r is Ok && final(self)@ == (CatalogView {
                    warehouses: old(self)@.warehouses.push(warehouse@),
                    ..old(self)@
                })
            },
    {
        if self.find_warehouse(warehouse.id).is_some() {
            return Err(ErrorModel::conflict("Warehouse already exists.", "WarehouseAlreadyExists"));
        }
        proof {
            assert(warehouse_views(self.warehouses@.push(warehouse)) =~= warehouse_views(
                self.warehouses@,
            ).push(warehouse@));
            let after = self@.warehouses.push(warehouse@);
            assert forall|i: int, j: int| 0 <= i < j < after.len() implies (
            #[trigger] after[i]).id != (#[trigger] after[j]).id by {
                if j == self@.warehouses.len() {
                    assert(!warehouse_at(self@.warehouses, warehouse.id, i));
                }
            }
        }
        self.warehouses.push(warehouse);
        Ok(())
    }

    /// Sets whether a warehouse takes requests.
    pub fn set_warehouse_status(&mut self, id: WarehouseIdent, status: WarehouseStatus) -> (r: Result<
        (),
        ErrorModel,
    >)
        requires
            old(self).wf(),
        ensures
            final(self).wf(),
            if exists|i: int| warehouse_at(old(self)@.warehouses, id, i) {
                let i = choose|i: int| warehouse_at(old(self)@.warehouses, id, i);
                r is Ok && final(self)@ == (CatalogView {
                    warehouses: old(self)@.warehouses.update(
                        i,
                        WarehouseView { status, ..old(self)@.warehouses[i] },
                    ),
                    ..old(self)@
                })
            } else {
                r is Err && r->Err_0@ == warehouse_not_found() && final(self)@ == old(self)@
            },
            r is Ok ==> gate(final(self)@.warehouses, id) == (if status
                == WarehouseStatus::Active {
                None::<ErrorModelView>
            } else {
                Some(warehouse_inactive())
            }),
    {
        let i = match self.find_warehouse(id) {
            Some(i) => i,
            None => {
                return Err(warehouse_missing());
            },
        };
        let ghost before = self.warehouses@;
        let ghost before_view = self@.warehouses;
        let mut warehouse = self.warehouses.remove(i);
        warehouse.status = status;
        self.warehouses.insert(i, warehouse);
        proof {
            assert(warehouse_views(self.warehouses@) =~= warehouse_views(before).update(
                i as int,
                warehouse@,
            ));
            let after = self@.warehouses;
            assert forall|a: int, b: int| 0 <= a < b < after.len() implies (
            #[trigger] after[a]).id != (#[trigger] after[b]).id by {
                assert(before_view[a].id != before_view[b].id);
            }
            assert(warehouse_at(after, id, i as int));
            let k = choose|k: int| warehouse_at(after, id, k);
            if k < i {
                assert(after[k].id != after[i as int].id);
            } else if i < k {
                assert(after[i as int].id != after[k].id);
            }
        }
        Ok(())
    }

    /// The warehouse, if it takes requests.
    pub fn get_warehouse(&self, id: WarehouseIdent) -> (r: Result<Warehouse, ErrorModel>)
        requires
            self.wf(),
        ensures
            match gate(self@.warehouses, id) {
                Some(e) => r is Err && r->Err_0@ == e,
                None => r is Ok && r->Ok_0@ == self@.warehouses[choose|i: int|
                    warehouse_at(self@.warehouses, id, i)] && r->Ok_0.status
                    == WarehouseStatus::Active && r->Ok_0.id == id,
            },
    {
        match self.find_warehouse(id) {
            None => Err(warehouse_missing()),
            Some(i) => match crate::catalog::require_active_warehouse(self.warehouses[i].status) {
                Ok(()) => Ok(self.warehouses[i].duplicate()),
                Err(e) => Err(e),
            },
        }
    }

    /// Adds a namespace to a warehouse that takes requests. Fails with a
    /// conflict where the identifier is in use or the warehouse has a
    /// namespace of that name.
    pub fn create_namespace(
        &mut self,
        warehouse_id: WarehouseIdent,
        namespace_id: NamespaceIdentUuid,
        namespace: NamespaceIdent,
        properties: Option<Properties>,
    ) -> (r: Result<(), ErrorModel>)
        requires
            old(self).wf(),
        ensures
            final(self).wf(),
            match gate(old(self)@.warehouses, warehouse_id) {
                Some(e) => r is Err && r->Err_0@ == e && final(self)@ == old(self)@,
                None => if (exists|i: int|
                    namespace_at(old(self)@.namespaces, warehouse_id, namespace@, i)) || (exists|
                    i: int,
                |
                    0 <= i < old(self)@.namespaces.len() && (#[trigger] old(
                        self,
                    )@.namespaces[i]).namespace_id == namespace_id) {
                    r is Err && r->Err_0@ == namespace_exists() && final(self)@ == old(self)@
                } else {
                    r is Ok && final(self)@ == (CatalogView {
                        namespaces: old(self)@.namespaces.push(
                            NamespaceView {
                                namespace: namespace@,
                                namespace_id,
                                warehouse_id,
                                properties: optional_property_texts(properties),
                            },
                        ),
                        ..old(self)@
                    })
                },
            },
    {
        match self.require_warehouse(warehouse_id) {
            Ok(()) => {},
            Err(e) => {
                return Err(e);
            },
        }
        let mut id_used = false;
        let mut i: usize = 0;
        while i < self.namespaces.len()
            invariant
                i <= self.namespaces.len(),
                id_used == exists|j: int|
                    0 <= j < i && (#[trigger] self@.namespaces[j]).namespace_id == namespace_id,
            decreases self.namespaces.len() - i,
        {
            if self.namespaces[i].namespace_id == namespace_id {
                assert(self@.namespaces[i as int].namespace_id == namespace_id);
                id_used = true;
            }
            i += 1;
        }
        if id_used || self.find_namespace(warehouse_id, &namespace).is_some() {
            return Err(ErrorModel::conflict("Namespace already exists.", "NamespaceAlreadyExists"));
        }
        let row = GetNamespaceResponse { namespace, namespace_id, warehouse_id, properties };
        proof {
            assert(namespace_views(self.namespaces@.push(row)) =~= namespace_views(
                self.namespaces@,
            ).push(row@));
            let before = self@.namespaces;
            let after = before.push(row@);
            assert forall|a: int, b: int| 0 <= a < b < after.len() implies (
            #[trigger] after[a]).namespace_id != (#[trigger] after[b]).namespace_id by {
                if b == before.len() {
                    assert(before[a].namespace_id != namespace_id);
                }
            }
            assert forall|a: int, b: int|
                0 <= a < b < after.len() && (#[trigger] after[a]).warehouse_id == (
                #[trigger] after[b]).warehouse_id implies after[a].namespace
                != after[b].namespace by {
                if b == before.len() {
                    assert(!namespace_at(before, warehouse_id, namespace@, a));
                }
            }
        }
        self.namespaces.push(row);
        Ok(())
    }

    /// The identifier of a namespace. There is none where the namespace
    /// does not exist, and none where the warehouse takes no requests: neither
    /// is an error.
    pub fn namespace_ident_to_id(&self, warehouse_id: WarehouseIdent, namespace: &NamespaceIdent) -> (id: Option<
        NamespaceIdentUuid,
    >)
        requires
            self.wf(),
        ensures
            id == spec_namespace_id(self@, warehouse_id, namespace@),
    {
        match self.require_warehouse(warehouse_id) {
            Ok(()) => {},
            Err(_) => {
                return None;
            },
        }
        match self.find_namespace(warehouse_id, namespace) {
            Some(i) => Some(self.namespaces[i].namespace_id),
            None => None,
        }
    }

    /// The namespace of a warehouse that takes requests.
    pub fn get_namespace(&self, warehouse_id: WarehouseIdent, namespace: &NamespaceIdent) -> (r: Result<
        GetNamespaceResponse,
        ErrorModel,
    >)
        requires
            self.wf(),
        ensures
            match gate(self@.warehouses, warehouse_id) {
                Some(e) => r is Err && r->Err_0@ == e,
                None => if exists|i: int|
                    namespace_at(self@.namespaces, warehouse_id, namespace@, i) {
                    r is Ok && r->Ok_0@ == self@.namespaces[choose|i: int|
                        namespace_at(self@.namespaces, warehouse_id, namespace@, i)]
                } else {
                    r is Err && r->Err_0@ == namespace_missing()
                },
            },
    {
        match self.require_warehouse(warehouse_id) {
            Ok(()) => {},
            Err(e) => {
                return Err(e);
            },
        }
        match self.find_namespace(warehouse_id, namespace) {
            Some(i) => Ok(self.namespaces[i].duplicate()),
            None => Err(no_namespace()),
        }
    }
}

/// What a tabular operation that the warehouse lets through makes of the
/// catalog: the rows it gives on success, its error and no change on failure.
pub open spec fn tabulars_become(
    before: CatalogView,
    outcome: Result<Seq<TabularView>, ErrorKind>,
    after: CatalogView,
    error: Option<ErrorModelView>,
) -> bool {
    match outcome {
        Ok(rows) => error is None && after == (CatalogView { tabulars: rows, ..before }),
        Err(kind) => error == Some(store_error(kind)) && after == before,
    }
}

/// The error of a result, as plain values.
pub open spec fn error_in<T>(r: Result<T, ErrorModel>) -> Option<ErrorModelView> {
    match r {
        Ok(_) => None,
        Err(e) => Some(e@),
    }
}

impl MemoryCatalog {
    /// Removes a namespace of a warehouse that takes requests. A namespace
    /// with a namespace below it, or with a tabular that is not soft-deleted,
    /// is not removed.
    pub fn drop_namespace(&mut self, warehouse_id: WarehouseIdent, namespace: &NamespaceIdent) -> (r: Result<
        (),
        ErrorModel,
    >)
        requires
            old(self).wf(),
        ensures
            final(self).wf(),
            match gate(old(self)@.warehouses, warehouse_id) {
                Some(e) => r is Err && r->Err_0@ == e && final(self)@ == old(self)@,
                None => if !exists|i: int|
                    namespace_at(old(self)@.namespaces, warehouse_id, namespace@, i) {
                    r is Err && r->Err_0@ == namespace_missing() && final(self)@ == old(self)@
                } else {
                    let i = choose|i: int|
                        namespace_at(old(self)@.namespaces, warehouse_id, namespace@, i);
                    if has_children(old(self)@, old(self)@.namespaces[i]) {
                        r is Err && r->Err_0@ == namespace_not_empty() && final(self)@ == old(
                            self,
                        )@
                    } else {
                        r is Ok && final(self)@ == (CatalogView {
                            namespaces: old(self)@.namespaces.remove(i),
                            ..old(self)@
                        })
                    }
                },
            },
    {
        match self.require_warehouse(warehouse_id) {
            Ok(()) => {},
            Err(e) => {
                return Err(e);
            },
        }
        let i = match self.find_namespace(warehouse_id, namespace) {
            Some(i) => i,
            None => {
                return Err(no_namespace());
            },
        };
        let namespace_id = self.namespaces[i].namespace_id;
        let mut has_below = false;
        let mut k: usize = 0;
        while k < self.namespaces.len()
            invariant
                k <= self.namespaces.len(),
                has_below == exists|j: int|
                    0 <= j < k && (#[trigger] self@.namespaces[j]).warehouse_id == warehouse_id
                        && is_ancestor(namespace@, self@.namespaces[j].namespace),
            decreases self.namespaces.len() - k,
        {
            if self.namespaces[k].warehouse_id == warehouse_id && namespace.is_ancestor_of(
                &self.namespaces[k].namespace,
            ) {
                assert(self@.namespaces[k as int].warehouse_id == warehouse_id);
                has_below = true;
            }
            k += 1;
        }
        if has_below || self.tabulars.has_live_in(warehouse_id, namespace_id) {
            return Err(ErrorModel::conflict("Namespace is not empty.", "NamespaceNotEmpty"));
        }
        let ghost before = self.namespaces@;
        let ghost before_view = self@.namespaces;
        let _ = self.namespaces.remove(i);
        proof {
            assert(namespace_views(self.namespaces@) =~= namespace_views(before).remove(i as int));
            let after = self@.namespaces;
            assert forall|a: int| 0 <= a < after.len() implies #[trigger] after[a]
                == before_view[if a < i {
                a
            } else {
                a + 1
            }] by {}
            assert forall|a: int, b: int| 0 <= a < b < after.len() implies (
            #[trigger] after[a]).namespace_id != (#[trigger] after[b]).namespace_id by {
                let x = if a < i {
                    a
                } else {
                    a + 1
                };
                let y = if b < i {
                    b
                } else {
                    b + 1
                };
                assert(before_view[x].namespace_id != before_view[y].namespace_id);
            }
            assert forall|a: int, b: int|
                0 <= a < b < after.len() && (#[trigger] after[a]).warehouse_id == (
                #[trigger] after[b]).warehouse_id implies after[a].namespace
                != after[b].namespace by {
                let x = if a < i {
                    a
                } else {
                    a + 1
                };
                let y = if b < i {
                    b
                } else {
                    b + 1
                };
                assert(before_view[x].warehouse_id == before_view[y].warehouse_id);
            }
        }
        Ok(())
    }

    /// Replaces the properties of a namespace by the given ones.
    pub fn update_namespace_properties(
        &mut self,
        warehouse_id: WarehouseIdent,
        namespace: &NamespaceIdent,
        properties: Properties,
    ) -> (r: Result<(), ErrorModel>)
        requires
            old(self).wf(),
        ensures
            final(self).wf(),
            match gate(old(self)@.warehouses, warehouse_id) {
                Some(e) => r is Err && r->Err_0@ == e && final(self)@ == old(self)@,
                None => if !exists|i: int|
                    namespace_at(old(self)@.namespaces, warehouse_id, namespace@, i) {
                    r is Err && r->Err_0@ == namespace_missing() && final(self)@ == old(self)@
                } else {
                    let i = choose|i: int|
                        namespace_at(old(self)@.namespaces, warehouse_id, namespace@, i);
                    r is Ok && final(self)@ == (CatalogView {
                        namespaces: old(self)@.namespaces.update(
                            i,
                            NamespaceView {
                                properties: optional_property_texts(Some(properties)),
                                ..old(self)@.namespaces[i]
                            },
                        ),
                        ..old(self)@
                    })
                },
            },
    {
        match self.require_warehouse(warehouse_id) {
            Ok(()) => {},
            Err(e) => {
                return Err(e);
            },
        }
        let i = match self.find_namespace(warehouse_id, namespace) {
            Some(i) => i,
            None => {
                return Err(no_namespace());
            },
        };
        let ghost before = self.namespaces@;
        let ghost before_view = self@.namespaces;
        let mut row = self.namespaces.remove(i);
        row.properties = Some(properties);
        self.namespaces.insert(i, row);
        proof {
            assert(namespace_views(self.namespaces@) =~= namespace_views(before).update(
                i as int,
                row@,
            ));
            let after = self@.namespaces;
            assert forall|a: int, b: int| 0 <= a < b < after.len() implies (
            #[trigger] after[a]).namespace_id != (#[trigger] after[b]).namespace_id by {
                assert(before_view[a].namespace_id != before_view[b].namespace_id);
            }
            assert forall|a: int, b: int|
                0 <= a < b < after.len() && (#[trigger] after[a]).warehouse_id == (
                #[trigger] after[b]).warehouse_id implies after[a].namespace
                != after[b].namespace by {
                assert(before_view[a].warehouse_id == before_view[b].warehouse_id);
            }
        }
        Ok(())
    }

    /// Adds the row of a new tabular to a namespace of a warehouse that
    /// takes requests: see [`TabularStore::create`].
    pub fn create_tabular(
        &mut self,
        tabular_id: TabularIdentUuid,
        warehouse_id: WarehouseIdent,
        namespace_id: NamespaceIdentUuid,
        name: String,
        metadata_location: Option<String>,
        storage_location: String,
        metadata: Metadata,
        created_at: i64,
    ) -> (r: Result<(), ErrorModel>)
        requires
            old(self).wf(),
        ensures
            final(self).wf(),
            match gate(old(self)@.warehouses, warehouse_id) {
                Some(e) => r is Err && r->Err_0@ == e && final(self)@ == old(self)@,
                None => if !has_namespace_id(old(self)@.namespaces, warehouse_id, namespace_id) {
                    r is Err && r->Err_0@ == namespace_missing() && final(self)@ == old(self)@
                } else {
                    tabulars_become(
                        old(self)@,
                        spec_create(
                            old(self)@.tabulars,
                            new_row(
                                tabular_id,
                                warehouse_id,
                                namespace_id,
                                name@,
                                text_of(metadata_location),
                                storage_location@,
                                metadata@,
                                created_at,
                            ),
                        ),
                        final(self)@,
                        error_in(r),
                    )
                },
            },
    {
        match self.require_warehouse(warehouse_id) {
            Ok(()) => {},
            Err(e) => {
                return Err(e);
            },
        }
        if !self.has_namespace(warehouse_id, namespace_id) {
            return Err(no_namespace());
        }
        self.tabulars.create(
            tabular_id,
            warehouse_id,
            namespace_id,
            name,
            metadata_location,
            storage_location,
            metadata,
            created_at,
        )
    }

    /// Gives a tabular of the warehouse a new name in a namespace of the
    /// same warehouse: see [`TabularStore::rename`].
    pub fn rename_tabular(
        &mut self,
        warehouse_id: WarehouseIdent,
        id: TabularIdentUuid,
        namespace_id: NamespaceIdentUuid,
        name: String,
    ) -> (r: Result<(), ErrorModel>)
        requires
            old(self).wf(),
        ensures
            final(self).wf(),
            match gate(old(self)@.warehouses, warehouse_id) {
                Some(e) => r is Err && r->Err_0@ == e && final(self)@ == old(self)@,
                None => if !has_row(old(self)@.tabulars, id) || old(
                    self,
                )@.tabulars[index_of_row(old(self)@.tabulars, id)].warehouse_id != warehouse_id {
                    r is Err && r->Err_0@ == store_error(ErrorKind::NotFound) && final(self)@
                        == old(self)@
                } else if !has_namespace_id(old(self)@.namespaces, warehouse_id, namespace_id) {
                    r is Err && r->Err_0@ == namespace_missing() && final(self)@ == old(self)@
                } else {
                    tabulars_become(
                        old(self)@,
                        spec_rename(old(self)@.tabulars, id, namespace_id, name@),
                        final(self)@,
                        error_in(r),
                    )
                },
            },
    {
        match self.require_warehouse(warehouse_id) {
            Ok(()) => {},
            Err(e) => {
                return Err(e);
            },
        }
        let home = match self.tabulars.get(id, ListFlags::all()) {
            Some(row) => row.warehouse_id,
            None => {
                return Err(ErrorModel::not_found("Tabular does not exist.", "TabularNotFound"));
            },
        };
        if home != warehouse_id {
            return Err(ErrorModel::not_found("Tabular does not exist.", "TabularNotFound"));
        }
        if !self.has_namespace(warehouse_id, namespace_id) {
            return Err(no_namespace());
        }
        self.tabulars.rename(id, namespace_id, name)
    }

    /// The warehouse that the tabular belongs to, if it exists and its
    /// warehouse takes requests.
    fn writable(&self, id: TabularIdentUuid) -> (r: Result<WarehouseIdent, ErrorModel>)
        requires
            self.wf(),
        ensures
            error_in(r) == write_fault(self@, id),
            r matches Ok(w) ==> w == self@.tabulars[index_of_row(self@.tabulars, id)].warehouse_id,
    {
        let home = match self.tabulars.get(id, ListFlags::all()) {
            Some(row) => row.warehouse_id,
            None => {
                return Err(ErrorModel::not_found("Tabular does not exist.", "TabularNotFound"));
            },
        };
        match self.require_warehouse(home) {
            Ok(()) => Ok(home),
            Err(e) => Err(e),
        }
    }

    /// Removes the row of a tabular whose warehouse takes requests: see
    /// [`TabularStore::drop_tabular`].
    pub fn drop_tabular(&mut self, id: TabularIdentUuid) -> (r: Result<String, ErrorModel>)
        requires
            old(self).wf(),
        ensures
            final(self).wf(),
            match write_fault(old(self)@, id) {
                Some(e) => r is Err && r->Err_0@ == e && final(self)@ == old(self)@,
                None => tabulars_become(
                    old(self)@,
                    spec_drop(old(self)@.tabulars, id),
                    final(self)@,
                    error_in(r),
                ),
            },
            r matches Ok(location) ==> location@ == old(self)@.tabulars[index_of_row(
                old(self)@.tabulars,
                id,
            )].storage_location,
    {
        match self.writable(id) {
            Ok(_) => {},
            Err(e) => {
                return Err(e);
            },
        }
        self.tabulars.drop_tabular(id)
    }

    /// Marks a tabular whose warehouse takes requests as deleted: see
    /// [`TabularStore::mark_tabular_as_deleted`].
    pub fn mark_tabular_as_deleted(
        &mut self,
        id: TabularIdentUuid,
        expiration_task_id: u128,
        now: i64,
        grace_seconds: u64,
    ) -> (r: Result<(), ErrorModel>)
        requires
            old(self).wf(),
        ensures
            final(self).wf(),
            match write_fault(old(self)@, id) {
                Some(e) => r is Err && r->Err_0@ == e && final(self)@ == old(self)@,
                None => tabulars_become(
                    old(self)@,
                    spec_mark_deleted(
                        old(self)@.tabulars,
                        id,
                        expiration_task_id,
                        now,
                        (grace_seconds * MICROS_PER_SECOND) as nat,
                    ),
                    final(self)@,
                    error_in(r),
                ),
            },
    {
        match self.writable(id) {
            Ok(_) => {},
            Err(e) => {
                return Err(e);
            },
        }
        self.tabulars.mark_tabular_as_deleted(id, expiration_task_id, now, grace_seconds)
    }

    /// Commits a batch to tabulars of a warehouse that takes requests: see
    /// [`TabularStore::commit_table_transaction`].
    pub fn commit_table_transaction(&mut self, warehouse_id: WarehouseIdent, commits: Vec<TabularCommit>) -> (r: Result<
        (),
        ErrorModel,
    >)
        requires
            old(self).wf(),
        ensures
            final(self).wf(),
            match gate(old(self)@.warehouses, warehouse_id) {
                Some(e) => r is Err && r->Err_0@ == e && final(self)@ == old(self)@,
                None => tabulars_become(
                    old(self)@,
                    spec_commit_all(old(self)@.tabulars, commit_views(commits@)),
                    final(self)@,
                    error_in(r),
                ),
            },
    {
        match self.require_warehouse(warehouse_id) {
            Ok(()) => {},
            Err(e) => {
                return Err(e);
            },
        }
        self.tabulars.commit_table_transaction(commits)
    }

    /// The identifiers of the tabulars of a warehouse that `flags` show;
    /// none where the warehouse takes no requests.
    pub fn list_tabulars(&self, warehouse_id: WarehouseIdent, flags: ListFlags) -> (ids: Vec<
        TabularIdentUuid,
    >)
        requires
            self.wf(),
        ensures
            ids@ == (if gate(self@.warehouses, warehouse_id) is None {
                spec_list(self@.tabulars, warehouse_id, flags)
            } else {
                Seq::empty()
            }),
    {
        match self.require_warehouse(warehouse_id) {
            Ok(()) => self.tabulars.list(warehouse_id, flags),
            Err(_) => Vec::new(),
        }
    }
}

impl MemoryCatalog {
    /// A page of the tabulars of a warehouse that `flags` show, in ascending
    /// order of their identifiers: see [`crate::pagination::paginate`].
    pub fn list_tabulars_page(
        &self,
        warehouse_id: WarehouseIdent,
        flags: ListFlags,
        query: &crate::pagination::PaginationQuery,
        default_size: usize,
        max_size: usize,
    ) -> (r: Result<crate::pagination::Page, ErrorModel>)
        requires
            self.wf(),
        ensures
            ({
                let ids = if gate(self@.warehouses, warehouse_id) is None {
                    spec_list(self@.tabulars, warehouse_id, flags)
                } else {
                    Seq::empty()
                };
                let limit = crate::pagination::served_page_size(
                    query.page_size,
                    default_size,
                    max_size,
                );
                match query.page_token {
                    Some(token) => match crate::pagination::token_ident(token@) {
                        Some(cursor) => r is Ok && crate::pagination::paged(
                            ids,
                            Some(cursor),
                            limit,
                            r->Ok_0,
                        ),
                        None => r is Err && r->Err_0@ == crate::pagination::invalid_page_token(),
                    },
                    None => r is Ok && crate::pagination::paged(ids, None, limit, r->Ok_0),
                }
            }),
    {
        let ids = self.list_tabulars(warehouse_id, flags);
        crate::pagination::paginate(&ids, query, default_size, max_size)
    }
}

/// Why a tabular cannot be written to, if it cannot: it does not exist, or
/// its warehouse takes no requests.
pub open spec fn write_fault(c: CatalogView, id: TabularIdentUuid) -> Option<ErrorModelView> {
    if !has_row(c.tabulars, id) {
        Some(store_error(ErrorKind::NotFound))
    } else {
        gate(c.warehouses, c.tabulars[index_of_row(c.tabulars, id)].warehouse_id)
    }
}

/// A warehouse that was set inactive takes no requests: its namespaces are
/// not found, and what would change its namespaces or tabulars is refused.
pub proof fn lemma_inactive_warehouse(c: CatalogView, id: WarehouseIdent, ident: Seq<Seq<char>>)
    requires
        gate(c.warehouses, id) == Some(warehouse_inactive()),
    ensures
        spec_namespace_id(c, id, ident) is None,
        forall|t: TabularIdentUuid|
            has_row(c.tabulars, t) && c.tabulars[index_of_row(c.tabulars, t)].warehouse_id == id
                ==> write_fault(c, t) == Some(warehouse_inactive()),
{
}

/// The error for a warehouse that still has tabulars.
pub open spec fn warehouse_not_empty() -> ErrorModelView {
    error_of(ErrorKind::Conflict, "Warehouse is not empty."@, "WarehouseNotEmpty"@)
}

/// Whether a listing of warehouses shows the warehouse: it belongs to the
/// project, its status is one of those asked for (active, where none is asked
/// for), and it is one of those asked for (any, where none is asked for).
pub open spec fn warehouse_listed(
    w: WarehouseView,
    project_id: ProjectIdent,
    statuses: Option<Seq<WarehouseStatus>>,
    ids: Option<Seq<WarehouseIdent>>,
) -> bool {
    &&& w.project_id == project_id
    &&& match statuses {
        Some(wanted) => wanted.contains(w.status),
        None => w.status == WarehouseStatus::Active,
    }
    &&& match ids {
        Some(wanted) => wanted.contains(w.id),
        None => true,
    }
}

/// The warehouses that a listing shows, in their order.
pub open spec fn spec_list_warehouses(
    warehouses: Seq<WarehouseView>,
    project_id: ProjectIdent,
    statuses: Option<Seq<WarehouseStatus>>,
    ids: Option<Seq<WarehouseIdent>>,
) -> Seq<WarehouseView>
    decreases warehouses.len(),
{
    if warehouses.len() == 0 {
        Seq::empty()
    } else {
        let before = spec_list_warehouses(warehouses.drop_last(), project_id, statuses, ids);
        if warehouse_listed(warehouses.last(), project_id, statuses, ids) {
            before.push(warehouses.last())
        } else {
            before
        }
    }
}

/// The names of the namespaces of a warehouse, in their order.
pub open spec fn spec_list_namespaces(namespaces: Seq<NamespaceView>, warehouse_id: WarehouseIdent) -> Seq<
    Seq<Seq<char>>,
>
    decreases namespaces.len(),
{
    if namespaces.len() == 0 {
        Seq::empty()
    } else {
        let before = spec_list_namespaces(namespaces.drop_last(), warehouse_id);
        if namespaces.last().warehouse_id == warehouse_id {
            before.push(namespaces.last().namespace)
        } else {
            before
        }
    }
}

/// The views of a list of names of namespaces.
pub open spec fn namespace_names(namespaces: Seq<NamespaceIdent>) -> Seq<Seq<Seq<char>>> {
    namespaces.map_values(|n: NamespaceIdent| n@)
}

/// Whether a tabular of the warehouse that is not soft-deleted exists.
pub open spec fn has_live_tabular(rows: Seq<TabularView>, warehouse_id: WarehouseIdent) -> bool {
    exists|i: int|
        0 <= i < rows.len() && is_live(#[trigger] rows[i]) && rows[i].warehouse_id == warehouse_id
}

fn status_wanted(wanted: &Vec<WarehouseStatus>, status: WarehouseStatus) -> (b: bool)
    ensures
        b == wanted@.contains(status),
{
    let mut i: usize = 0;
    while i < wanted.len()
        invariant
            i <= wanted.len(),
            forall|j: int| 0 <= j < i ==> wanted@[j] != status,
        decreases wanted.len() - i,
    {
        if wanted[i] == status {
            return true;
        }
        i += 1;
    }
    false
}

fn id_wanted(wanted: &Vec<WarehouseIdent>, id: WarehouseIdent) -> (b: bool)
    ensures
        b == wanted@.contains(id),
{
    let mut i: usize = 0;
    while i < wanted.len()
        invariant
            i <= wanted.len(),
            forall|j: int| 0 <= j < i ==> wanted@[j] != id,
        decreases wanted.len() - i,
    {
        if wanted[i] == id {
            return true;
        }
        i += 1;
    }
    false
}

impl MemoryCatalog {
    fn replace_warehouse(&mut self, i: usize, warehouse: Warehouse)
        requires
            old(self).wf(),
            i < old(self)@.warehouses.len(),
            warehouse.id == old(self)@.warehouses[i as int].id,
        ensures
            final(self).wf(),
            final(self)@ == (CatalogView {
                warehouses: old(self)@.warehouses.update(i as int, warehouse@),
                ..old(self)@
            }),
    {
        let ghost before = self.warehouses@;
        let ghost before_view = self@.warehouses;
        let _ = self.warehouses.remove(i);
        self.warehouses.insert(i, warehouse);
        proof {
            assert(warehouse_views(self.warehouses@) =~= warehouse_views(before).update(
                i as int,
                warehouse@,
            ));
            let after = self@.warehouses;
            assert forall|a: int, b: int| 0 <= a < b < after.len() implies (
            #[trigger] after[a]).id != (#[trigger] after[b]).id by {
                assert(before_view[a].id != before_view[b].id);
            }
        }
    }

    /// Gives a warehouse a new name.
    pub fn rename_warehouse(&mut self, id: WarehouseIdent, new_name: &str) -> (r: Result<
        (),
        ErrorModel,
    >)
        requires
            old(self).wf(),
        ensures
            final(self).wf(),
            if exists|i: int| warehouse_at(old(self)@.warehouses, id, i) {
                let i = choose|i: int| warehouse_at(old(self)@.warehouses, id, i);
                r is Ok && final(self)@ == (CatalogView {
                    warehouses: old(self)@.warehouses.update(
                        i,
                        WarehouseView { name: new_name@, ..old(self)@.warehouses[i] },
                    ),
                    ..old(self)@
                })
            } else {
                r is Err && r->Err_0@ == warehouse_not_found() && final(self)@ == old(self)@
            },
    {
        let i = match self.find_warehouse(id) {
            Some(i) => i,
            None => {
                return Err(warehouse_missing());
            },
        };
        let mut warehouse = self.warehouses[i].duplicate();
        warehouse.name = new_name.to_owned();
        self.replace_warehouse(i, warehouse);
        Ok(())
    }

    /// Gives a warehouse another storage profile and storage secret.
    pub fn update_storage_profile(
        &mut self,
        id: WarehouseIdent,
        storage_profile: StorageProfile,
        storage_secret_id: Option<SecretIdent>,
    ) -> (r: Result<(), ErrorModel>)
        requires
            old(self).wf(),
        ensures
            final(self).wf(),
            if exists|i: int| warehouse_at(old(self)@.warehouses, id, i) {
                let i = choose|i: int| warehouse_at(old(self)@.warehouses, id, i);
                r is Ok && final(self)@ == (CatalogView {
                    warehouses: old(self)@.warehouses.update(
                        i,
                        WarehouseView {
                            storage_profile: storage_profile@,
                            storage_secret_id,
                            ..old(self)@.warehouses[i]
                        },
                    ),
                    ..old(self)@
                })
            } else {
                r is Err && r->Err_0@ == warehouse_not_found() && final(self)@ == old(self)@
            },
    {
        let i = match self.find_warehouse(id) {
            Some(i) => i,
            None => {
                return Err(warehouse_missing());
            },
        };
        let mut warehouse = self.warehouses[i].duplicate();
        warehouse.storage_profile = storage_profile;
        warehouse.storage_secret_id = storage_secret_id;
        self.replace_warehouse(i, warehouse);
        Ok(())
    }

    /// Removes a warehouse. A warehouse with a tabular that is not
    /// soft-deleted is not removed.
    pub fn delete_warehouse(&mut self, id: WarehouseIdent) -> (r: Result<(), ErrorModel>)
        requires
            old(self).wf(),
        ensures
            final(self).wf(),
            if !exists|i: int| warehouse_at(old(self)@.warehouses, id, i) {
                r is Err && r->Err_0@ == warehouse_not_found() && final(self)@ == old(self)@
            } else if has_live_tabular(old(self)@.tabulars, id) {
                r is Err && r->Err_0@ == warehouse_not_empty() && final(self)@ == old(self)@
            } else {
                r is Ok && final(self)@ == (CatalogView {
                    warehouses: old(self)@.warehouses.remove(
                        choose|i: int| warehouse_at(old(self)@.warehouses, id, i),
                    ),
                    ..old(self)@
                })
            },
    {
        let i = match self.find_warehouse(id) {
            Some(i) => i,
            None => {
                return Err(warehouse_missing());
            },
        };
        let live = self.tabulars.list(
            id,
            ListFlags { include_active: true, include_staged: true, include_deleted: false },
        );
        proof {
            let flags = ListFlags {
                include_active: true,
                include_staged: true,
                include_deleted: false,
            };
            let rows = self@.tabulars;
            if live@.len() > 0 {
                let found = live@[0];
                assert(live@.contains(found));
                crate::tabular::lemma_listed(rows, id, flags, found);
                let k = choose|k: int|
                    crate::tabular::row_at(rows, found, k) && (#[trigger] rows[k]).warehouse_id
                        == id && crate::tabular::shows(flags, rows[k].status);
                assert(is_live(rows[k]));
            } else if has_live_tabular(rows, id) {
                let k = choose|k: int|
                    0 <= k < rows.len() && is_live(#[trigger] rows[k]) && rows[k].warehouse_id
                        == id;
                assert(crate::tabular::row_at(rows, rows[k].tabular_id, k));
                crate::tabular::lemma_listed(rows, id, flags, rows[k].tabular_id);
                assert(live@.contains(rows[k].tabular_id));
            }
        }
        if live.len() > 0 {
            return Err(ErrorModel::conflict("Warehouse is not empty.", "WarehouseNotEmpty"));
        }
        let ghost before = self.warehouses@;
        let ghost before_view = self@.warehouses;
        let _ = self.warehouses.remove(i);
        proof {
            assert(warehouse_views(self.warehouses@) =~= warehouse_views(before).remove(i as int));
            let after = self@.warehouses;
            assert forall|a: int, b: int| 0 <= a < b < after.len() implies (
            #[trigger] after[a]).id != (#[trigger] after[b]).id by {
                let x = if a < i {
                    a
                } else {
                    a + 1
                };
                let y = if b < i {
                    b
                } else {
                    b + 1
                };
                assert(before_view[x].id != before_view[y].id);
            }
        }
        Ok(())
    }

    /// The warehouses of a project whose status is one of `statuses` (the
    /// active ones, where none is given) and whose identifier is one of `ids`
    /// (all, where none is given).
    pub fn list_warehouses(
        &self,
        project_id: ProjectIdent,
        statuses: Option<&Vec<WarehouseStatus>>,
        ids: Option<&Vec<WarehouseIdent>>,
    ) -> (listed: Vec<Warehouse>)
        ensures
            warehouse_views(listed@) == spec_list_warehouses(
                self@.warehouses,
                project_id,
                match statuses {
                    Some(wanted) => Some(wanted@),
                    None => None,
                },
                match ids {
                    Some(wanted) => Some(wanted@),
                    None => None,
                },
            ),
    {
        let ghost wanted_statuses = match statuses {
            Some(wanted) => Some(wanted@),
            None => None,
        };
        let ghost wanted_ids = match ids {
            Some(wanted) => Some(wanted@),
            None => None,
        };
        let mut listed: Vec<Warehouse> = Vec::new();
        let mut i: usize = 0;
        assert(self@.warehouses.take(0) =~= Seq::<WarehouseView>::empty());
        assert(warehouse_views(listed@) =~= Seq::<WarehouseView>::empty());
        while i < self.warehouses.len()
            invariant
                i <= self.warehouses.len(),
                wanted_statuses == (match statuses {
                    Some(wanted) => Some(wanted@),
                    None => None,
                }),
                wanted_ids == (match ids {
                    Some(wanted) => Some(wanted@),
                    None => None,
                }),
                warehouse_views(listed@) == spec_list_warehouses(
                    self@.warehouses.take(i as int),
                    project_id,
                    wanted_statuses,
                    wanted_ids,
                ),
            decreases self.warehouses.len() - i,
        {
            assert(self@.warehouses.take(i + 1).drop_last() =~= self@.warehouses.take(i as int));
            assert(self@.warehouses.take(i + 1).last() == self.warehouses[i as int]@);
            let w = &self.warehouses[i];
            let status_ok = match statuses {
                Some(wanted) => status_wanted(wanted, w.status),
                None => match w.status {
                    WarehouseStatus::Active => true,
                    WarehouseStatus::Inactive => false,
                },
            };
            let id_ok = match ids {
                Some(wanted) => id_wanted(wanted, w.id),
                None => true,
            };
            if w.project_id == project_id && status_ok && id_ok {
                let ghost before = listed@;
                let copy = w.duplicate();
                listed.push(copy);
                assert(warehouse_views(before.push(copy)) =~= warehouse_views(before).push(copy@));
            }
            i += 1;
        }
        assert(self@.warehouses.take(i as int) =~= self@.warehouses);
        listed
    }

    /// The projects that have a warehouse, each once.
    pub fn list_projects(&self) -> (projects: Vec<ProjectIdent>)
        ensures
            projects@.no_duplicates(),
            forall|p: ProjectIdent|
                projects@.contains(p) <==> exists|i: int|
                    0 <= i < self@.warehouses.len() && (#[trigger] self@.warehouses[i]).project_id
                        == p,
    {
        let mut projects: Vec<ProjectIdent> = Vec::new();
        let mut i: usize = 0;
        while i < self.warehouses.len()
            invariant
                i <= self.warehouses.len(),
                projects@.no_duplicates(),
                forall|p: ProjectIdent|
                    projects@.contains(p) <==> exists|k: int|
                        0 <= k < i && (#[trigger] self@.warehouses[k]).project_id == p,
            decreases self.warehouses.len() - i,
        {
            let project = self.warehouses[i].project_id;
            let mut known = false;
            let mut k: usize = 0;
            while k < projects.len()
                invariant
                    k <= projects.len(),
                    known == exists|j: int| 0 <= j < k && projects@[j] == project,
                decreases projects.len() - k,
            {
                if projects[k] == project {
                    known = true;
                }
                k += 1;
            }
            let ghost before = projects@;
            if !known {
                projects.push(project);
                assert(projects@[before.len() as int] == project);
            }
            proof {
                assert(self@.warehouses[i as int].project_id == project);
                assert forall|p: ProjectIdent|
                    projects@.contains(p) <==> exists|n: int|
                        0 <= n < i + 1 && (#[trigger] self@.warehouses[n]).project_id == p by {
                    if projects@.contains(p) {
                        let j = choose|j: int| 0 <= j < projects@.len() && projects@[j] == p;
                        if j < before.len() {
                            assert(before[j] == p);
                            assert(before.contains(p));
                        }
                    }
                    if exists|n: int|
                        0 <= n < i + 1 && (#[trigger] self@.warehouses[n]).project_id == p {
                        let n = choose|n: int|
                            0 <= n < i + 1 && (#[trigger] self@.warehouses[n]).project_id == p;
                        if n < i {
                            assert(before.contains(p));
                            let j = choose|j: int| 0 <= j < before.len() && before[j] == p;
                            assert(projects@[j] == p);
                        } else if known {
                            let j = choose|j: int| 0 <= j < before.len() && before[j] == project;
                            assert(projects@[j] == p);
                        }
                    }
                }
            }
            i += 1;
        }
        projects
    }

    /// The names of the namespaces of a warehouse that takes requests.
    pub fn list_namespaces(&self, warehouse_id: WarehouseIdent) -> (r: Result<
        Vec<NamespaceIdent>,
        ErrorModel,
    >)
        requires
            self.wf(),
        ensures
            match gate(self@.warehouses, warehouse_id) {
                Some(e) => r is Err && r->Err_0@ == e,
                None => r is Ok && namespace_names(r->Ok_0@) == spec_list_namespaces(
                    self@.namespaces,
                    warehouse_id,
                ),
            },
    {
        match self.require_warehouse(warehouse_id) {
            Ok(()) => {},
            Err(e) => {
                return Err(e);
            },
        }
        let mut names: Vec<NamespaceIdent> = Vec::new();
        let mut i: usize = 0;
        assert(self@.namespaces.take(0) =~= Seq::<NamespaceView>::empty());
        assert(namespace_names(names@) =~= Seq::<Seq<Seq<char>>>::empty());
        while i < self.namespaces.len()
            invariant
                i <= self.namespaces.len(),
                namespace_names(names@) == spec_list_namespaces(
                    self@.namespaces.take(i as int),
                    warehouse_id,
                ),
            decreases self.namespaces.len() - i,
        {
            assert(self@.namespaces.take(i + 1).drop_last() =~= self@.namespaces.take(i as int));
            assert(self@.namespaces.take(i + 1).last() == self.namespaces[i as int]@);
            if self.namespaces[i].warehouse_id == warehouse_id {
                let ghost before = names@;
                let copy = self.namespaces[i].namespace.duplicate();
                names.push(copy);
                assert(namespace_names(before.push(copy)) =~= namespace_names(before).push(copy@));
            }
            i += 1;
        }
        assert(self@.namespaces.take(i as int) =~= self@.namespaces);
        Ok(names)
    }

    /// The identifier of the table or the view of the given name; none where
    /// the warehouse takes no requests, where it has no such namespace, and
    /// where the namespace has no such tabular that `flags` show. None of
    /// these is an error.
    pub fn tabular_ident_to_id(
        &self,
        warehouse_id: WarehouseIdent,
        namespace: &NamespaceIdent,
        table: bool,
        name: &String,
        flags: ListFlags,
    ) -> (id: Option<TabularIdentUuid>)
        requires
            self.wf(),
        ensures
            spec_namespace_id(self@, warehouse_id, namespace@) is None ==> id is None,
            spec_namespace_id(self@, warehouse_id, namespace@) matches Some(namespace_id) ==> {
                let rows = self@.tabulars;
                &&& id matches Some(found) ==> exists|i: int|
                    #![trigger rows[i]]
                    {
                        &&& crate::tabular::row_at(rows, found, i)
                        &&& crate::tabular::has_name(
                            rows[i],
                            warehouse_id,
                            namespace_id,
                            table,
                            name@,
                        )
                        &&& crate::tabular::shows(flags, rows[i].status)
                        &&& forall|j: int|
                            0 <= j < i ==> !(crate::tabular::has_name(
                                #[trigger] rows[j],
                                warehouse_id,
                                namespace_id,
                                table,
                                name@,
                            ) && crate::tabular::shows(flags, rows[j].status))
                    }
                &&& id is None ==> forall|j: int|
                    0 <= j < rows.len() ==> !(crate::tabular::has_name(
                        #[trigger] rows[j],
                        warehouse_id,
                        namespace_id,
                        table,
                        name@,
                    ) && crate::tabular::shows(flags, rows[j].status))
            },
    {
        match self.namespace_ident_to_id(warehouse_id, namespace) {
            Some(namespace_id) => self.tabulars.tabular_ident_to_id(
                warehouse_id,
                namespace_id,
                table,
                name,
                flags,
            ),
            None => None,
        }
    }
}

} // verus!
