//! Warehouses, the rule for where a tabular may lie, and the values the
//! catalog backend hands out.

use crate::error::{error_of, ErrorKind, ErrorModel, ErrorModelView};
use crate::ident::{
    hyphenated_text, lemma_hyphenated_text, parse_uuid, parsed_uuid, NamespaceIdentUuid,
    ProjectIdent, SecretIdent, TableIdentUuid, WarehouseIdent,
};
use crate::location::{
    is_sublocation, lemma_pieces_of_segment, parse_location, same_place, texts, Location,
    LocationView,
};
use crate::names::{NamespaceIdent, TableIdent};
use crate::storage::{
    copy_properties, optional_property_texts, Properties, StorageProfile, StorageProfileView,
};
use crate::tabular_idents::TabularIdentUuid;
use vstd::prelude::*;

verus! {

/// Whether a warehouse takes requests.
#[derive(Debug, Clone, Copy, PartialEq, Eq, Structural)]
pub enum WarehouseStatus {
    Active,
    Inactive,
}

/// What a drop does to a tabular of the warehouse.
#[derive(Debug, Clone, Copy, PartialEq, Eq, Structural)]
pub enum TabularDeleteProfile {
    /// The row is removed at once.
    Hard,
    /// The row is marked as deleted and expires after the grace period.
    Soft { expiration_seconds: u64 },
}

/// A metadata document of a table or a view: the identifier it was built
/// for, and its serialized form.
#[derive(Debug, Clone)]
pub struct Metadata {
    pub uuid: u128,
    pub document: Vec<u8>,
}

/// What a [`Metadata`] holds, as plain values.
pub struct MetadataView {
    pub uuid: u128,
    pub document: Seq<u8>,
}

impl View for Metadata {
    type V = MetadataView;

    open spec fn view(&self) -> MetadataView {
        MetadataView { uuid: self.uuid, document: self.document@ }
    }
}

impl Metadata {
    /// A copy of the document.
    pub fn duplicate(&self) -> (copy: Self)
        ensures
            copy@ == self@,
    {
        Metadata { uuid: self.uuid, document: self.document.clone() }
    }
}

/// A namespace as the backend keeps it.
#[derive(Debug)]
pub struct GetNamespaceResponse {
    /// Reference to one or more levels of a namespace
    pub namespace: NamespaceIdent,
    pub namespace_id: NamespaceIdentUuid,
    pub warehouse_id: WarehouseIdent,
    pub properties: Option<Properties>,
}

/// What the backend answers when a table was created.
#[derive(Debug)]
pub struct CreateTableResponse {
    pub table_metadata: Metadata,
}

/// A table as the backend loads it: its metadata, and what is needed to
/// reach its storage.
#[derive(Debug)]
pub struct LoadTableResponse {
    pub table_id: TableIdentUuid,
    pub namespace_id: NamespaceIdentUuid,
    pub table_metadata: Metadata,
    pub metadata_location: Option<String>,
    pub storage_secret_ident: Option<SecretIdent>,
    pub storage_profile: StorageProfile,
}

/// Where a table and its metadata file lie, and what is needed to reach its
/// storage.
#[derive(Debug)]
pub struct GetTableMetadataResponse {
    pub table: TableIdent,
    pub table_id: TableIdentUuid,
    pub warehouse_id: WarehouseIdent,
    pub location: String,
    pub metadata_location: Option<String>,
    pub storage_secret_ident: Option<SecretIdent>,
    pub storage_profile: StorageProfile,
}

/// What is needed to reach the storage of a warehouse.
#[derive(Debug)]
pub struct GetStorageConfigResponse {
    pub storage_profile: StorageProfile,
    pub storage_secret_ident: Option<SecretIdent>,
}

/// A proposed new state of a table: its metadata and where the metadata file
/// is to lie.
#[derive(Debug, Clone)]
pub struct TableCommit {
    pub new_metadata: Metadata,
    pub new_metadata_location: Location,
}

/// The metadata of a view, and where its metadata file lies.
#[derive(Debug, Clone)]
pub struct ViewMetadataWithLocation {
    pub metadata_location: String,
    pub metadata: Metadata,
}

/// When a soft-deleted tabular was created and deleted, and when and by
/// which task it expires. Times are microseconds since the Unix epoch.
#[derive(Debug, Clone, Copy, PartialEq, Eq, Structural)]
pub struct DeletionDetails {
    pub expiration_task_id: u128,
    pub expiration_date: i64,
    pub deleted_at: i64,
    pub created_at: i64,
}

/// A warehouse: a container of namespaces and tabulars, bound to one storage
/// profile.
#[derive(Debug, Clone)]
pub struct Warehouse {
    /// ID of the warehouse.
    pub id: WarehouseIdent,
    /// Name of the warehouse.
    pub name: String,
    /// Project ID in which the warehouse is created.
    pub project_id: ProjectIdent,
    /// Storage profile used for the warehouse.
    pub storage_profile: StorageProfile,
    /// Storage secret ID used for the warehouse.
    pub storage_secret_id: Option<SecretIdent>,
    /// Whether the warehouse is active.
    pub status: WarehouseStatus,
    /// Tabular delete profile used for the warehouse.
    pub tabular_delete_profile: TabularDeleteProfile,
}

/// What a [`Warehouse`] holds, as plain values.
pub struct WarehouseView {
    pub id: WarehouseIdent,
    pub name: Seq<char>,
    pub project_id: ProjectIdent,
    pub storage_profile: StorageProfileView,
    pub storage_secret_id: Option<SecretIdent>,
    pub status: WarehouseStatus,
    pub tabular_delete_profile: TabularDeleteProfile,
}

impl View for Warehouse {
    type V = WarehouseView;

    open spec fn view(&self) -> WarehouseView {
        WarehouseView {
            id: self.id,
            name: self.name@,
            project_id: self.project_id,
            storage_profile: self.storage_profile@,
            storage_secret_id: self.storage_secret_id,
            status: self.status,
            tabular_delete_profile: self.tabular_delete_profile,
        }
    }
}

impl WarehouseView {
    /// The location under which everything of the warehouse lies: the base
    /// of the storage profile, followed by the warehouse's identifier.
    pub open spec fn base_location(self) -> Option<LocationView> {
        match self.storage_profile.base_location() {
            Some(base) => Some(
                LocationView {
                    segments: base.segments.push(hyphenated_text(self.id.0)),
                    trailing_slash: false,
                    ..base
                },
            ),
            None => None,
        }
    }

    /// Whether a tabular of this warehouse may lie at `other`: strictly
    /// under the warehouse's base.
    pub open spec fn allows(self, other: LocationView) -> bool {
        match self.base_location() {
            Some(base) => strictly_under(other, base),
            None => false,
        }
    }

    /// The default location of a tabular: the namespace's identifier and the
    /// tabular's under the warehouse's base, with a trailing slash.
    pub open spec fn default_location(self, namespace_id: u128, tabular_id: u128) -> Option<
        LocationView,
    > {
        match self.base_location() {
            Some(base) => Some(
                LocationView {
                    segments: base.segments.push(hyphenated_text(namespace_id)).push(
                        hyphenated_text(tabular_id),
                    ),
                    trailing_slash: true,
                    ..base
                },
            ),
            None => None,
        }
    }
}

/// What a [`GetNamespaceResponse`] holds, as plain values.
pub struct NamespaceView {
    pub namespace: Seq<Seq<char>>,
    pub namespace_id: NamespaceIdentUuid,
    pub warehouse_id: WarehouseIdent,
    pub properties: Option<Seq<(Seq<char>, Seq<char>)>>,
}

impl View for GetNamespaceResponse {
    type V = NamespaceView;

    open spec fn view(&self) -> NamespaceView {
        NamespaceView {
            namespace: self.namespace@,
            namespace_id: self.namespace_id,
            warehouse_id: self.warehouse_id,
            properties: optional_property_texts(self.properties),
        }
    }
}

impl GetNamespaceResponse {
    /// A copy of the namespace.
    pub fn duplicate(&self) -> (copy: Self)
        ensures
            copy@ == self@,
    {
        GetNamespaceResponse {
            namespace: self.namespace.duplicate(),
            namespace_id: self.namespace_id,
            warehouse_id: self.warehouse_id,
            properties: match &self.properties {
                Some(p) => Some(copy_properties(p)),
                None => None,
            },
        }
    }
}

/// Whether `l` lies under `base` and is not `base` itself.
pub open spec fn strictly_under(l: LocationView, base: LocationView) -> bool {
    is_sublocation(l, base) && !same_place(l, base)
}

/// The canonical layout of a tabular: under the base, with exactly two
/// segments after it.
pub open spec fn canonical_layout(l: LocationView, base: LocationView) -> bool {
    is_sublocation(l, base) && l.segments.len() == base.segments.len() + 2
}

/// The table identifier that a tail of path segments names under the
/// namespace `namespace_id`: the tail is the namespace's identifier followed by
/// the table's.
pub open spec fn table_id_in(tail: Seq<Seq<char>>, namespace_id: u128) -> Option<u128> {
    if tail.len() == 2 && parsed_uuid(tail[0]) == Some(namespace_id) {
        parsed_uuid(tail[1])
    } else {
        None
    }
}

/// The error for a location that is not strictly under the warehouse.
pub open spec fn location_not_allowed() -> ErrorModelView {
    error_of(
        ErrorKind::BadRequest,
        "Table location is not allowed. Table location cannot be the same as the warehouse location."@,
        "InvalidTableLocation"@,
    )
}

/// The error for a location under the warehouse that is not of the
/// canonical layout.
pub open spec fn location_bad_layout() -> ErrorModelView {
    error_of(
        ErrorKind::BadRequest,
        "Table location is not allowed. Table location has to be of format '{warehouse_location}/{namespace_id}/{table_id}'."@,
        "InvalidTableLocation"@,
    )
}

/// The error for a text that is no location, or a profile without a base.
pub open spec fn location_invalid() -> ErrorModelView {
    error_of(ErrorKind::BadRequest, "Location is not valid."@, "InvalidLocation"@)
}

/// The error for a request to a warehouse that is not active.
pub open spec fn warehouse_inactive() -> ErrorModelView {
    error_of(ErrorKind::WarehouseInactive, "Warehouse is not active."@, "WarehouseNotActive"@)
}

fn bad_layout() -> (e: ErrorModel)
    ensures
        e@ == location_bad_layout(),
{
    ErrorModel::bad_request(
        "Table location is not allowed. Table location has to be of format '{warehouse_location}/{namespace_id}/{table_id}'.",
        "InvalidTableLocation",
    )
}

/// The table identifier named by the two parsed segments after the
/// warehouse's base: the first has to be the namespace's identifier, the second
/// is the table's.
pub fn table_id_of_tail(
    namespace_id: NamespaceIdentUuid,
    first: Option<u128>,
    second: Option<u128>,
) -> (r: Result<u128, ErrorModel>)
    ensures
        r is Ok <==> first == Some(namespace_id.0) && second is Some,
        r matches Ok(id) ==> second == Some(id),
        r matches Err(e) ==> e@ == location_bad_layout(),
{
    match first {
        Some(ns) => {
            if ns != namespace_id.0 {
                return Err(bad_layout());
            }
        },
        None => {
            return Err(bad_layout());
        },
    }
    match second {
        Some(id) => Ok(id),
        None => Err(bad_layout()),
    }
}

/// Refuses a warehouse that is not active.
pub fn require_active_warehouse(status: WarehouseStatus) -> (r: Result<(), ErrorModel>)
    ensures
        r is Ok <==> status == WarehouseStatus::Active,
        r matches Err(e) ==> e@ == warehouse_inactive(),
{
    match status {
        WarehouseStatus::Active => Ok(()),
        WarehouseStatus::Inactive => Err(
            ErrorModel::new(
                ErrorKind::WarehouseInactive,
                "Warehouse is not active.",
                "WarehouseNotActive",
            ),
        ),
    }
}

impl Warehouse {
    /// A copy of the warehouse.
    pub fn duplicate(&self) -> (copy: Self)
        ensures
            copy@ == self@,
    {
        Warehouse {
            id: self.id,
            name: self.name.clone(),
            project_id: self.project_id,
            storage_profile: self.storage_profile.duplicate(),
            storage_secret_id: self.storage_secret_id,
            status: self.status,
            tabular_delete_profile: self.tabular_delete_profile,
        }
    }

    /// The location under which everything of the warehouse lies: see
    /// [`WarehouseView::base_location`].
    pub open spec fn spec_base_location(&self) -> Option<LocationView> {
        self@.base_location()
    }

    /// Whether a tabular of this warehouse may lie at `other`: see
    /// [`WarehouseView::allows`].
    pub open spec fn allows(&self, other: LocationView) -> bool {
        self@.allows(other)
    }

    /// The default location of a tabular: see
    /// [`WarehouseView::default_location`].
    pub open spec fn spec_default_location(
        &self,
        namespace_id: u128,
        tabular_id: u128,
    ) -> Option<LocationView> {
        self@.default_location(namespace_id, tabular_id)
    }

    /// The location under which everything of the warehouse lies.
    pub fn base_location(&self) -> (r: Result<Location, ErrorModel>)
        ensures
            r is Ok <==> self.spec_base_location() is Some,
            r matches Ok(l) ==> l.wf() && Some(l@) == self.spec_base_location(),
            r matches Err(e) ==> e@ == location_invalid(),
    {
        let mut location = match self.storage_profile.base_location() {
            Ok(location) => location,
            Err(e) => {
                return Err(e);
            },
        };
        let id = self.id.to_string();
        proof {
            lemma_hyphenated_text(self.id.0);
            lemma_pieces_of_segment(id@);
        }
        location.without_trailing_slash();
        location.push(id.as_str());
        assert(location@.segments =~= self.storage_profile.spec_base_location()->0.segments.push(
            id@,
        ));
        Ok(location)
    }

    /// Whether a tabular of this warehouse may lie at `other`: under the
    /// warehouse's base, and not the base itself.
    #[must_use]
    pub fn is_allowed_location(&self, other: &Location) -> (allowed: bool)
        ensures
            allowed == self.allows(other@),
    {
        match self.base_location() {
            Ok(base_location) => {
                if other.is_same_place(&base_location) {
                    return false;
                }
                other.is_sublocation_of(&base_location)
            },
            Err(_) => false,
        }
    }

    /// Checks that `other` is of the layout
    /// `{warehouse_location}/{namespace_id}/{table_id}` for the given
    /// namespace, and hands out the table's identifier.
    pub fn check_allowed_table_location(
        &self,
        namespace: &GetNamespaceResponse,
        other: &Location,
    ) -> (r: Result<u128, ErrorModel>)
        ensures
            self.spec_base_location() is None ==> r is Err && r->Err_0@ == location_invalid(),
            self.spec_base_location() is Some && !self.allows(other@) ==> r is Err && r->Err_0@
                == location_not_allowed(),
            self.spec_base_location() matches Some(base) ==> (self.allows(other@) ==> {
                let tail = other@.segments.skip(base.segments.len() as int);
                match table_id_in(tail, namespace.namespace_id.0) {
                    Some(id) => r == Ok::<u128, ErrorModel>(id),
                    None => r is Err && r->Err_0@ == location_bad_layout(),
                }
            }),
            r is Ok ==> canonical_layout(other@, self.spec_base_location()->0),
    {
        let base_location = match self.base_location() {
            Ok(location) => location,
            Err(e) => {
                return Err(e);
            },
        };
        if !other.is_sublocation_of(&base_location) || other.is_same_place(&base_location) {
            return Err(
                ErrorModel::bad_request(
                    "Table location is not allowed. Table location cannot be the same as the warehouse location.",
                    "InvalidTableLocation",
                ),
            );
        }
        let segments = other.segments();
        let base_segments = base_location.segments();
        let skip = base_segments.len();
        assert(texts(segments@).len() == segments@.len());
        assert(texts(base_segments@).len() == skip);
        let ghost tail = other@.segments.skip(skip as int);
        if segments.len() - skip != 2 {
            return Err(bad_layout());
        }
        let first = parse_uuid(segments[skip].as_str());
        let second = parse_uuid(segments[skip + 1].as_str());
        assert(tail[0] == segments[skip as int]@);
        assert(tail[1] == segments[skip + 1]@);
        table_id_of_tail(namespace.namespace_id, first, second)
    }

    /// Where a new tabular lies. A location that the request gives has to
    /// be of the canonical layout under this warehouse; without one the
    /// default location of the tabular is taken.
    pub fn determine_tabular_location(
        &self,
        namespace: &GetNamespaceResponse,
        request_location: Option<&str>,
        tabular_id: TabularIdentUuid,
    ) -> (r: Result<Location, ErrorModel>)
        ensures
            self.spec_base_location() is None ==> r is Err && r->Err_0@ == location_invalid(),
            self.spec_base_location() is Some && request_location is None ==> r is Ok && Some(
                r->Ok_0@,
            ) == self.spec_default_location(namespace.namespace_id.0, tabular_id.spec_uuid()),
            self.spec_base_location() matches Some(base) ==> (request_location matches Some(text)
                ==> match parse_location(text@) {
                None => r is Err && r->Err_0@ == location_invalid(),
                Some(l) => if !self.allows(l) {
                    r is Err && r->Err_0@ == location_not_allowed()
                } else if table_id_in(
                    l.segments.skip(base.segments.len() as int),
                    namespace.namespace_id.0,
                ) is None {
                    r is Err && r->Err_0@ == location_bad_layout()
                } else {
                    r is Ok && r->Ok_0@ == l
                },
            }),
            r matches Ok(l) ==> l.wf() && self.allows(l@) && canonical_layout(
                l@,
                self.spec_base_location()->0,
            ),
    {
        match request_location {
            Some(text) => {
                let location = match Location::from_str(text) {
                    Ok(location) => location,
                    Err(e) => {
                        return Err(e);
                    },
                };
                match self.check_allowed_table_location(namespace, &location) {
                    Ok(_) => Ok(location),
                    Err(e) => Err(e),
                }
            },
            None => {
                let mut location = match self.base_location() {
                    Ok(location) => location,
                    Err(e) => {
                        return Err(e);
                    },
                };
                let ghost base = location@;
                let namespace_text = namespace.namespace_id.to_string();
                let tabular_text = tabular_id.to_string();
                proof {
                    lemma_hyphenated_text(namespace.namespace_id.0);
                    lemma_hyphenated_text(tabular_id.spec_uuid());
                    lemma_pieces_of_segment(namespace_text@);
                    lemma_pieces_of_segment(tabular_text@);
                }
                location.push(namespace_text.as_str());
                location.push(tabular_text.as_str());
                location.with_trailing_slash();
                proof {
                    assert(location@.segments =~= base.segments.push(namespace_text@).push(
                        tabular_text@,
                    ));
                    assert(base.segments =~= location@.segments.subrange(
                        0,
                        base.segments.len() as int,
                    ));
                }
                Ok(location)
            },
        }
    }
}

/// The warehouse's base is not an allowed location, with or without a
/// trailing slash.
pub proof fn lemma_base_is_not_allowed(warehouse: Warehouse, other: LocationView)
    requires
        warehouse.spec_base_location() matches Some(base) && same_place(other, base),
    ensures
        !warehouse.allows(other),
{
}

/// A location in another bucket is not allowed.
pub proof fn lemma_other_bucket_is_not_allowed(warehouse: Warehouse, other: LocationView)
    requires
        warehouse.storage_profile.spec_base_location() matches Some(base) && other.authority
            != base.authority,
    ensures
        !warehouse.allows(other),
{
}

/// A location that does not lie under the key prefix of the storage profile
/// is not allowed.
pub proof fn lemma_other_prefix_is_not_allowed(warehouse: Warehouse, other: LocationView)
    requires
        warehouse.storage_profile.spec_base_location() matches Some(base)
            && !base.segments.is_prefix_of(other.segments),
    ensures
        !warehouse.allows(other),
{
    let base = warehouse.storage_profile.spec_base_location()->0;
    let full = warehouse.spec_base_location()->0;
    if full.segments.is_prefix_of(other.segments) {
        assert(base.segments =~= other.segments.subrange(0, base.segments.len() as int)) by {
            assert forall|i: int| 0 <= i < base.segments.len() implies base.segments[i]
                == other.segments[i] by {
                assert(full.segments[i] == other.segments.subrange(
                    0,
                    full.segments.len() as int,
                )[i]);
            }
        }
    }
}

/// An allowed location has at least one segment more than the warehouse's
/// base, and a location of the canonical layout is allowed.
pub proof fn lemma_canonical_layout_is_allowed(warehouse: Warehouse, other: LocationView)
    requires
        warehouse.spec_base_location() matches Some(base) && canonical_layout(other, base),
    ensures
        warehouse.allows(other),
{
}

} // verus!
