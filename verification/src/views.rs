//! Creating a view: what is checked of a request, and the decisions between
//! the calls to the authorizer, the catalog backend, the secret store and the
//! object store.

use crate::catalog::{
    canonical_layout, location_bad_layout, location_invalid, location_not_allowed,
    require_active_warehouse, table_id_in, warehouse_inactive, GetNamespaceResponse, Metadata,
    Warehouse, WarehouseStatus, WarehouseView,
};
use crate::error::{error_of, ErrorKind, ErrorModel, ErrorModelView};
use crate::ident::{
    new_uuid_v7, parse_uuid, parsed_uuid, NamespaceIdentUuid, SecretIdent, WarehouseIdent,
};
use crate::location::{location_text, parse_location, Location, LocationView};
use crate::names::{
    url_text, valid_ident, validate_table_or_view_ident, NamespaceIdent, TableIdent, TableIdentView,
};
use crate::storage::{codec_of, metadata_location, CompressionCodec, Properties};
use crate::tabular_idents::TabularIdentUuid;
use crate::text::{same_str, starts_with};
use vstd::prelude::*;

verus! {

/// A query that defines a view, in one SQL dialect.
#[derive(Debug, Clone)]
pub struct SqlViewRepresentation {
    pub sql: String,
    pub dialect: String,
}

/// What a request to create a view asks for, as far as the catalog decides
/// on it.
#[derive(Debug, Clone)]
pub struct CreateViewRequest {
    pub name: String,
    pub location: Option<String>,
    pub properties: Properties,
    pub representations: Vec<SqlViewRepresentation>,
}

/// How a client wants to reach the data.
#[derive(Debug, Clone, Copy, PartialEq, Eq, Structural)]
pub struct DataAccess {
    pub vended_credentials: bool,
    pub remote_signing: bool,
}

/// What vended credentials allow.
#[derive(Debug, Clone, Copy, PartialEq, Eq, Structural)]
pub enum StoragePermissions {
    Read,
    ReadWrite,
    ReadWriteDelete,
}

/// What goes with the notice of a change.
#[derive(Debug, Clone)]
pub struct EventMetadata {
    pub tabular_id: TabularIdentUuid,
    pub warehouse_id: u128,
    pub name: String,
    pub namespace: String,
    pub prefix: String,
    pub num_events: usize,
    pub sequence_number: usize,
    pub trace_id: u128,
}

/// What a client gets of a view: its metadata, where the metadata file lies,
/// and how to reach the storage.
#[derive(Debug, Clone)]
pub struct LoadViewResult {
    pub metadata_location: String,
    pub metadata: Metadata,
    pub config: Option<Properties>,
}

/// The prefix under which unsupported properties lie.
pub open spec fn reserved_prefix() -> Seq<char> {
    "write.metadata"@
}

/// Whether a request may set the property `key`: it does not lie under the
/// reserved prefix, or it is one of the three properties there that a request
/// may set.
pub open spec fn is_allowed_key(key: Seq<char>) -> bool {
    ||| !reserved_prefix().is_prefix_of(key)
    ||| key == "write.metadata.compression-codec"@
    ||| key == "write.metadata.delete-after-commit.enabled"@
    ||| key == "write.metadata.previous-versions-max"@
}

/// Whether a request may set every one of the properties.
pub open spec fn valid_view_properties(properties: Seq<(String, String)>) -> bool {
    forall|i: int| 0 <= i < properties.len() ==> is_allowed_key((#[trigger] properties[i]).0@)
}

/// The error for a request without a warehouse prefix.
pub open spec fn no_prefix_provided() -> ErrorModelView {
    error_of(ErrorKind::BadRequest, "No prefix specified."@, "NoPrefixProvided"@)
}

/// The error for a prefix that is no warehouse identifier.
pub open spec fn prefix_is_no_uuid() -> ErrorModelView {
    error_of(ErrorKind::BadRequest, "Provided prefix is not a warehouse id."@, "PrefixIsNotUUID"@)
}

/// The error for a property that a request may not set.
pub open spec fn unsupported_property() -> ErrorModelView {
    error_of(
        ErrorKind::BadRequest,
        "Properties contain unsupported property."@,
        "FailedToSetProperties"@,
    )
}

/// The error for a view without a query.
pub open spec fn empty_view() -> ErrorModelView {
    error_of(ErrorKind::BadRequest, "View must have at least one query."@, "EmptyView"@)
}

/// The error for an identifier that is not well-formed.
pub open spec fn invalid_identifier() -> ErrorModelView {
    error_of(ErrorKind::BadRequest, "Identifier is not well-formed."@, "InvalidIdentifier"@)
}

/// The warehouse that the prefix of a request names, for a prefix whose
/// text parses to `parsed`.
pub open spec fn warehouse_of_prefix(has_prefix: bool, parsed: Option<u128>) -> Result<
    WarehouseIdent,
    ErrorModelView,
> {
    if !has_prefix {
        Err(no_prefix_provided())
    } else {
        match parsed {
            Some(v) => Ok(WarehouseIdent(v)),
            None => Err(prefix_is_no_uuid()),
        }
    }
}

/// A result with the error as plain values.
pub open spec fn with_error_view<T>(r: Result<T, ErrorModel>) -> Result<T, ErrorModelView> {
    match r {
        Ok(v) => Ok(v),
        Err(e) => Err(e@),
    }
}

/// The warehouse that a prefix names, given what the text of the prefix
/// parses to.
pub fn warehouse_id_of(has_prefix: bool, parsed: Option<u128>) -> (r: Result<
    WarehouseIdent,
    ErrorModel,
>)
    ensures
        with_error_view(r) == warehouse_of_prefix(has_prefix, parsed),
{
    if !has_prefix {
        return Err(ErrorModel::bad_request("No prefix specified.", "NoPrefixProvided"));
    }
    match parsed {
        Some(v) => Ok(WarehouseIdent(v)),
        None => Err(
            ErrorModel::bad_request("Provided prefix is not a warehouse id.", "PrefixIsNotUUID"),
        ),
    }
}

/// The warehouse that the prefix of a request names. A request without a
/// prefix, or with one that is no identifier, is refused.
pub fn require_warehouse_id(prefix: Option<&str>) -> (r: Result<WarehouseIdent, ErrorModel>)
    ensures
        with_error_view(r) == warehouse_of_prefix(
            prefix is Some,
            match prefix {
                Some(p) => parsed_uuid(p@),
                None => None,
            },
        ),
{
    match prefix {
        None => warehouse_id_of(false, None),
        Some(p) => warehouse_id_of(true, parse_uuid(p)),
    }
}

fn is_allowed_key_exec(key: &str) -> (b: bool)
    ensures
        b == is_allowed_key(key@),
{
    !starts_with(key, "write.metadata") || same_str(key, "write.metadata.compression-codec")
        || same_str(key, "write.metadata.delete-after-commit.enabled") || same_str(
        key,
        "write.metadata.previous-versions-max",
    )
}

/// Checks that a request may set every one of the properties.
pub fn validate_view_properties(properties: &Properties) -> (r: Result<(), ErrorModel>)
    ensures
        r is Ok <==> valid_view_properties(properties@),
        r matches Err(e) ==> e@ == unsupported_property(),
{
    let mut i: usize = 0;
    while i < properties.len()
        invariant
            i <= properties.len(),
            forall|j: int| 0 <= j < i ==> is_allowed_key((#[trigger] properties@[j]).0@),
        decreases properties.len() - i,
    {
        if !is_allowed_key_exec(properties[i].0.as_str()) {
            return Err(
                ErrorModel::bad_request(
                    "Properties contain unsupported property.",
                    "FailedToSetProperties",
                ),
            );
        }
        i += 1;
    }
    Ok(())
}

/// What is wrong with a request to create the view `view`, if anything: the
/// identifier is checked first, then the properties, then that there is a query.
pub open spec fn request_fault(view: TableIdentView, request: CreateViewRequest) -> Option<
    ErrorModelView,
> {
    if !valid_ident(view) {
        Some(invalid_identifier())
    } else if !valid_view_properties(request.properties@) {
        Some(unsupported_property())
    } else if request.representations@.len() == 0 {
        Some(empty_view())
    } else {
        None
    }
}

/// Checks a request to create the view `view`.
pub fn validate_create_view(view: &TableIdent, request: &CreateViewRequest) -> (r: Result<
    (),
    ErrorModel,
>)
    ensures
        match request_fault(view@, *request) {
            Some(fault) => r is Err && r->Err_0@ == fault,
            None => r is Ok,
        },
{
    match validate_table_or_view_ident(view) {
        Ok(()) => {},
        Err(e) => {
            return Err(e);
        },
    }
    match validate_view_properties(&request.properties) {
        Ok(()) => {},
        Err(e) => {
            return Err(e);
        },
    }
    if request.representations.len() == 0 {
        return Err(ErrorModel::bad_request("View must have at least one query.", "EmptyView"));
    }
    Ok(())
}


/// Where the creation of a view stands.
#[derive(Debug, Clone, Copy, PartialEq, Eq, Structural)]
pub enum Phase {
    /// The authorizer is asked.
    Authorizing,
    /// The backend looks the namespace up.
    ResolvingNamespace,
    /// The backend opens a write transaction.
    BeginningWrite,
    /// The backend loads the namespace, inside the transaction.
    LoadingNamespace,
    /// The backend loads the warehouse, inside the transaction.
    LoadingWarehouse,
    /// The metadata builder builds the metadata.
    BuildingMetadata,
    /// The backend inserts the row, inside the transaction.
    InsertingRow,
    /// The secret store fetches the storage secret.
    FetchingSecret,
    /// The object store writes the metadata file.
    WritingMetadata,
    /// The storage profile makes the client's storage configuration.
    GeneratingConfig,
    /// The backend commits the transaction.
    Committing,
    /// The backend rolls the transaction back.
    RollingBack,
    /// The event publisher is told.
    Publishing,
    /// The result was returned.
    Finished,
}

/// What came of the work that the last action asked for.
#[derive(Debug)]
pub enum Event {
    /// Work without a result of its own.
    Done(Result<(), ErrorModel>),
    /// The identifier of the namespace, if there is such a namespace.
    NamespaceId(Result<Option<NamespaceIdentUuid>, ErrorModel>),
    Namespace(Result<GetNamespaceResponse, ErrorModel>),
    Warehouse(Result<Warehouse, ErrorModel>),
    Metadata(Result<Metadata, ErrorModel>),
    Config(Result<Properties, ErrorModel>),
}

/// What is to be done next, outside.
#[derive(Debug)]
pub enum Action {
    CheckCreateView { warehouse_id: WarehouseIdent, namespace: NamespaceIdent },
    NamespaceIdentToId { warehouse_id: WarehouseIdent, namespace: NamespaceIdent },
    BeginWrite,
    GetNamespace { warehouse_id: WarehouseIdent, namespace: NamespaceIdent },
    GetWarehouse { warehouse_id: WarehouseIdent },
    BuildMetadata { view_id: u128, name: String, location: String },
    CreateView {
        namespace_id: NamespaceIdentUuid,
        view: TableIdent,
        view_id: u128,
        metadata_location: String,
        location: String,
    },
    GetSecret { secret_id: SecretIdent },
    WriteMetadataFile { metadata_location: String, codec: CompressionCodec },
    /// Make the storage configuration of the client. Credentials that are
    /// vended are scoped to `scope`, the view's location with a trailing
    /// slash, and to nothing wider.
    GenerateTableConfig {
        data_access: DataAccess,
        location: String,
        scope: String,
        permissions: StoragePermissions,
    },
    Commit,
    Rollback,
    Publish { event_id: u128, metadata: EventMetadata },
    Return(Result<LoadViewResult, ErrorModel>),
}

/// The identifiers that the creation of a view needs: one for the view, one
/// for the name of its metadata file, one for the notice of the change.
#[derive(Debug, Clone, Copy, PartialEq, Eq, Structural)]
pub struct FreshIds {
    pub view_id: u128,
    pub metadata_suffix: u128,
    pub event_id: u128,
}

impl FreshIds {
    /// Three identifiers that were not handed out before.
    pub fn mint() -> FreshIds {
        FreshIds {
            view_id: new_uuid_v7(),
            metadata_suffix: new_uuid_v7(),
            event_id: new_uuid_v7(),
        }
    }
}

/// The creation of one view, between two pieces of outside work.
#[derive(Debug)]
pub struct CreateView {
    pub phase: Phase,
    pub warehouse_id: WarehouseIdent,
    pub prefix: String,
    pub trace_id: u128,
    pub data_access: DataAccess,
    pub default_codec: CompressionCodec,
    pub view: TableIdent,
    pub request: CreateViewRequest,
    pub namespace_id: Option<NamespaceIdentUuid>,
    pub namespace: Option<GetNamespaceResponse>,
    pub warehouse: Option<Warehouse>,
    pub view_id: u128,
    pub metadata_suffix: u128,
    pub event_id: u128,
    pub codec: CompressionCodec,
    pub view_location: Option<Location>,
    pub metadata_location: Option<Location>,
    pub metadata: Option<Metadata>,
    pub config: Option<Properties>,
    pub failure: Option<ErrorModel>,
}

/// Whether a transaction is open in the phase, so that a failure has to
/// roll it back.
pub open spec fn tx_open(phase: Phase) -> bool {
    ||| phase is LoadingNamespace
    ||| phase is LoadingWarehouse
    ||| phase is BuildingMetadata
    ||| phase is InsertingRow
    ||| phase is FetchingSecret
    ||| phase is WritingMetadata
    ||| phase is GeneratingConfig
}

/// Whether the phase comes after the locations of the view were decided.
pub open spec fn is_placed(phase: Phase) -> bool {
    ||| phase is BuildingMetadata
    ||| phase is InsertingRow
    ||| phase is FetchingSecret
    ||| phase is WritingMetadata
    ||| phase is GeneratingConfig
    ||| phase is Committing
    ||| phase is Publishing
}

/// Whether the phase comes after the metadata was built.
pub open spec fn is_built(phase: Phase) -> bool {
    is_placed(phase) && !(phase is BuildingMetadata)
}

/// The error for a namespace that does not exist.
pub open spec fn namespace_not_found() -> ErrorModelView {
    error_of(ErrorKind::NotFound, "Namespace does not exist"@, "NamespaceNotFound"@)
}

/// The error for metadata that could not be built.
pub open spec fn metadata_creation_failed() -> ErrorModelView {
    error_of(
        ErrorKind::BadRequest,
        "Failed to create view metadata"@,
        "ViewMetadataCreationFailed"@,
    )
}

/// The error for an event that does not answer the last action.
pub open spec fn unexpected_event() -> ErrorModelView {
    error_of(ErrorKind::Internal, "Event does not answer the last action"@, "UnexpectedEvent"@)
}

/// The error for an unsupported codec.
pub open spec fn unsupported_codec() -> ErrorModelView {
    error_of(
        ErrorKind::BadRequest,
        "Unsupported compression codec."@,
        "UnsupportedCompressionCodec"@,
    )
}

/// Why a view cannot be placed in the warehouse, if it cannot: the warehouse
/// is not active, the location of the request is not of the canonical layout
/// under the warehouse, or the properties name no codec.
pub open spec fn placement_fault(
    warehouse: WarehouseView,
    namespace_id: u128,
    request: CreateViewRequest,
    default_codec: CompressionCodec,
) -> Option<ErrorModelView> {
    if warehouse.status != WarehouseStatus::Active {
        Some(warehouse_inactive())
    } else if warehouse.base_location() is None {
        Some(location_invalid())
    } else if request.location is Some && parse_location(request.location->0@) is None {
        Some(location_invalid())
    } else if request.location is Some && !warehouse.allows(
        parse_location(request.location->0@)->0,
    ) {
        Some(location_not_allowed())
    } else if request.location is Some && table_id_in(
        parse_location(request.location->0@)->0.segments.skip(
            warehouse.base_location()->0.segments.len() as int,
        ),
        namespace_id,
    ) is None {
        Some(location_bad_layout())
    } else if codec_of(request.properties@, default_codec) is None {
        Some(unsupported_codec())
    } else {
        None
    }
}

/// What the start of a creation gives: the fault of the prefix or of the
/// request, or a creation that waits for the authorizer's word.
pub open spec fn started(
    prefix: Option<&str>,
    namespace: NamespaceIdent,
    request: CreateViewRequest,
    data_access: DataAccess,
    default_codec: CompressionCodec,
    trace_id: u128,
    fresh: FreshIds,
    r: Result<(CreateView, Action), ErrorModel>,
) -> bool {
    match warehouse_of_prefix(
        prefix is Some,
        match prefix {
            Some(p) => parsed_uuid(p@),
            None => None,
        },
    ) {
        Err(e) => r is Err && r->Err_0@ == e,
        Ok(warehouse_id) => match request_fault(
            TableIdentView { namespace: namespace@, name: request.name@ },
            request,
        ) {
            Some(fault) => r is Err && r->Err_0@ == fault,
            None => {
                &&& r is Ok
                &&& r->Ok_0.0.inv()
                &&& r->Ok_0.0.phase is Authorizing
                &&& r->Ok_0.0.warehouse_id == warehouse_id
                &&& r->Ok_0.0.request == request
                &&& r->Ok_0.0.view.namespace == namespace
                &&& r->Ok_0.0.view.name@ == request.name@
                &&& r->Ok_0.0.data_access == data_access
                &&& r->Ok_0.0.default_codec == default_codec
                &&& r->Ok_0.0.trace_id == trace_id
                &&& r->Ok_0.0.prefix@ == prefix->0@
                &&& r->Ok_0.0.view_id == fresh.view_id
                &&& r->Ok_0.0.metadata_suffix == fresh.metadata_suffix
                &&& r->Ok_0.0.event_id == fresh.event_id
                &&& r->Ok_0.1 matches Action::CheckCreateView { warehouse_id: w, namespace: n }
                &&& w == warehouse_id
                &&& n@ == namespace@
            },
        },
    }
}

impl CreateView {
    /// What holds once the locations are decided: the warehouse is active,
    /// the view lies strictly under the warehouse's base in the canonical
    /// layout, and the metadata file lies under the view's location with the
    /// view's identifier and a fresh suffix in its name.
    pub open spec fn placed(&self) -> bool {
        &&& self.warehouse is Some
        &&& self.warehouse->0.status == WarehouseStatus::Active
        &&& self.namespace is Some
        &&& self.view_location is Some
        &&& self.view_location->0.wf()
        &&& self.warehouse->0.allows(self.view_location->0@)
        &&& canonical_layout(
            self.view_location->0@,
            self.warehouse->0.spec_base_location()->0,
        )
        &&& self.metadata_location is Some
        &&& self.metadata_location->0.wf()
        &&& self.metadata_location->0@ == metadata_location(
            self.view_location->0@,
            self.codec,
            self.view_id,
            self.metadata_suffix,
        )
    }

    /// What holds of the creation between any two steps.
    pub open spec fn inv(&self) -> bool {
        &&& self.view.namespace.wf()
        &&& self.view.name@ == self.request.name@
        &&& is_placed(self.phase) ==> self.placed()
        &&& is_built(self.phase) ==> self.metadata is Some && self.metadata->0.uuid
            == self.view_id
        &&& self.phase is RollingBack ==> self.failure is Some
        &&& (self.phase is Committing || self.phase is Publishing) ==> self.config is Some
        &&& (tx_open(self.phase) || is_placed(self.phase) || self.phase is BeginningWrite)
            ==> self.namespace_id is Some
        &&& self.phase is LoadingWarehouse ==> self.namespace is Some
    }

    fn is_placed_now(&self) -> (b: bool)
        ensures
            b == is_placed(self.phase),
    {
        match self.phase {
            Phase::BuildingMetadata
            | Phase::InsertingRow
            | Phase::FetchingSecret
            | Phase::WritingMetadata
            | Phase::GeneratingConfig
            | Phase::Committing
            | Phase::Publishing => true,
            _ => false,
        }
    }

    fn is_tx_open_now(&self) -> (b: bool)
        ensures
            b == tx_open(self.phase),
    {
        match self.phase {
            Phase::LoadingNamespace
            | Phase::LoadingWarehouse
            | Phase::BuildingMetadata
            | Phase::InsertingRow
            | Phase::FetchingSecret
            | Phase::WritingMetadata
            | Phase::GeneratingConfig => true,
            _ => false,
        }
    }

    fn check_placed(&self) -> (b: bool)
        ensures
            b == self.placed(),
    {
        let warehouse = match &self.warehouse {
            Some(warehouse) => warehouse,
            None => {
                return false;
            },
        };
        let (view_location, metadata_location) = match (
            &self.view_location,
            &self.metadata_location,
        ) {
            (Some(l), Some(m)) => (l, m),
            _ => {
                return false;
            },
        };
        if self.namespace.is_none() || !view_location.is_valid() || !metadata_location.is_valid() {
            return false;
        }
        match warehouse.status {
            WarehouseStatus::Active => {},
            WarehouseStatus::Inactive => {
                return false;
            },
        }
        if !warehouse.is_allowed_location(view_location) {
            return false;
        }
        let base = match warehouse.base_location() {
            Ok(base) => base,
            Err(_) => {
                return false;
            },
        };
        let segments = view_location.segments();
        let base_segments = base.segments();
        assert(crate::location::texts(segments@).len() == segments@.len());
        assert(crate::location::texts(base_segments@).len() == base_segments@.len());
        if segments.len() < 2 || segments.len() - 2 != base_segments.len() {
            assert(view_location@.segments.len() != base@.segments.len() + 2);
            return false;
        }
        let expected = warehouse.storage_profile.metadata_location_with_suffix(
            view_location,
            self.codec,
            self.view_id,
            self.metadata_suffix,
        );
        metadata_location.equals(&expected)
    }

    /// Whether the creation is as a creation is between two steps. What
    /// `start` and `step` hand out always is.
    pub fn is_consistent(&self) -> (b: bool)
        ensures
            b == self.inv(),
    {
        if !self.view.namespace.is_well_formed() || self.view.name != self.request.name {
            return false;
        }
        let placed = self.is_placed_now();
        if placed && !self.check_placed() {
            return false;
        }
        let built = placed && match self.phase {
            Phase::BuildingMetadata => false,
            _ => true,
        };
        if built {
            match &self.metadata {
                Some(metadata) => {
                    if metadata.uuid != self.view_id {
                        return false;
                    }
                },
                None => {
                    return false;
                },
            }
        }
        let rolling_back = match self.phase {
            Phase::RollingBack => true,
            _ => false,
        };
        if rolling_back && self.failure.is_none() {
            return false;
        }
        let configured = match self.phase {
            Phase::Committing | Phase::Publishing => true,
            _ => false,
        };
        if configured && self.config.is_none() {
            return false;
        }
        let resolved = placed || self.is_tx_open_now() || match self.phase {
            Phase::BeginningWrite => true,
            _ => false,
        };
        if resolved && self.namespace_id.is_none() {
            return false;
        }
        let loading_warehouse = match self.phase {
            Phase::LoadingWarehouse => true,
            _ => false,
        };
        if loading_warehouse && self.namespace.is_none() {
            return false;
        }
        true
    }

    /// Gives up with `error`: rolls the transaction back where one is open,
    /// returns the error at once where none is.
    pub open spec fn gives_up(self, error: ErrorModelView, next: CreateView, action: Action) -> bool {
        if tx_open(self.phase) {
            &&& next.phase is RollingBack
            &&& next.failure is Some
            &&& next.failure->0@ == error
            &&& action is Rollback
        } else {
            &&& next.phase is Finished
            &&& action matches Action::Return(Err(e))
            &&& e@ == error
        }
    }

    fn abort(self, error: ErrorModel) -> (out: (CreateView, Action))
        requires
            self.view.namespace.wf(),
            self.view.name@ == self.request.name@,
        ensures
            self.gives_up(error@, out.0, out.1),
            out.0.inv(),
    {
        let mut next = self;
        match next.phase {
            Phase::LoadingNamespace
            | Phase::LoadingWarehouse
            | Phase::BuildingMetadata
            | Phase::InsertingRow
            | Phase::FetchingSecret
            | Phase::WritingMetadata
            | Phase::GeneratingConfig => {
                next.phase = Phase::RollingBack;
                next.failure = Some(error);
                (next, Action::Rollback)
            },
            _ => {
                next.phase = Phase::Finished;
                (next, Action::Return(Err(error)))
            },
        }
    }

    /// Takes up a request with identifiers that were minted for it: see
    /// [`CreateView::start_with`].
    pub fn start(
        prefix: Option<&str>,
        namespace: NamespaceIdent,
        request: CreateViewRequest,
        data_access: DataAccess,
        default_codec: CompressionCodec,
        trace_id: u128,
    ) -> (r: Result<(CreateView, Action), ErrorModel>)
        requires
            namespace.wf(),
        ensures
            exists|fresh: FreshIds|
                started(
                    prefix,
                    namespace,
                    request,
                    data_access,
                    default_codec,
                    trace_id,
                    fresh,
                    r,
                ),
    {
        let fresh = FreshIds::mint();
        let r = Self::start_with(
            prefix,
            namespace,
            request,
            data_access,
            default_codec,
            trace_id,
            fresh,
        );
        assert(started(prefix, namespace, request, data_access, default_codec, trace_id, fresh, r));
        r
    }

    /// Takes up a request: checks it, and asks for the authorizer's word.
    /// The view, its metadata file and the notice of the change get the
    /// identifiers of `fresh`.
    pub fn start_with(
        prefix: Option<&str>,
        namespace: NamespaceIdent,
        request: CreateViewRequest,
        data_access: DataAccess,
        default_codec: CompressionCodec,
        trace_id: u128,
        fresh: FreshIds,
    ) -> (r: Result<(CreateView, Action), ErrorModel>)
        requires
            namespace.wf(),
        ensures
            started(prefix, namespace, request, data_access, default_codec, trace_id, fresh, r),
    {
        let warehouse_id = match require_warehouse_id(prefix) {
            Ok(id) => id,
            Err(e) => {
                return Err(e);
            },
        };
        let prefix_text = match prefix {
            Some(p) => p.to_owned(),
            None => String::new(),
        };
        let asked = namespace.duplicate();
        let view = TableIdent::new(namespace, request.name.clone());
        match validate_create_view(&view, &request) {
            Ok(()) => {},
            Err(e) => {
                return Err(e);
            },
        }
        let engine = CreateView {
            phase: Phase::Authorizing,
            warehouse_id,
            prefix: prefix_text,
            trace_id,
            data_access,
            default_codec,
            view,
            request,
            namespace_id: None,
            namespace: None,
            warehouse: None,
            view_id: fresh.view_id,
            metadata_suffix: fresh.metadata_suffix,
            event_id: fresh.event_id,
            codec: default_codec,
            view_location: None,
            metadata_location: None,
            metadata: None,
            config: None,
            failure: None,
        };
        Ok((engine, Action::CheckCreateView { warehouse_id, namespace: asked }))
    }
}


impl CreateView {
    /// After the authorizer's word: the namespace is looked up, or the
    /// denial is returned.
    pub open spec fn authorized(
        self,
        r: Result<(), ErrorModel>,
        next: CreateView,
        action: Action,
    ) -> bool {
        match r {
            Ok(_) => {
                &&& next == (CreateView { phase: Phase::ResolvingNamespace, ..self })
                &&& action matches Action::NamespaceIdentToId { warehouse_id, namespace }
                &&& warehouse_id == self.warehouse_id
                &&& namespace@ == self.view.namespace@
            },
            Err(e) => self.gives_up(e@, next, action),
        }
    }

    /// After the lookup of the namespace: a write transaction is opened, or
    /// the namespace is reported as missing.
    pub open spec fn namespace_resolved(
        self,
        r: Result<Option<NamespaceIdentUuid>, ErrorModel>,
        next: CreateView,
        action: Action,
    ) -> bool {
        match r {
            Ok(Some(id)) => {
                &&& next == (CreateView {
                    phase: Phase::BeginningWrite,
                    namespace_id: Some(id),
                    ..self
                })
                &&& action is BeginWrite
            },
            Ok(None) => self.gives_up(namespace_not_found(), next, action),
            Err(e) => self.gives_up(e@, next, action),
        }
    }

    /// After the transaction was opened: the namespace is loaded.
    pub open spec fn write_begun(
        self,
        r: Result<(), ErrorModel>,
        next: CreateView,
        action: Action,
    ) -> bool {
        match r {
            Ok(_) => {
                &&& next == (CreateView { phase: Phase::LoadingNamespace, ..self })
                &&& action matches Action::GetNamespace { warehouse_id, namespace }
                &&& warehouse_id == self.warehouse_id
                &&& namespace@ == self.view.namespace@
            },
            Err(e) => self.gives_up(e@, next, action),
        }
    }

    /// After the namespace was loaded: the warehouse is loaded.
    pub open spec fn namespace_loaded(
        self,
        r: Result<GetNamespaceResponse, ErrorModel>,
        next: CreateView,
        action: Action,
    ) -> bool {
        match r {
            Ok(namespace) => {
                &&& next == (CreateView {
                    phase: Phase::LoadingWarehouse,
                    namespace: Some(namespace),
                    ..self
                })
                &&& action matches Action::GetWarehouse { warehouse_id }
                &&& warehouse_id == self.warehouse_id
            },
            Err(e) => self.gives_up(e@, next, action),
        }
    }

    /// After the warehouse was loaded: the view gets its identifier, its
    /// location and the location of its metadata file, and the metadata is
    /// built; or the creation gives up with the reason why the view cannot be
    /// placed.
    pub open spec fn warehouse_loaded(
        self,
        r: Result<Warehouse, ErrorModel>,
        next: CreateView,
        action: Action,
    ) -> bool {
        match r {
            Err(e) => self.gives_up(e@, next, action),
            Ok(warehouse) => match placement_fault(
                warehouse@,
                self.namespace->0.namespace_id.0,
                self.request,
                self.default_codec,
            ) {
                Some(fault) => self.gives_up(fault, next, action),
                None => {
                    &&& next == (CreateView {
                        phase: Phase::BuildingMetadata,
                        warehouse: Some(warehouse),
                        codec: next.codec,
                        view_location: next.view_location,
                        metadata_location: next.metadata_location,
                        ..self
                    })
                    &&& next.placed()
                    &&& Some(next.codec) == codec_of(self.request.properties@, self.default_codec)
                    &&& self.request.location matches Some(text) ==> Some(
                        next.view_location->0@,
                    ) == parse_location(text@)
                    &&& self.request.location is None ==> Some(next.view_location->0@)
                        == warehouse.spec_default_location(
                        self.namespace->0.namespace_id.0,
                        next.view_id,
                    )
                    &&& action matches Action::BuildMetadata { view_id, name, location }
                    &&& view_id == next.view_id
                    &&& name@ == self.view.name@
                    &&& location@ == location_text(next.view_location->0@)
                },
            },
        }
    }

    /// After the metadata was built: the row is inserted. Metadata that
    /// was not built, or not for this view, ends the creation.
    pub open spec fn metadata_built(
        self,
        r: Result<Metadata, ErrorModel>,
        next: CreateView,
        action: Action,
    ) -> bool {
        match r {
            Ok(metadata) => if metadata.uuid == self.view_id {
                &&& next == (CreateView {
                    phase: Phase::InsertingRow,
                    metadata: Some(metadata),
                    ..self
                })
                &&& action matches Action::CreateView {
                    namespace_id,
                    view,
                    view_id,
                    metadata_location,
                    location,
                }
                &&& namespace_id == self.namespace_id->0
                &&& view@ == self.view@
                &&& view_id == self.view_id
                &&& metadata_location@ == location_text(self.metadata_location->0@)
                &&& location@ == location_text(self.view_location->0@)
            } else {
                self.gives_up(metadata_creation_failed(), next, action)
            },
            Err(_) => self.gives_up(metadata_creation_failed(), next, action),
        }
    }

    /// The metadata file is to be written.
    pub open spec fn writes_metadata(self, next: CreateView, action: Action) -> bool {
        &&& next == (CreateView { phase: Phase::WritingMetadata, ..self })
        &&& action matches Action::WriteMetadataFile { metadata_location, codec }
        &&& metadata_location@ == location_text(self.metadata_location->0@)
        &&& codec == self.codec
    }

    /// After the row was inserted: the storage secret is fetched where the
    /// warehouse has one, else the metadata file is written.
    pub open spec fn row_inserted(
        self,
        r: Result<(), ErrorModel>,
        next: CreateView,
        action: Action,
    ) -> bool {
        match r {
            Ok(_) => match self.warehouse->0.storage_secret_id {
                Some(id) => {
                    &&& next == (CreateView { phase: Phase::FetchingSecret, ..self })
                    &&& action matches Action::GetSecret { secret_id }
                    &&& secret_id == id
                },
                None => self.writes_metadata(next, action),
            },
            Err(e) => self.gives_up(e@, next, action),
        }
    }

    /// After the secret was fetched: the metadata file is written.
    pub open spec fn secret_fetched(
        self,
        r: Result<(), ErrorModel>,
        next: CreateView,
        action: Action,
    ) -> bool {
        match r {
            Ok(_) => self.writes_metadata(next, action),
            Err(e) => self.gives_up(e@, next, action),
        }
    }

    /// After the metadata file was written: the client's storage
    /// configuration is made, for the view's location.
    pub open spec fn metadata_written(
        self,
        r: Result<(), ErrorModel>,
        next: CreateView,
        action: Action,
    ) -> bool {
        match r {
            Ok(_) => {
                &&& next == (CreateView { phase: Phase::GeneratingConfig, ..self })
                &&& action matches Action::GenerateTableConfig {
                    data_access,
                    location,
                    scope,
                    permissions,
                }
                &&& data_access == self.data_access
                &&& location@ == location_text(self.view_location->0@)
                &&& scope@ == location_text(
                    LocationView { trailing_slash: true, ..self.view_location->0@ },
                )
                &&& permissions == StoragePermissions::ReadWriteDelete
            },
            Err(e) => self.gives_up(e@, next, action),
        }
    }

    /// After the configuration was made: the transaction is committed.
    pub open spec fn config_generated(
        self,
        r: Result<Properties, ErrorModel>,
        next: CreateView,
        action: Action,
    ) -> bool {
        match r {
            Ok(config) => {
                &&& next == (CreateView { phase: Phase::Committing, config: Some(config), ..self })
                &&& action is Commit
            },
            Err(e) => self.gives_up(e@, next, action),
        }
    }

    /// After the commit: the event publisher is told of the new view.
    pub open spec fn committed(
        self,
        r: Result<(), ErrorModel>,
        next: CreateView,
        action: Action,
    ) -> bool {
        match r {
            Ok(_) => {
                &&& next == (CreateView { phase: Phase::Publishing, ..self })
                &&& action matches Action::Publish { event_id, metadata }
                &&& event_id == self.event_id
                &&& metadata.tabular_id == TabularIdentUuid::View(self.view_id)
                &&& metadata.warehouse_id == self.warehouse_id.0
                &&& metadata.name@ == self.view.name@
                &&& metadata.namespace@ == url_text(self.view.namespace@)
                &&& metadata.prefix@ == self.prefix@
                &&& metadata.num_events == 1
                &&& metadata.sequence_number == 0
                &&& metadata.trace_id == self.trace_id
            },
            Err(e) => self.gives_up(e@, next, action),
        }
    }

    /// After the publisher was told, whatever came of it: the view is
    /// returned.
    pub open spec fn published(self, next: CreateView, action: Action) -> bool {
        &&& next.phase is Finished
        &&& action matches Action::Return(Ok(result))
        &&& result.metadata_location@ == location_text(self.metadata_location->0@)
        &&& Some(result.metadata) == self.metadata
        &&& result.config == self.config
    }

    /// After the rollback, whatever came of it: the failure that led to it
    /// is returned.
    pub open spec fn rolled_back(self, next: CreateView, action: Action) -> bool {
        &&& next.phase is Finished
        &&& action matches Action::Return(Err(e))
        &&& Some(e) == self.failure
    }

    /// What a step makes of the creation and of the event that answers its
    /// last action. An event that does not answer the last action ends the
    /// creation with an internal error.
    pub open spec fn steps_to(self, event: Event, next: CreateView, action: Action) -> bool {
        match (self.phase, event) {
            (Phase::Authorizing, Event::Done(r)) => self.authorized(r, next, action),
            (Phase::ResolvingNamespace, Event::NamespaceId(r)) => self.namespace_resolved(
                r,
                next,
                action,
            ),
            (Phase::BeginningWrite, Event::Done(r)) => self.write_begun(r, next, action),
            (Phase::LoadingNamespace, Event::Namespace(r)) => self.namespace_loaded(
                r,
                next,
                action,
            ),
            (Phase::LoadingWarehouse, Event::Warehouse(r)) => self.warehouse_loaded(
                r,
                next,
                action,
            ),
            (Phase::BuildingMetadata, Event::Metadata(r)) => self.metadata_built(r, next, action),
            (Phase::InsertingRow, Event::Done(r)) => self.row_inserted(r, next, action),
            (Phase::FetchingSecret, Event::Done(r)) => self.secret_fetched(r, next, action),
            (Phase::WritingMetadata, Event::Done(r)) => self.metadata_written(r, next, action),
            (Phase::GeneratingConfig, Event::Config(r)) => self.config_generated(r, next, action),
            (Phase::Committing, Event::Done(r)) => self.committed(r, next, action),
            (Phase::Publishing, Event::Done(_)) => self.published(next, action),
            (Phase::RollingBack, Event::Done(_)) => self.rolled_back(next, action),
            _ => self.gives_up(unexpected_event(), next, action),
        }
    }

    fn unexpected(self) -> (out: (CreateView, Action))
        requires
            self.view.namespace.wf(),
            self.view.name@ == self.request.name@,
        ensures
            self.gives_up(unexpected_event(), out.0, out.1),
            out.0.inv(),
    {
        self.abort(
            ErrorModel::internal("Event does not answer the last action", "UnexpectedEvent"),
        )
    }

    fn on_authorized(self, r: Result<(), ErrorModel>) -> (out: (CreateView, Action))
        requires
            self.inv(),
            self.phase is Authorizing,
        ensures
            self.authorized(r, out.0, out.1),
            out.0.inv(),
    {
        match r {
            Ok(()) => {
                let namespace = self.view.namespace.duplicate();
                let warehouse_id = self.warehouse_id;
                let mut next = self;
                next.phase = Phase::ResolvingNamespace;
                (next, Action::NamespaceIdentToId { warehouse_id, namespace })
            },
            Err(e) => self.abort(e),
        }
    }

    fn on_namespace_id(self, r: Result<Option<NamespaceIdentUuid>, ErrorModel>) -> (out: (
        CreateView,
        Action,
    ))
        requires
            self.inv(),
            self.phase is ResolvingNamespace,
        ensures
            self.namespace_resolved(r, out.0, out.1),
            out.0.inv(),
    {
        match r {
            Ok(Some(id)) => {
                let mut next = self;
                next.phase = Phase::BeginningWrite;
                next.namespace_id = Some(id);
                (next, Action::BeginWrite)
            },
            Ok(None) => self.abort(
                ErrorModel::not_found("Namespace does not exist", "NamespaceNotFound"),
            ),
            Err(e) => self.abort(e),
        }
    }

    fn on_write_begun(self, r: Result<(), ErrorModel>) -> (out: (CreateView, Action))
        requires
            self.inv(),
            self.phase is BeginningWrite,
        ensures
            self.write_begun(r, out.0, out.1),
            out.0.inv(),
    {
        match r {
            Ok(()) => {
                let namespace = self.view.namespace.duplicate();
                let warehouse_id = self.warehouse_id;
                let mut next = self;
                next.phase = Phase::LoadingNamespace;
                (next, Action::GetNamespace { warehouse_id, namespace })
            },
            Err(e) => self.abort(e),
        }
    }

    fn on_namespace(self, r: Result<GetNamespaceResponse, ErrorModel>) -> (out: (
        CreateView,
        Action,
    ))
        requires
            self.inv(),
            self.phase is LoadingNamespace,
        ensures
            self.namespace_loaded(r, out.0, out.1),
            out.0.inv(),
    {
        match r {
            Ok(namespace) => {
                let warehouse_id = self.warehouse_id;
                let mut next = self;
                next.phase = Phase::LoadingWarehouse;
                next.namespace = Some(namespace);
                (next, Action::GetWarehouse { warehouse_id })
            },
            Err(e) => self.abort(e),
        }
    }

    fn on_warehouse(self, r: Result<Warehouse, ErrorModel>) -> (out: (CreateView, Action))
        requires
            self.inv(),
            self.phase is LoadingWarehouse,
        ensures
            self.warehouse_loaded(r, out.0, out.1),
            out.0.inv(),
    {
        let warehouse = match r {
            Ok(warehouse) => warehouse,
            Err(e) => {
                return self.abort(e);
            },
        };
        match require_active_warehouse(warehouse.status) {
            Ok(()) => {},
            Err(e) => {
                return self.abort(e);
            },
        }
        let view_id = self.view_id;
        let placed = match &self.namespace {
            Some(namespace) => {
                let asked = match &self.request.location {
                    Some(text) => Some(text.as_str()),
                    None => None,
                };
                warehouse.determine_tabular_location(
                    namespace,
                    asked,
                    TabularIdentUuid::View(view_id),
                )
            },
            None => Err(
                ErrorModel::internal("Event does not answer the last action", "UnexpectedEvent"),
            ),
        };
        let view_location = match placed {
            Ok(location) => location,
            Err(e) => {
                return self.abort(e);
            },
        };
        let codec = match CompressionCodec::try_from_properties(
            &self.request.properties,
            self.default_codec,
        ) {
            Ok(codec) => codec,
            Err(e) => {
                return self.abort(e);
            },
        };
        let metadata_suffix = self.metadata_suffix;
        let metadata_location = warehouse.storage_profile.metadata_location_with_suffix(
            &view_location,
            codec,
            view_id,
            metadata_suffix,
        );
        let name = self.view.name.clone();
        let location = view_location.to_string();
        let mut next = self;
        next.phase = Phase::BuildingMetadata;
        next.warehouse = Some(warehouse);
        next.codec = codec;
        next.view_location = Some(view_location);
        next.metadata_location = Some(metadata_location);
        (next, Action::BuildMetadata { view_id, name, location })
    }

    fn on_metadata(self, r: Result<Metadata, ErrorModel>) -> (out: (CreateView, Action))
        requires
            self.inv(),
            self.phase is BuildingMetadata,
        ensures
            self.metadata_built(r, out.0, out.1),
            out.0.inv(),
    {
        let metadata = match r {
            Ok(metadata) => metadata,
            Err(_) => {
                return self.abort(
                    ErrorModel::bad_request(
                        "Failed to create view metadata",
                        "ViewMetadataCreationFailed",
                    ),
                );
            },
        };
        let namespace_id = match self.namespace_id {
            Some(id) => id,
            None => {
                return self.unexpected();
            },
        };
        if metadata.uuid != self.view_id {
            return self.abort(
                ErrorModel::bad_request(
                    "Failed to create view metadata",
                    "ViewMetadataCreationFailed",
                ),
            );
        }
        let (metadata_location, location) = match (&self.metadata_location, &self.view_location) {
            (Some(m), Some(l)) => (m.to_string(), l.to_string()),
            _ => {
                return self.unexpected();
            },
        };
        let view = self.view.duplicate();
        let view_id = self.view_id;
        let mut next = self;
        next.phase = Phase::InsertingRow;
        next.metadata = Some(metadata);
        (next, Action::CreateView { namespace_id, view, view_id, metadata_location, location })
    }

    fn write_metadata(self) -> (out: (CreateView, Action))
        requires
            self.inv(),
            self.phase is InsertingRow || self.phase is FetchingSecret,
        ensures
            self.writes_metadata(out.0, out.1),
            out.0.inv(),
    {
        let metadata_location = match &self.metadata_location {
            Some(m) => m.to_string(),
            None => String::new(),
        };
        let codec = self.codec;
        let mut next = self;
        next.phase = Phase::WritingMetadata;
        (next, Action::WriteMetadataFile { metadata_location, codec })
    }

    fn on_row_inserted(self, r: Result<(), ErrorModel>) -> (out: (CreateView, Action))
        requires
            self.inv(),
            self.phase is InsertingRow,
        ensures
            self.row_inserted(r, out.0, out.1),
            out.0.inv(),
    {
        match r {
            Ok(()) => {
                let secret = match &self.warehouse {
                    Some(warehouse) => warehouse.storage_secret_id,
                    None => None,
                };
                match secret {
                    Some(secret_id) => {
                        let mut next = self;
                        next.phase = Phase::FetchingSecret;
                        (next, Action::GetSecret { secret_id })
                    },
                    None => self.write_metadata(),
                }
            },
            Err(e) => self.abort(e),
        }
    }

    fn on_secret(self, r: Result<(), ErrorModel>) -> (out: (CreateView, Action))
        requires
            self.inv(),
            self.phase is FetchingSecret,
        ensures
            self.secret_fetched(r, out.0, out.1),
            out.0.inv(),
    {
        match r {
            Ok(()) => self.write_metadata(),
            Err(e) => self.abort(e),
        }
    }

    fn on_metadata_written(self, r: Result<(), ErrorModel>) -> (out: (CreateView, Action))
        requires
            self.inv(),
            self.phase is WritingMetadata,
        ensures
            self.metadata_written(r, out.0, out.1),
            out.0.inv(),
    {
        match r {
            Ok(()) => {
                let (location, scope) = match &self.view_location {
                    Some(l) => (l.to_string(), l.credential_scope()),
                    None => (String::new(), String::new()),
                };
                let data_access = self.data_access;
                let mut next = self;
                next.phase = Phase::GeneratingConfig;
                (
                    next,
                    Action::GenerateTableConfig {
                        data_access,
                        location,
                        scope,
                        permissions: StoragePermissions::ReadWriteDelete,
                    },
                )
            },
            Err(e) => self.abort(e),
        }
    }

    fn on_config(self, r: Result<Properties, ErrorModel>) -> (out: (CreateView, Action))
        requires
            self.inv(),
            self.phase is GeneratingConfig,
        ensures
            self.config_generated(r, out.0, out.1),
            out.0.inv(),
    {
        match r {
            Ok(config) => {
                let mut next = self;
                next.phase = Phase::Committing;
                next.config = Some(config);
                (next, Action::Commit)
            },
            Err(e) => self.abort(e),
        }
    }

    fn on_committed(self, r: Result<(), ErrorModel>) -> (out: (CreateView, Action))
        requires
            self.inv(),
            self.phase is Committing,
        ensures
            self.committed(r, out.0, out.1),
            out.0.inv(),
    {
        match r {
            Ok(()) => {
                let metadata = EventMetadata {
                    tabular_id: TabularIdentUuid::View(self.view_id),
                    warehouse_id: self.warehouse_id.0,
                    name: self.view.name.clone(),
                    namespace: self.view.namespace.to_url_string(),
                    prefix: self.prefix.clone(),
                    num_events: 1,
                    sequence_number: 0,
                    trace_id: self.trace_id,
                };
                let event_id = self.event_id;
                let mut next = self;
                next.phase = Phase::Publishing;
                (next, Action::Publish { event_id, metadata })
            },
            Err(e) => self.abort(e),
        }
    }

    fn on_published(self) -> (out: (CreateView, Action))
        requires
            self.inv(),
            self.phase is Publishing,
        ensures
            self.published(out.0, out.1),
            out.0.inv(),
    {
        let metadata_location = match &self.metadata_location {
            Some(m) => m.to_string(),
            None => String::new(),
        };
        let mut next = self;
        next.phase = Phase::Finished;
        let metadata = next.metadata.take();
        let config = next.config.take();
        match metadata {
            Some(metadata) => (
                next,
                Action::Return(Ok(LoadViewResult { metadata_location, metadata, config })),
            ),
            None => next.unexpected(),
        }
    }

    fn on_rolled_back(self) -> (out: (CreateView, Action))
        requires
            self.inv(),
            self.phase is RollingBack,
        ensures
            self.rolled_back(out.0, out.1),
            out.0.inv(),
    {
        let mut next = self;
        next.phase = Phase::Finished;
        match next.failure.take() {
            Some(e) => (next, Action::Return(Err(e))),
            None => next.unexpected(),
        }
    }

    /// Takes the event that answers the last action, and says what is to be
    /// done next. The creation has ended when the action is `Return`.
    pub fn step(self, event: Event) -> (out: (CreateView, Action))
        requires
            self.inv(),
        ensures
            self.steps_to(event, out.0, out.1),
            out.0.inv(),
    {
        match self.phase {
            Phase::Authorizing => match event {
                Event::Done(r) => self.on_authorized(r),
                _ => self.unexpected(),
            },
            Phase::ResolvingNamespace => match event {
                Event::NamespaceId(r) => self.on_namespace_id(r),
                _ => self.unexpected(),
            },
            Phase::BeginningWrite => match event {
                Event::Done(r) => self.on_write_begun(r),
                _ => self.unexpected(),
            },
            Phase::LoadingNamespace => match event {
                Event::Namespace(r) => self.on_namespace(r),
                _ => self.unexpected(),
            },
            Phase::LoadingWarehouse => match event {
                Event::Warehouse(r) => self.on_warehouse(r),
                _ => self.unexpected(),
            },
            Phase::BuildingMetadata => match event {
                Event::Metadata(r) => self.on_metadata(r),
                _ => self.unexpected(),
            },
            Phase::InsertingRow => match event {
                Event::Done(r) => self.on_row_inserted(r),
                _ => self.unexpected(),
            },
            Phase::FetchingSecret => match event {
                Event::Done(r) => self.on_secret(r),
                _ => self.unexpected(),
            },
            Phase::WritingMetadata => match event {
                Event::Done(r) => self.on_metadata_written(r),
                _ => self.unexpected(),
            },
            Phase::GeneratingConfig => match event {
                Event::Config(r) => self.on_config(r),
                _ => self.unexpected(),
            },
            Phase::Committing => match event {
                Event::Done(r) => self.on_committed(r),
                _ => self.unexpected(),
            },
            Phase::Publishing => match event {
                Event::Done(_) => self.on_published(),
                _ => self.unexpected(),
            },
            Phase::RollingBack => match event {
                Event::Done(_) => self.on_rolled_back(),
                _ => self.unexpected(),
            },
            Phase::Finished => self.unexpected(),
        }
    }
}


/// Once the locations of a view are decided they obey the layout rules: the
/// view lies strictly under the base of its warehouse, with exactly two
/// segments after it, and the metadata file lies under the view's location and
/// has the view's identifier at the head of its name.
pub proof fn lemma_placed_view_obeys_layout(creation: CreateView)
    requires
        creation.inv(),
        is_placed(creation.phase),
    ensures
        crate::catalog::strictly_under(
            creation.view_location->0@,
            creation.warehouse->0.spec_base_location()->0,
        ),
        canonical_layout(
            creation.view_location->0@,
            creation.warehouse->0.spec_base_location()->0,
        ),
        crate::location::is_sublocation(
            creation.metadata_location->0@,
            creation.view_location->0@,
        ),
        crate::ident::hyphenated_text(creation.view_id).is_prefix_of(
            creation.metadata_location->0@.segments.last(),
        ),
{
    crate::storage::lemma_metadata_location_is_under(
        creation.view_location->0@,
        creation.codec,
        creation.view_id,
        creation.metadata_suffix,
    );
}

/// While a transaction is open no step returns: a failure rolls the
/// transaction back first, and the failure is returned after the rollback.
pub proof fn lemma_open_transaction_is_rolled_back(
    creation: CreateView,
    event: Event,
    next: CreateView,
    action: Action,
)
    requires
        creation.inv(),
        tx_open(creation.phase),
        creation.steps_to(event, next, action),
    ensures
        !(action is Return),
        action is Rollback <==> next.phase is RollingBack,
        next.phase is RollingBack || tx_open(next.phase) || next.phase is Committing,
{
}

/// The transaction is committed only after the row was inserted, the
/// metadata file written and the storage configuration made; the publisher is
/// told only after the commit went through; and a view is returned only after
/// the publisher was told.
pub proof fn lemma_order_of_effects(
    creation: CreateView,
    event: Event,
    next: CreateView,
    action: Action,
)
    requires
        creation.inv(),
        creation.steps_to(event, next, action),
    ensures
        action is Commit ==> creation.phase is GeneratingConfig && event matches Event::Config(
            Ok(_),
        ),
        action is GenerateTableConfig ==> creation.phase is WritingMetadata && event
            matches Event::Done(Ok(_)),
        action is WriteMetadataFile ==> (creation.phase is InsertingRow || creation.phase
            is FetchingSecret) && event matches Event::Done(Ok(_)),
        action is Publish ==> creation.phase is Committing && event matches Event::Done(Ok(_)),
        action matches Action::Return(Ok(_)) ==> creation.phase is Publishing,
        action is CreateView ==> creation.phase is BuildingMetadata && next.placed(),
{
}

} // verus!
