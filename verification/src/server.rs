//! A catalog server whose backend, object store and event publisher are in
//! memory, and whose other collaborators answer as they are told to.

use crate::catalog::{canonical_layout, Metadata, MetadataView, WarehouseView};
use crate::error::{ErrorModel, ErrorModelView};
use crate::ident::{parsed_uuid, NamespaceIdentUuid, WarehouseIdent};
use crate::location::{location_text, parse_location, valid_location, LocationView};
use crate::memory::{spec_namespace_id, warehouse_at, CatalogView, MemoryCatalog};
use crate::names::{NamespaceIdent, TableIdentView};
use crate::storage::{
    codec_of, copy_properties, metadata_location, property_texts, CompressionCodec, Properties,
};
use crate::store::store_error;
use crate::tabular::{key_taken, new_row, spec_create, TabularView};
use crate::tabular_idents::TabularIdentUuid;
use crate::transaction::{
    object_at, object_exists, MemoryObjectStore, MemoryTransaction, Transaction,
};
use crate::views::{
    metadata_creation_failed, namespace_not_found, placement_fault, request_fault, unexpected_event,
    warehouse_of_prefix, Action, CreateView, CreateViewRequest, DataAccess, Event, EventMetadata,
    FreshIds, LoadViewResult,
};
use vstd::prelude::*;

verus! {

/// The namespace that a request speaks of, and the prefix with the
/// warehouse's identifier.
#[derive(Debug, Clone)]
pub struct NamespaceParameters {
    pub prefix: Option<String>,
    pub namespace: NamespaceIdent,
}

/// What is known of a request besides its content.
#[derive(Debug, Clone, Copy, PartialEq, Eq, Structural)]
pub struct RequestMetadata {
    pub request_id: u128,
}

/// A catalog server in memory.
#[derive(Debug)]
pub struct MemoryServer {
    /// The catalog backend.
    pub catalog: MemoryCatalog,
    /// The object store.
    pub files: MemoryObjectStore,
    /// What the event publisher was told, in order.
    pub events: Vec<EventMetadata>,
    /// What the authorizer answers.
    pub authorization: Result<(), ErrorModel>,
    /// What the metadata builder hands out: the serialized metadata.
    pub metadata_document: Result<Vec<u8>, ErrorModel>,
    /// What the secret store answers.
    pub secret: Result<(), ErrorModel>,
    /// What the storage profile answers when asked for a client's
    /// configuration.
    pub config: Result<Properties, ErrorModel>,
    /// The codec of metadata files where a request names none.
    pub default_codec: CompressionCodec,
    /// The time, in microseconds since the Unix epoch.
    pub now: i64,
}

/// Where the view of a request lies: at the location that the request
/// gives, or at the default location of the view.
pub open spec fn view_location_for(
    warehouse: WarehouseView,
    namespace_id: NamespaceIdentUuid,
    request: CreateViewRequest,
    fresh: FreshIds,
) -> LocationView {
    match request.location {
        Some(text) => parse_location(text@)->0,
        None => warehouse.default_location(namespace_id.0, fresh.view_id)->0,
    }
}

/// Where the metadata file of the view of a request lies.
pub open spec fn metadata_file_for(
    warehouse: WarehouseView,
    namespace_id: NamespaceIdentUuid,
    request: CreateViewRequest,
    default_codec: CompressionCodec,
    fresh: FreshIds,
) -> Seq<char> {
    location_text(
        metadata_location(
            view_location_for(warehouse, namespace_id, request, fresh),
            codec_of(request.properties@, default_codec)->0,
            fresh.view_id,
            fresh.metadata_suffix,
        ),
    )
}

/// The row of the view of a request.
pub open spec fn view_row_for(
    server: MemoryServer,
    warehouse: WarehouseView,
    namespace_id: NamespaceIdentUuid,
    request: CreateViewRequest,
    fresh: FreshIds,
) -> TabularView {
    new_row(
        TabularIdentUuid::View(fresh.view_id),
        warehouse.id,
        namespace_id,
        request.name@,
        Some(metadata_file_for(warehouse, namespace_id, request, server.default_codec, fresh)),
        location_text(view_location_for(warehouse, namespace_id, request, fresh)),
        MetadataView { uuid: fresh.view_id, document: server.metadata_document->Ok_0@ },
        server.now,
    )
}

/// How far the creation of a view gets inside its transaction.
pub enum Reached {
    /// It failed before the metadata file was written.
    Failed(ErrorModelView),
    /// The metadata file was written, then it failed.
    FailedAfterWrite(ErrorModelView),
    /// Everything went through; the transaction can be committed.
    Done,
}

/// How far the creation of a view gets inside its transaction, in a
/// warehouse that takes requests: the view is placed, its metadata built, its
/// row inserted, the storage secret fetched where there is one, the metadata
/// file written and the client's configuration made.
pub open spec fn reached_in_transaction(
    server: MemoryServer,
    catalog: CatalogView,
    warehouse: WarehouseView,
    namespace_id: NamespaceIdentUuid,
    request: CreateViewRequest,
    fresh: FreshIds,
) -> Reached {
    let row = view_row_for(server, warehouse, namespace_id, request, fresh);
    let file = metadata_file_for(warehouse, namespace_id, request, server.default_codec, fresh);
    if placement_fault(warehouse, namespace_id.0, request, server.default_codec) is Some {
        Reached::Failed(
            placement_fault(warehouse, namespace_id.0, request, server.default_codec)->0,
        )
    } else if server.metadata_document is Err {
        Reached::Failed(metadata_creation_failed())
    } else if spec_create(catalog.tabulars, row) is Err {
        Reached::Failed(store_error(spec_create(catalog.tabulars, row)->Err_0))
    } else if warehouse.storage_secret_id is Some && server.secret is Err {
        Reached::Failed(server.secret->Err_0@)
    } else if object_at(server.files@, file) is Some {
        Reached::Failed(object_exists())
    } else if server.config is Err {
        Reached::FailedAfterWrite(server.config->Err_0@)
    } else {
        Reached::Done
    }
}

/// The warehouse that the prefix of a request names.
pub open spec fn warehouse_asked(parameters: NamespaceParameters) -> Result<
    WarehouseIdent,
    ErrorModelView,
> {
    warehouse_of_prefix(
        parameters.prefix is Some,
        match parameters.prefix {
            Some(prefix) => parsed_uuid(prefix@),
            None => None,
        },
    )
}

/// How far the creation of a view gets: the prefix and the request are
/// checked, the authorizer is asked and the namespace looked up; the rest
/// happens inside the transaction.
pub open spec fn reached(
    server: MemoryServer,
    parameters: NamespaceParameters,
    request: CreateViewRequest,
    fresh: FreshIds,
) -> Reached {
    match warehouse_asked(parameters) {
        Err(e) => Reached::Failed(e),
        Ok(w) => {
            let catalog = server.catalog@;
            if request_fault(
                TableIdentView { namespace: parameters.namespace@, name: request.name@ },
                request,
            ) is Some {
                Reached::Failed(
                    request_fault(
                        TableIdentView { namespace: parameters.namespace@, name: request.name@ },
                        request,
                    )->0,
                )
            } else if server.authorization is Err {
                Reached::Failed(server.authorization->Err_0@)
            } else if spec_namespace_id(catalog, w, parameters.namespace@) is None {
                Reached::Failed(namespace_not_found())
            } else {
                reached_in_transaction(
                    server,
                    catalog,
                    catalog.warehouses[choose|i: int| warehouse_at(catalog.warehouses, w, i)],
                    spec_namespace_id(catalog, w, parameters.namespace@)->0,
                    request,
                    fresh,
                )
            }
        },
    }
}

/// Whether a tabular is stored as the layout asks: at a location strictly
/// under the base of its warehouse, with exactly two segments after the base,
/// and with its metadata file under that location, in a file that has the
/// tabular's identifier at the head of its name.
pub open spec fn stored_in_layout(
    warehouse: WarehouseView,
    codec: CompressionCodec,
    storage_location: Seq<char>,
    metadata_file: Seq<char>,
    uuid: u128,
) -> bool {
    exists|l: LocationView, suffix: u128|
        #![trigger metadata_location(l, codec, uuid, suffix)]
        {
            &&& valid_location(l)
            &&& storage_location == location_text(l)
            &&& warehouse.allows(l)
            &&& canonical_layout(l, warehouse.base_location()->0)
            &&& metadata_file == location_text(metadata_location(l, codec, uuid, suffix))
        }
}

/// What a server has done when it has created a view: the catalog has one
/// row more, that of the view, stored as the layout asks; the view is
/// returned with its metadata and the client's configuration; and the event
/// publisher was told once.
pub open spec fn created(
    before: MemoryServer,
    parameters: NamespaceParameters,
    request: CreateViewRequest,
    request_metadata: RequestMetadata,
    fresh: FreshIds,
    after: MemoryServer,
    result: LoadViewResult,
) -> bool {
    let w = warehouse_asked(parameters)->Ok_0;
    let catalog = before.catalog@;
    let warehouse = catalog.warehouses[choose|i: int| warehouse_at(catalog.warehouses, w, i)];
    let namespace_id = spec_namespace_id(catalog, w, parameters.namespace@)->0;
    let row = view_row_for(before, warehouse, namespace_id, request, fresh);
    let announced = after.events@.last();
    &&& after.catalog@ == (CatalogView { tabulars: catalog.tabulars.push(row), ..catalog })
    &&& warehouse.id == w
    &&& !key_taken(catalog.tabulars, w, namespace_id, false, request.name@)
    &&& stored_in_layout(
        warehouse,
        codec_of(request.properties@, before.default_codec)->0,
        row.storage_location,
        row.metadata_location->0,
        fresh.view_id,
    )
    &&& Some(result.metadata_location@) == row.metadata_location
    &&& result.metadata@ == row.metadata
    &&& result.config is Some
    &&& property_texts(result.config->0@) == property_texts(before.config->Ok_0@)
    &&& after.events@.len() == before.events@.len() + 1
    &&& after.events@.drop_last() =~= before.events@
    &&& announced.tabular_id == row.tabular_id
    &&& announced.warehouse_id == w.0
    &&& announced.name@ == request.name@
    &&& announced.namespace@ == crate::names::url_text(parameters.namespace@)
    &&& announced.prefix@ == parameters.prefix->0@
    &&& announced.num_events == 1
    &&& announced.sequence_number == 0
    &&& announced.trace_id == request_metadata.request_id
}

/// What is in the object store after the creation of a view: the metadata
/// file of the view beside what was there, where the creation got as far as
/// writing it; else what was there.
pub open spec fn files_after(
    before: MemoryServer,
    parameters: NamespaceParameters,
    request: CreateViewRequest,
    fresh: FreshIds,
) -> Seq<(Seq<char>, Seq<u8>)> {
    if reached(before, parameters, request, fresh) is Failed {
        before.files@
    } else {
        let w = warehouse_asked(parameters)->Ok_0;
        let catalog = before.catalog@;
        let warehouse = catalog.warehouses[choose|i: int| warehouse_at(catalog.warehouses, w, i)];
        let namespace_id = spec_namespace_id(catalog, w, parameters.namespace@)->0;
        before.files@.push(
            (
                metadata_file_for(warehouse, namespace_id, request, before.default_codec, fresh),
                before.metadata_document->Ok_0@,
            ),
        )
    }
}

fn copy_answer(answer: &Result<(), ErrorModel>) -> (copy: Result<(), ErrorModel>)
    ensures
        copy is Ok == answer is Ok,
        copy matches Err(e) ==> e@ == answer->Err_0@,
{
    match answer {
        Ok(()) => Ok(()),
        Err(e) => Err(e.duplicate()),
    }
}

fn unexpected() -> (e: ErrorModel)
    ensures
        e@ == unexpected_event(),
{
    ErrorModel::internal("Event does not answer the last action", "UnexpectedEvent")
}

impl MemoryServer {
    /// A server with an empty catalog and an empty object store, whose
    /// collaborators all agree.
    pub fn new(now: i64) -> (server: Self)
        ensures
            server.catalog.wf(),
            server.catalog@.warehouses.len() == 0,
            server.catalog@.namespaces.len() == 0,
            server.catalog@.tabulars.len() == 0,
            server.files@.len() == 0,
            server.events@.len() == 0,
            server.authorization is Ok,
            server.metadata_document is Ok,
            server.metadata_document->Ok_0@.len() == 0,
            server.secret is Ok,
            server.config is Ok,
            server.config->Ok_0@.len() == 0,
            server.default_codec == CompressionCodec::Gzip,
            server.now == now,
    {
        MemoryServer {
            catalog: MemoryCatalog::new(),
            files: MemoryObjectStore::new(),
            events: Vec::new(),
            authorization: Ok(()),
            metadata_document: Ok(Vec::new()),
            secret: Ok(()),
            config: Ok(Vec::new()),
            default_codec: CompressionCodec::Gzip,
            now,
        }
    }

    /// Accepts the metrics of a table and discards them: nothing is kept.
    pub fn report_metrics(&self, metrics: &Vec<u8>) -> (r: Result<(), ErrorModel>)
        ensures
            r is Ok,
    {
        Ok(())
    }

    /// The part of the creation of a view that runs inside the transaction:
    /// from the loading of the namespace to the making of the client's
    /// configuration. It ends with the action `Commit` where everything went
    /// through, and with `Rollback` where something failed.
    fn create_view_in_transaction(
        &mut self,
        state: &mut MemoryCatalog,
        creation: CreateView,
        action: Action,
    ) -> (out: (CreateView, Action))
        requires
            old(state).wf(),
            creation.inv(),
            creation.phase is LoadingNamespace,
            action matches Action::GetNamespace { warehouse_id, namespace } && warehouse_id
                == creation.warehouse_id && namespace@ == creation.view.namespace@,
            creation.namespace_id == spec_namespace_id(
                old(state)@,
                creation.warehouse_id,
                creation.view.namespace@,
            ),
            creation.default_codec == old(self).default_codec,
        ensures
            final(state).wf(),
            out.0.inv(),
            final(self).catalog == old(self).catalog,
            final(self).events == old(self).events,
            final(self).now == old(self).now,
            final(self).authorization == old(self).authorization,
            final(self).metadata_document == old(self).metadata_document,
            final(self).secret == old(self).secret,
            final(self).config == old(self).config,
            final(self).default_codec == old(self).default_codec,
            ({
                let w = creation.warehouse_id;
                let catalog = old(state)@;
                let warehouse = catalog.warehouses[choose|i: int|
                    warehouse_at(catalog.warehouses, w, i)];
                let namespace_id = creation.namespace_id->0;
                let fresh = FreshIds {
                    view_id: creation.view_id,
                    metadata_suffix: creation.metadata_suffix,
                    event_id: creation.event_id,
                };
                let file = metadata_file_for(
                    warehouse,
                    namespace_id,
                    creation.request,
                    creation.default_codec,
                    fresh,
                );
                let written = old(self).files@.push((file, old(self).metadata_document->Ok_0@));
                match reached_in_transaction(
                    *old(self),
                    catalog,
                    warehouse,
                    namespace_id,
                    creation.request,
                    fresh,
                ) {
                    Reached::Failed(e) => {
                        &&& out.1 is Rollback
                        &&& out.0.phase is RollingBack
                        &&& out.0.failure->0@ == e
                        &&& final(self).files@ == old(self).files@
                    },
                    Reached::FailedAfterWrite(e) => {
                        &&& out.1 is Rollback
                        &&& out.0.phase is RollingBack
                        &&& out.0.failure->0@ == e
                        &&& final(self).files@ == written
                    },
                    Reached::Done => {
                        &&& out.1 is Commit
                        &&& out.0.phase is Committing
                        &&& out.0.warehouse_id == creation.warehouse_id
                        &&& out.0.view == creation.view
                        &&& out.0.prefix == creation.prefix
                        &&& out.0.trace_id == creation.trace_id
                        &&& out.0.event_id == creation.event_id
                        &&& out.0.view_id == creation.view_id
                        &&& out.0.placed()
                        &&& out.0.codec == codec_of(
                            creation.request.properties@,
                            creation.default_codec,
                        )->0
                        &&& out.0.warehouse->0@ == warehouse
                        &&& location_text(out.0.view_location->0@) == view_row_for(
                            *old(self),
                            warehouse,
                            namespace_id,
                            creation.request,
                            fresh,
                        ).storage_location
                        &&& location_text(out.0.metadata_location->0@) == file
                        &&& out.0.metadata->0@ == (MetadataView {
                            uuid: creation.view_id,
                            document: old(self).metadata_document->Ok_0@,
                        })
                        &&& property_texts(out.0.config->0@) == property_texts(
                            old(self).config->Ok_0@,
                        )
                        &&& final(state)@ == (CatalogView {
                            tabulars: catalog.tabulars.push(
                                view_row_for(
                                    *old(self),
                                    warehouse,
                                    namespace_id,
                                    creation.request,
                                    fresh,
                                ),
                            ),
                            ..catalog
                        })
                        &&& final(self).files@ == written
                    },
                }
            }),
    {
        let (warehouse_id, namespace) = match action {
            Action::GetNamespace { warehouse_id, namespace } => (warehouse_id, namespace),
            _ => {
                return creation.step(Event::Done(Err(unexpected())));
            },
        };
        let (creation, action) = creation.step(
            Event::Namespace(state.get_namespace(warehouse_id, &namespace)),
        );
        let warehouse_id = match action {
            Action::GetWarehouse { warehouse_id } => warehouse_id,
            _ => {
                return (creation, action);
            },
        };
        let (creation, action) = creation.step(Event::Warehouse(state.get_warehouse(warehouse_id)));
        let view_id = match action {
            Action::BuildMetadata { view_id, name, location } => view_id,
            _ => {
                return (creation, action);
            },
        };
        let built = match &self.metadata_document {
            Ok(document) => Ok(Metadata { uuid: view_id, document: document.clone() }),
            Err(e) => Err(e.duplicate()),
        };
        let (creation, action) = creation.step(Event::Metadata(built));
        let inserted = match action {
            Action::CreateView { namespace_id, view, view_id, metadata_location, location } => {
                let metadata = match &creation.metadata {
                    Some(metadata) => metadata.duplicate(),
                    None => Metadata { uuid: view_id, document: Vec::new() },
                };
                state.create_tabular(
                    TabularIdentUuid::View(view_id),
                    creation.warehouse_id,
                    namespace_id,
                    view.name,
                    Some(metadata_location),
                    location,
                    metadata,
                    self.now,
                )
            },
            _ => {
                return (creation, action);
            },
        };
        let (creation, action) = creation.step(Event::Done(inserted));
        let (creation, action) = match action {
            Action::GetSecret { secret_id } => creation.step(
                Event::Done(copy_answer(&self.secret)),
            ),
            _ => (creation, action),
        };
        let written = match action {
            Action::WriteMetadataFile { metadata_location, codec } => {
                let document = match &creation.metadata {
                    Some(metadata) => metadata.document.clone(),
                    None => Vec::new(),
                };
                self.files.write(metadata_location, document)
            },
            _ => {
                return (creation, action);
            },
        };
        let (creation, action) = creation.step(Event::Done(written));
        let config = match action {
            Action::GenerateTableConfig { data_access, location, scope, permissions } => {
                match &self.config {
                    Ok(config) => Ok(copy_properties(config)),
                    Err(e) => Err(e.duplicate()),
                }
            },
            _ => {
                return (creation, action);
            },
        };
        creation.step(Event::Config(config))
    }

    /// Creates a view under identifiers that are minted for it: see
    /// [`MemoryServer::create_view_with`].
    pub fn create_view(
        &mut self,
        parameters: NamespaceParameters,
        request: CreateViewRequest,
        data_access: DataAccess,
        request_metadata: RequestMetadata,
    ) -> (r: Result<LoadViewResult, ErrorModel>)
        requires
            old(self).catalog.wf(),
            parameters.namespace.wf(),
        ensures
            exists|fresh: FreshIds|
                view_creation(
                    *old(self),
                    parameters,
                    request,
                    request_metadata,
                    fresh,
                    *final(self),
                    r,
                ),
    {
        let fresh = FreshIds::mint();
        let r = self.create_view_with(parameters, request, data_access, request_metadata, fresh);
        assert(view_creation(
            *old(self),
            parameters,
            request,
            request_metadata,
            fresh,
            *self,
            r,
        ));
        r
    }

    /// Creates a view in the namespace. The request is checked, the
    /// authorizer asked and the namespace looked up; then, inside one
    /// transaction, the view gets its locations, its row is inserted, its
    /// metadata file written and the client's configuration made. The
    /// transaction is committed and the event publisher told. Where anything
    /// fails the catalog is left as it was, and the publisher is not told.
    pub fn create_view_with(
        &mut self,
        parameters: NamespaceParameters,
        request: CreateViewRequest,
        data_access: DataAccess,
        request_metadata: RequestMetadata,
        fresh: FreshIds,
    ) -> (r: Result<LoadViewResult, ErrorModel>)
        requires
            old(self).catalog.wf(),
            parameters.namespace.wf(),
        ensures
            view_creation(
                *old(self),
                parameters,
                request,
                request_metadata,
                fresh,
                *final(self),
                r,
            ),
    {
        let prefix = match &parameters.prefix {
            Some(p) => Some(p.as_str()),
            None => None,
        };
        let (creation, action) = match CreateView::start_with(
            prefix,
            parameters.namespace,
            request,
            data_access,
            self.default_codec,
            request_metadata.request_id,
            fresh,
        ) {
            Ok(started) => started,
            Err(e) => {
                return Err(e);
            },
        };
        let (creation, action) = creation.step(Event::Done(copy_answer(&self.authorization)));
        let resolved = match action {
            Action::NamespaceIdentToId { warehouse_id, namespace } => {
                self.catalog.namespace_ident_to_id(warehouse_id, &namespace)
            },
            Action::Return(r) => {
                return r;
            },
            _ => {
                return Err(unexpected());
            },
        };
        let (creation, action) = creation.step(Event::NamespaceId(Ok(resolved)));
        match action {
            Action::BeginWrite => {},
            Action::Return(r) => {
                return r;
            },
            _ => {
                return Err(unexpected());
            },
        }
        let mut tx = match MemoryTransaction::begin_write(self.catalog.duplicate()) {
            Ok(tx) => tx,
            Err(e) => {
                return Err(e);
            },
        };
        let (creation, action) = creation.step(Event::Done(Ok(())));
        let (creation, action) = self.create_view_in_transaction(
            tx.transaction(),
            creation,
            action,
        );
        match action {
            Action::Commit => {
                match tx.commit() {
                    Ok(state) => {
                        self.catalog = state;
                    },
                    Err(e) => {
                        return Err(e);
                    },
                }
                let (creation, action) = creation.step(Event::Done(Ok(())));
                match action {
                    Action::Publish { event_id, metadata } => {
                        self.events.push(metadata);
                    },
                    Action::Return(r) => {
                        return r;
                    },
                    _ => {
                        return Err(unexpected());
                    },
                }
                let (creation, action) = creation.step(Event::Done(Ok(())));
                match action {
                    Action::Return(r) => r,
                    _ => Err(unexpected()),
                }
            },
            _ => {
                let _ = tx.rollback();
                let (creation, action) = creation.step(Event::Done(Ok(())));
                match action {
                    Action::Return(r) => r,
                    _ => Err(unexpected()),
                }
            },
        }
    }
}

/// What the creation of a view under the identifiers `fresh` makes of a
/// server and returns. It fails exactly where it does not get through, with
/// the error of the first step that failed; the catalog and the event
/// publisher's record are then as before. The collaborators' answers stay as
/// they are in any case.
pub open spec fn view_creation(
    before: MemoryServer,
    parameters: NamespaceParameters,
    request: CreateViewRequest,
    request_metadata: RequestMetadata,
    fresh: FreshIds,
    after: MemoryServer,
    r: Result<LoadViewResult, ErrorModel>,
) -> bool {
    &&& after.catalog.wf()
    &&& after.authorization == before.authorization
    &&& after.metadata_document == before.metadata_document
    &&& after.secret == before.secret
    &&& after.config == before.config
    &&& after.default_codec == before.default_codec
    &&& after.now == before.now
    &&& after.files@ == files_after(before, parameters, request, fresh)
    &&& match reached(before, parameters, request, fresh) {
        Reached::Failed(e) => {
            &&& r is Err
            &&& r->Err_0@ == e
            &&& after.catalog@ == before.catalog@
            &&& after.events@ =~= before.events@
        },
        Reached::FailedAfterWrite(e) => {
            &&& r is Err
            &&& r->Err_0@ == e
            &&& after.catalog@ == before.catalog@
            &&& after.events@ =~= before.events@
        },
        Reached::Done => {
            &&& r is Ok
            &&& created(before, parameters, request, request_metadata, fresh, after, r->Ok_0)
        },
    }
}

/// Create, then load: after a view was created, the catalog has its row with
/// the metadata that was returned, and the object store holds, at the metadata
/// location that was returned, the very bytes of that metadata.
pub proof fn lemma_create_then_load(
    before: MemoryServer,
    parameters: NamespaceParameters,
    request: CreateViewRequest,
    request_metadata: RequestMetadata,
    fresh: FreshIds,
    after: MemoryServer,
    r: Result<LoadViewResult, ErrorModel>,
)
    requires
        before.catalog.wf(),
        view_creation(before, parameters, request, request_metadata, fresh, after, r),
        r is Ok,
    ensures
        object_at(after.files@, r->Ok_0.metadata_location@) == Some(r->Ok_0.metadata.document@),
        crate::tabular::spec_get(
            after.catalog@.tabulars,
            TabularIdentUuid::View(fresh.view_id),
            crate::tabular::only_active(),
        ) matches Some(row) && row.metadata == r->Ok_0.metadata@ && row.metadata_location == Some(
            r->Ok_0.metadata_location@,
        ),
{
    let w = warehouse_asked(parameters)->Ok_0;
    let catalog = before.catalog@;
    let warehouse = catalog.warehouses[choose|i: int| warehouse_at(catalog.warehouses, w, i)];
    let namespace_id = spec_namespace_id(catalog, w, parameters.namespace@)->0;
    let file = metadata_file_for(warehouse, namespace_id, request, before.default_codec, fresh);
    let row = view_row_for(before, warehouse, namespace_id, request, fresh);
    crate::transaction::lemma_object_added(
        before.files@,
        file,
        before.metadata_document->Ok_0@,
        file,
    );
    let rows = catalog.tabulars.push(row);
    crate::tabular::lemma_row_index(rows, row.tabular_id, catalog.tabulars.len() as int);
}

/// A second creation under the name of a view that was just created, in the
/// same namespace, fails with a conflict, whatever identifiers are minted for
/// it, and writes no second object.
pub proof fn lemma_second_create_conflicts(
    before: MemoryServer,
    parameters: NamespaceParameters,
    request: CreateViewRequest,
    request_metadata: RequestMetadata,
    fresh: FreshIds,
    after: MemoryServer,
    r: Result<LoadViewResult, ErrorModel>,
    again: FreshIds,
)
    requires
        before.catalog.wf(),
        view_creation(before, parameters, request, request_metadata, fresh, after, r),
        r is Ok,
    ensures
        reached(after, parameters, request, again) == Reached::Failed(
            store_error(crate::error::ErrorKind::Conflict),
        ),
        files_after(after, parameters, request, again) == after.files@,
{
    let w = warehouse_asked(parameters)->Ok_0;
    let catalog = before.catalog@;
    let warehouse = catalog.warehouses[choose|i: int| warehouse_at(catalog.warehouses, w, i)];
    let namespace_id = spec_namespace_id(catalog, w, parameters.namespace@)->0;
    let row = view_row_for(before, warehouse, namespace_id, request, fresh);
    let rows = catalog.tabulars.push(row);
    assert(after.catalog@.warehouses == catalog.warehouses);
    assert(after.catalog@.namespaces == catalog.namespaces);
    assert(spec_namespace_id(after.catalog@, w, parameters.namespace@) == Some(namespace_id));
    let second = view_row_for(after, warehouse, namespace_id, request, again);
    assert(crate::tabular::is_live(rows[catalog.tabulars.len() as int]));
    assert(crate::tabular::has_name(
        rows[catalog.tabulars.len() as int],
        second.warehouse_id,
        second.namespace_id,
        second.tabular_id is Table,
        second.name,
    ));
    assert(crate::tabular::name_taken(rows, second));
}

} // verus!
