use iceberg_catalog::catalog::{TabularDeleteProfile, Warehouse, WarehouseStatus};
use iceberg_catalog::error::{ErrorKind, ErrorModel};
use iceberg_catalog::flags::ListFlags;
use iceberg_catalog::ident::{NamespaceIdentUuid, ProjectIdent, SecretIdent, WarehouseIdent};
use iceberg_catalog::location::Location;
use iceberg_catalog::names::NamespaceIdent;
use iceberg_catalog::server::{MemoryServer, NamespaceParameters, RequestMetadata};
use iceberg_catalog::storage::{S3Flavor, S3Profile, StorageProfile};
use iceberg_catalog::tabular::TabularStatus;
use iceberg_catalog::tabular_idents::TabularIdentUuid;
use iceberg_catalog::views::{
    CreateViewRequest, DataAccess, LoadViewResult, SqlViewRepresentation,
};
use uuid::Uuid;

struct Setup {
    server: MemoryServer,
    namespace: NamespaceIdent,
    namespace_id: NamespaceIdentUuid,
    warehouse_id: WarehouseIdent,
}

fn setup() -> Setup {
    let mut server = MemoryServer::new(1_719_395_654_343_000);
    let warehouse_id = WarehouseIdent(Uuid::now_v7().as_u128());
    server
        .catalog
        .create_warehouse(Warehouse {
            id: warehouse_id,
            name: "my-warehouse".to_string(),
            project_id: ProjectIdent(Uuid::now_v7().as_u128()),
            storage_profile: StorageProfile::S3(S3Profile {
                bucket: "my.bucket".to_string(),
                endpoint: Some("http://localhost:9000".to_string()),
                region: "us-east-1".to_string(),
                assume_role_arn: None,
                path_style_access: None,
                key_prefix: Some("my/subpath".to_string()),
                sts_role_arn: None,
                sts_enabled: false,
                flavor: S3Flavor::Aws,
            }),
            storage_secret_id: None,
            status: WarehouseStatus::Active,
            tabular_delete_profile: TabularDeleteProfile::Hard,
        })
        .unwrap();
    let namespace = NamespaceIdent::new(Uuid::now_v7().to_string());
    let namespace_id = NamespaceIdentUuid(Uuid::now_v7().as_u128());
    server
        .catalog
        .create_namespace(warehouse_id, namespace_id, namespace.duplicate(), None)
        .unwrap();
    server.metadata_document = Ok(b"{\"format-version\":1}".to_vec());
    server.config = Ok(vec![("s3.region".to_string(), "us-east-1".to_string())]);
    Setup { server, namespace, namespace_id, warehouse_id }
}

fn create_view_request(name: Option<&str>, location: Option<&str>) -> CreateViewRequest {
    CreateViewRequest {
        name: name.unwrap_or("myview").to_string(),
        location: location.map(|l| l.to_string()),
        properties: vec![
            ("create_engine_version".to_string(), "Spark 3.5.1".to_string()),
            ("engine_version".to_string(), "Spark 3.5.1".to_string()),
            ("spark.query-column-names".to_string(), "id".to_string()),
        ],
        representations: vec![SqlViewRepresentation {
            sql: "select id, xyz from spark_demo.my_table".to_string(),
            dialect: "spark".to_string(),
        }],
    }
}

fn create_view(
    server: &mut MemoryServer,
    namespace: &NamespaceIdent,
    rq: CreateViewRequest,
    prefix: Option<String>,
) -> Result<LoadViewResult, ErrorModel> {
    server.create_view(
        NamespaceParameters { prefix, namespace: namespace.duplicate() },
        rq,
        DataAccess { vended_credentials: true, remote_signing: false },
        RequestMetadata { request_id: Uuid::now_v7().as_u128() },
    )
}

#[test]
fn test_create_view() {
    let Setup { mut server, namespace, warehouse_id: whi, .. } = setup();

    let mut rq = create_view_request(None, None);

    let _view = create_view(&mut server, &namespace, rq.clone(), Some(whi.to_string())).unwrap();
    let view = create_view(&mut server, &namespace, rq.clone(), Some(whi.to_string()))
        .expect_err("Recreate with same ident should fail.");
    assert_eq!(view.code, 409);
    let old_name = rq.name.clone();
    rq.name = "some-other-name".to_string();

    let _view = create_view(&mut server, &namespace, rq.clone(), Some(whi.to_string()))
        .expect("Recreate with with another name it should work");

    rq.name = old_name;
    let namespace = NamespaceIdent::from_vec(vec![Uuid::now_v7().to_string()]).unwrap();
    server
        .catalog
        .create_namespace(whi, NamespaceIdentUuid(Uuid::now_v7().as_u128()), namespace.duplicate(), None)
        .unwrap();

    let _view = create_view(&mut server, &namespace, rq, Some(whi.to_string()))
        .expect("Recreate with same name but different ns should work.");
}

#[test]
fn created_view_is_stored_returned_and_announced() {
    let Setup { mut server, namespace, namespace_id, warehouse_id } = setup();
    let result =
        create_view(&mut server, &namespace, create_view_request(None, None), Some(warehouse_id.to_string()))
            .unwrap();

    assert_eq!(result.metadata.document, b"{\"format-version\":1}".to_vec());
    assert_eq!(result.config, Some(vec![("s3.region".to_string(), "us-east-1".to_string())]));

    let id = TabularIdentUuid::View(result.metadata.uuid);
    let row = server.catalog.tabulars().get(id, ListFlags::default()).unwrap();
    assert_eq!(row.name, "myview");
    assert_eq!(row.namespace_id, namespace_id);
    assert_eq!(row.warehouse_id, warehouse_id);
    assert_eq!(row.status, TabularStatus::Active);
    assert_eq!(row.metadata_location, Some(result.metadata_location.clone()));
    assert_eq!(row.metadata.document, result.metadata.document);
    assert_eq!(row.created_at, 1_719_395_654_343_000);

    // the layout of the object store
    let base = format!("s3://my.bucket/my/subpath/{}", warehouse_id.to_string());
    assert_eq!(
        row.storage_location,
        format!("{}/{}/{}/", base, namespace_id.to_string(), id.to_string())
    );
    assert!(result.metadata_location.starts_with(&format!(
        "{}/{}/{}/metadata/{}-",
        base,
        namespace_id.to_string(),
        id.to_string(),
        id.to_string()
    )));
    assert!(result.metadata_location.ends_with(".metadata.json.gz"));
    let storage = Location::from_str(&row.storage_location).unwrap();
    let warehouse = server.catalog.get_warehouse(warehouse_id).unwrap();
    assert!(warehouse.is_allowed_location(&storage));
    assert!(Location::from_str(&result.metadata_location).unwrap().is_sublocation_of(&storage));

    // create, then load: the same bytes
    assert_eq!(server.files.read(&result.metadata_location), Some(&result.metadata.document));
    assert_eq!(server.files.len(), 1);

    // the publisher was told once
    assert_eq!(server.events.len(), 1);
    assert_eq!(server.events[0].tabular_id, id);
    assert_eq!(server.events[0].warehouse_id, warehouse_id.0);
    assert_eq!(server.events[0].name, "myview");
    assert_eq!(server.events[0].namespace, namespace.to_url_string());
    assert_eq!(server.events[0].prefix, warehouse_id.to_string());
    assert_eq!(server.events[0].num_events, 1);
    assert_eq!(server.events[0].sequence_number, 0);
}

#[test]
fn second_create_conflicts_and_writes_no_second_object() {
    let Setup { mut server, namespace, warehouse_id, .. } = setup();
    let prefix = Some(warehouse_id.to_string());
    create_view(&mut server, &namespace, create_view_request(None, None), prefix.clone()).unwrap();
    let e = create_view(&mut server, &namespace, create_view_request(None, None), prefix).unwrap_err();
    assert_eq!(e.code, 409);
    assert_eq!(e.kind, ErrorKind::Conflict);
    assert_eq!(e.kind.type_str(), "Conflict");
    assert_eq!(server.files.len(), 1);
    assert_eq!(server.events.len(), 1);
    assert_eq!(server.catalog.tabulars().len(), 1);
}

#[test]
fn rename_across_namespace() {
    let Setup { mut server, namespace: n1, warehouse_id, .. } = setup();
    let prefix = Some(warehouse_id.to_string());
    let v = create_view(&mut server, &n1, create_view_request(Some("v"), None), prefix.clone()).unwrap();
    let id = TabularIdentUuid::View(v.metadata.uuid);

    let n2 = NamespaceIdent::new("n2".to_string());
    let n2_id = NamespaceIdentUuid(Uuid::now_v7().as_u128());
    server.catalog.create_namespace(warehouse_id, n2_id, n2.duplicate(), None).unwrap();

    let before = server.catalog.tabulars().get(id, ListFlags::default()).unwrap().duplicate();
    server.catalog.rename_tabular(warehouse_id, id, n2_id, "v".to_string()).unwrap();
    let after = server.catalog.tabulars().get(id, ListFlags::default()).unwrap();
    assert_eq!(after.namespace_id, n2_id);
    assert_eq!(after.tabular_id, before.tabular_id);
    assert_eq!(after.storage_location, before.storage_location);
    assert_eq!(after.metadata_location, before.metadata_location);

    let again = create_view(&mut server, &n1, create_view_request(Some("v"), None), prefix).unwrap();
    assert_ne!(again.metadata.uuid, v.metadata.uuid);
}

#[test]
fn requests_are_checked_before_anything_is_done() {
    let Setup { mut server, namespace, warehouse_id, .. } = setup();
    let prefix = Some(warehouse_id.to_string());

    let e = create_view(&mut server, &namespace, create_view_request(None, None), None).unwrap_err();
    assert_eq!((e.code, e.reason.as_str()), (400, "NoPrefixProvided"));

    let e = create_view(
        &mut server,
        &namespace,
        create_view_request(None, None),
        Some("my-warehouse".to_string()),
    )
    .unwrap_err();
    assert_eq!((e.code, e.reason.as_str()), (400, "PrefixIsNotUUID"));

    let e = create_view(&mut server, &namespace, create_view_request(Some(""), None), prefix.clone())
        .unwrap_err();
    assert_eq!((e.code, e.reason.as_str()), (400, "InvalidIdentifier"));

    let mut rq = create_view_request(None, None);
    rq.properties.push(("write.metadata.path".to_string(), "s3://elsewhere".to_string()));
    let e = create_view(&mut server, &namespace, rq, prefix.clone()).unwrap_err();
    assert_eq!((e.code, e.reason.as_str()), (400, "FailedToSetProperties"));

    let mut rq = create_view_request(None, None);
    rq.representations.clear();
    let e = create_view(&mut server, &namespace, rq, prefix.clone()).unwrap_err();
    assert_eq!((e.code, e.reason.as_str()), (400, "EmptyView"));
    assert_eq!(e.message, "View must have at least one query.");

    let unknown = NamespaceIdent::new("unknown".to_string());
    let e = create_view(&mut server, &unknown, create_view_request(None, None), prefix.clone())
        .unwrap_err();
    assert_eq!((e.code, e.reason.as_str()), (404, "NamespaceNotFound"));

    let mut rq = create_view_request(None, None);
    rq.properties.push(("write.metadata.compression-codec".to_string(), "lz4".to_string()));
    let e = create_view(&mut server, &namespace, rq, prefix.clone()).unwrap_err();
    assert_eq!((e.code, e.reason.as_str()), (400, "UnsupportedCompressionCodec"));

    let e = create_view(
        &mut server,
        &namespace,
        create_view_request(None, Some("s3://other.bucket/a/b")),
        prefix.clone(),
    )
    .unwrap_err();
    assert_eq!((e.code, e.reason.as_str()), (400, "InvalidTableLocation"));

    assert_eq!(server.catalog.tabulars().len(), 0);
    assert_eq!(server.files.len(), 0);
    assert_eq!(server.events.len(), 0);
}

#[test]
fn a_failing_collaborator_leaves_the_catalog_as_it_was() {
    let denied = ErrorModel::new(ErrorKind::Forbidden, "no", "CreateViewDenied");
    let no_secret = ErrorModel::new(ErrorKind::SecretError, "no", "SecretNotFound");
    let no_config = ErrorModel::new(ErrorKind::StorageError, "no", "StsUnavailable");

    let Setup { mut server, namespace, warehouse_id, .. } = setup();
    let prefix = Some(warehouse_id.to_string());
    server.authorization = Err(denied);
    let e = create_view(&mut server, &namespace, create_view_request(None, None), prefix.clone())
        .unwrap_err();
    assert_eq!((e.code, e.kind, e.reason.as_str()), (403, ErrorKind::Forbidden, "CreateViewDenied"));
    assert_eq!(server.catalog.tabulars().len(), 0);
    server.authorization = Ok(());

    server.metadata_document = Err(ErrorModel::internal("boom", "Builder"));
    let e = create_view(&mut server, &namespace, create_view_request(None, None), prefix.clone())
        .unwrap_err();
    assert_eq!((e.code, e.reason.as_str()), (400, "ViewMetadataCreationFailed"));
    assert_eq!(e.message, "Failed to create view metadata");
    assert_eq!(server.catalog.tabulars().len(), 0);
    server.metadata_document = Ok(vec![1, 2, 3]);

    // the row is inserted and the file written, then the configuration fails:
    // the row is rolled back, the file stays behind
    server.config = Err(no_config);
    let e = create_view(&mut server, &namespace, create_view_request(None, None), prefix.clone())
        .unwrap_err();
    assert_eq!((e.code, e.kind), (500, ErrorKind::StorageError));
    assert_eq!(server.catalog.tabulars().len(), 0);
    assert_eq!(server.files.len(), 1);
    assert_eq!(server.events.len(), 0);
    server.config = Ok(vec![]);

    // a retry writes another file and succeeds
    let result =
        create_view(&mut server, &namespace, create_view_request(None, None), prefix.clone()).unwrap();
    assert_eq!(server.files.len(), 2);
    assert_eq!(server.files.read(&result.metadata_location), Some(&vec![1, 2, 3]));
    assert_eq!(server.catalog.tabulars().len(), 1);

    // with a storage secret the secret store is asked
    let Setup { mut server, namespace, warehouse_id, .. } = setup_with_secret();
    server.secret = Err(no_secret);
    let e = create_view(
        &mut server,
        &namespace,
        create_view_request(None, None),
        Some(warehouse_id.to_string()),
    )
    .unwrap_err();
    assert_eq!((e.code, e.kind, e.reason.as_str()), (500, ErrorKind::SecretError, "SecretNotFound"));
    assert_eq!(server.catalog.tabulars().len(), 0);
    assert_eq!(server.files.len(), 0);
    server.secret = Ok(());
    create_view(&mut server, &namespace, create_view_request(None, None), Some(warehouse_id.to_string()))
        .unwrap();
}

fn setup_with_secret() -> Setup {
    let mut s = setup();
    let other = WarehouseIdent(Uuid::now_v7().as_u128());
    let mut warehouse = s.server.catalog.get_warehouse(s.warehouse_id).unwrap();
    warehouse.id = other;
    warehouse.storage_secret_id = Some(SecretIdent(Uuid::now_v7().as_u128()));
    s.server.catalog.create_warehouse(warehouse).unwrap();
    let namespace_id = NamespaceIdentUuid(Uuid::now_v7().as_u128());
    s.server.catalog.create_namespace(other, namespace_id, s.namespace.duplicate(), None).unwrap();
    Setup { server: s.server, namespace: s.namespace, namespace_id, warehouse_id: other }
}

#[test]
fn requested_location_is_used_where_it_is_allowed() {
    let Setup { mut server, namespace, namespace_id, warehouse_id } = setup();
    let asked = format!(
        "s3://my.bucket/my/subpath/{}/{}/{}",
        warehouse_id.to_string(),
        namespace_id.to_string(),
        Uuid::now_v7()
    );
    let result = create_view(
        &mut server,
        &namespace,
        create_view_request(None, Some(&asked)),
        Some(warehouse_id.to_string()),
    )
    .unwrap();
    let row = server
        .catalog
        .tabulars()
        .get(TabularIdentUuid::View(result.metadata.uuid), ListFlags::default())
        .unwrap();
    assert_eq!(row.storage_location, asked);
    assert!(result.metadata_location.starts_with(&format!("{}/metadata/", asked)));
}

#[test]
fn inactive_warehouse_takes_no_requests() {
    let Setup { mut server, namespace, namespace_id, warehouse_id } = setup();
    let prefix = Some(warehouse_id.to_string());
    let v = create_view(&mut server, &namespace, create_view_request(None, None), prefix.clone()).unwrap();
    let id = TabularIdentUuid::View(v.metadata.uuid);
    assert_eq!(server.catalog.namespace_ident_to_id(warehouse_id, &namespace), Some(namespace_id));

    server.catalog.set_warehouse_status(warehouse_id, WarehouseStatus::Inactive).unwrap();

    assert_eq!(server.catalog.namespace_ident_to_id(warehouse_id, &namespace), None);
    assert!(server.catalog.list_tabulars(warehouse_id, ListFlags::all()).is_empty());
    let inactive = |e: ErrorModel| {
        assert_eq!(e.kind, ErrorKind::WarehouseInactive);
        assert_eq!(e.kind.type_str(), "WarehouseInactive");
        assert_eq!(e.reason, "WarehouseNotActive");
    };
    inactive(server.catalog.get_warehouse(warehouse_id).unwrap_err());
    inactive(server.catalog.get_namespace(warehouse_id, &namespace).unwrap_err());
    inactive(
        server
            .catalog
            .create_namespace(
                warehouse_id,
                NamespaceIdentUuid(1),
                NamespaceIdent::new("x".to_string()),
                None,
            )
            .unwrap_err(),
    );
    inactive(server.catalog.drop_namespace(warehouse_id, &namespace).unwrap_err());
    inactive(server.catalog.update_namespace_properties(warehouse_id, &namespace, vec![]).unwrap_err());
    inactive(server.catalog.rename_tabular(warehouse_id, id, namespace_id, "w".to_string()).unwrap_err());
    inactive(server.catalog.drop_tabular(id).unwrap_err());
    inactive(server.catalog.mark_tabular_as_deleted(id, 1, 0, 1).unwrap_err());
    inactive(server.catalog.commit_table_transaction(warehouse_id, vec![]).unwrap_err());
    inactive(
        server
            .catalog
            .create_tabular(
                TabularIdentUuid::Table(5),
                warehouse_id,
                namespace_id,
                "t".to_string(),
                None,
                "s3://b/x".to_string(),
                v.metadata.duplicate(),
                0,
            )
            .unwrap_err(),
    );
    let e = create_view(&mut server, &namespace, create_view_request(Some("other"), None), prefix.clone())
        .unwrap_err();
    assert_eq!(e.code, 404);
    assert_eq!(server.catalog.tabulars().len(), 1);

    server.catalog.set_warehouse_status(warehouse_id, WarehouseStatus::Active).unwrap();
    assert_eq!(server.catalog.namespace_ident_to_id(warehouse_id, &namespace), Some(namespace_id));
    create_view(&mut server, &namespace, create_view_request(Some("other"), None), prefix).unwrap();
}

#[test]
fn metrics_are_accepted_and_discarded() {
    let server = MemoryServer::new(0);
    assert!(server.report_metrics(&b"{\"report-type\":\"scan-report\"}".to_vec()).is_ok());
    assert!(server.report_metrics(&Vec::new()).is_ok());
    assert_eq!(server.catalog.tabulars().len(), 0);
    assert_eq!(server.files.len(), 0);
}
