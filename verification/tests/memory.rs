use iceberg_catalog::catalog::{Metadata, TabularDeleteProfile, Warehouse, WarehouseStatus};
use iceberg_catalog::error::ErrorKind;
use iceberg_catalog::flags::ListFlags;
use iceberg_catalog::ident::{NamespaceIdentUuid, ProjectIdent, WarehouseIdent};
use iceberg_catalog::memory::MemoryCatalog;
use iceberg_catalog::names::NamespaceIdent;
use iceberg_catalog::storage::{S3Flavor, S3Profile, StorageProfile};
use iceberg_catalog::tabular_idents::TabularIdentUuid;
use iceberg_catalog::transaction::{MemoryObjectStore, MemoryTransaction, Transaction};

fn warehouse(id: u128) -> Warehouse {
    Warehouse {
        id: WarehouseIdent(id),
        name: format!("warehouse-{}", id),
        project_id: ProjectIdent(1),
        storage_profile: StorageProfile::S3(S3Profile {
            bucket: "b".to_string(),
            endpoint: None,
            region: "r".to_string(),
            assume_role_arn: None,
            path_style_access: Some(true),
            key_prefix: None,
            sts_role_arn: None,
            sts_enabled: false,
            flavor: S3Flavor::Minio,
        }),
        storage_secret_id: None,
        status: WarehouseStatus::Active,
        tabular_delete_profile: TabularDeleteProfile::Soft { expiration_seconds: 60 },
    }
}

fn ns(levels: &[&str]) -> NamespaceIdent {
    NamespaceIdent::from_vec(levels.iter().map(|l| l.to_string()).collect()).unwrap()
}

fn catalog() -> MemoryCatalog {
    let mut c = MemoryCatalog::new();
    c.create_warehouse(warehouse(1)).unwrap();
    c.create_namespace(WarehouseIdent(1), NamespaceIdentUuid(10), ns(&["a"]), None).unwrap();
    c
}

fn add_table(c: &mut MemoryCatalog, id: u128, namespace: u128, name: &str) {
    c.create_tabular(
        TabularIdentUuid::Table(id),
        WarehouseIdent(1),
        NamespaceIdentUuid(namespace),
        name.to_string(),
        Some(format!("s3://b/{}/m0", id)),
        format!("s3://b/{}", id),
        Metadata { uuid: id, document: vec![] },
        0,
    )
    .unwrap();
}

#[test]
fn warehouses_are_kept_by_identifier() {
    let mut c = MemoryCatalog::new();
    c.create_warehouse(warehouse(1)).unwrap();
    let e = c.create_warehouse(warehouse(1)).unwrap_err();
    assert_eq!((e.code, e.reason.as_str()), (409, "WarehouseAlreadyExists"));
    c.create_warehouse(warehouse(2)).unwrap();
    let w = c.get_warehouse(WarehouseIdent(2)).unwrap();
    assert_eq!(w.id, WarehouseIdent(2));
    assert_eq!(w.name, "warehouse-2");
    assert_eq!(w.status, WarehouseStatus::Active);
    let e = c.get_warehouse(WarehouseIdent(3)).unwrap_err();
    assert_eq!((e.code, e.reason.as_str()), (404, "WarehouseNotFound"));
    let e = c.set_warehouse_status(WarehouseIdent(3), WarehouseStatus::Inactive).unwrap_err();
    assert_eq!(e.kind, ErrorKind::NotFound);
    assert!(c.require_warehouse(WarehouseIdent(1)).is_ok());
}

#[test]
fn namespaces_are_unique_in_a_warehouse() {
    let mut c = catalog();
    let w = WarehouseIdent(1);
    let e = c.create_namespace(w, NamespaceIdentUuid(11), ns(&["a"]), None).unwrap_err();
    assert_eq!((e.code, e.reason.as_str()), (409, "NamespaceAlreadyExists"));
    let e = c.create_namespace(w, NamespaceIdentUuid(10), ns(&["b"]), None).unwrap_err();
    assert_eq!(e.kind, ErrorKind::Conflict);
    c.create_namespace(w, NamespaceIdentUuid(11), ns(&["a", "b"]), None).unwrap();
    c.create_warehouse(warehouse(2)).unwrap();
    c.create_namespace(WarehouseIdent(2), NamespaceIdentUuid(12), ns(&["a"]), None).unwrap();
    let e = c.create_namespace(WarehouseIdent(9), NamespaceIdentUuid(13), ns(&["a"]), None).unwrap_err();
    assert_eq!(e.reason, "WarehouseNotFound");

    assert_eq!(c.namespace_ident_to_id(w, &ns(&["a"])), Some(NamespaceIdentUuid(10)));
    assert_eq!(c.namespace_ident_to_id(w, &ns(&["a", "b"])), Some(NamespaceIdentUuid(11)));
    assert_eq!(c.namespace_ident_to_id(WarehouseIdent(2), &ns(&["a"])), Some(NamespaceIdentUuid(12)));
    assert_eq!(c.namespace_ident_to_id(w, &ns(&["b"])), None);
    assert_eq!(c.namespace_ident_to_id(WarehouseIdent(9), &ns(&["a"])), None);

    let got = c.get_namespace(w, &ns(&["a", "b"])).unwrap();
    assert_eq!(got.namespace_id, NamespaceIdentUuid(11));
    assert_eq!(got.warehouse_id, w);
    assert!(got.namespace.same_as(&ns(&["a", "b"])));
    assert_eq!(got.properties, None);
    let e = c.get_namespace(w, &ns(&["zzz"])).unwrap_err();
    assert_eq!((e.code, e.reason.as_str()), (404, "NamespaceNotFound"));
}

#[test]
fn namespace_properties_are_replaced_as_a_whole() {
    let mut c = catalog();
    let w = WarehouseIdent(1);
    let a = ns(&["a"]);
    c.update_namespace_properties(w, &a, vec![("k".to_string(), "1".to_string())]).unwrap();
    c.update_namespace_properties(w, &a, vec![("l".to_string(), "2".to_string())]).unwrap();
    assert_eq!(
        c.get_namespace(w, &a).unwrap().properties,
        Some(vec![("l".to_string(), "2".to_string())])
    );
    let e = c.update_namespace_properties(w, &ns(&["x"]), vec![]).unwrap_err();
    assert_eq!(e.kind, ErrorKind::NotFound);
}

#[test]
fn namespace_with_children_is_not_dropped() {
    let mut c = catalog();
    let w = WarehouseIdent(1);
    c.create_namespace(w, NamespaceIdentUuid(11), ns(&["a", "b"]), None).unwrap();
    let e = c.drop_namespace(w, &ns(&["a"])).unwrap_err();
    assert_eq!((e.code, e.reason.as_str()), (409, "NamespaceNotEmpty"));

    add_table(&mut c, 100, 11, "t");
    let e = c.drop_namespace(w, &ns(&["a", "b"])).unwrap_err();
    assert_eq!(e.reason, "NamespaceNotEmpty");

    // a soft-deleted tabular is no child
    c.mark_tabular_as_deleted(TabularIdentUuid::Table(100), 1, 0, 1).unwrap();
    c.drop_namespace(w, &ns(&["a", "b"])).unwrap();
    assert_eq!(c.namespace_ident_to_id(w, &ns(&["a", "b"])), None);
    c.drop_namespace(w, &ns(&["a"])).unwrap();
    let e = c.drop_namespace(w, &ns(&["a"])).unwrap_err();
    assert_eq!(e.reason, "NamespaceNotFound");
}

#[test]
fn tabulars_need_their_namespace() {
    let mut c = catalog();
    let e = c
        .create_tabular(
            TabularIdentUuid::Table(1),
            WarehouseIdent(1),
            NamespaceIdentUuid(99),
            "t".to_string(),
            None,
            "s3://b/1".to_string(),
            Metadata { uuid: 1, document: vec![] },
            0,
        )
        .unwrap_err();
    assert_eq!(e.reason, "NamespaceNotFound");
    add_table(&mut c, 1, 10, "t");
    let e = c
        .rename_tabular(WarehouseIdent(1), TabularIdentUuid::Table(1), NamespaceIdentUuid(99), "u".to_string())
        .unwrap_err();
    assert_eq!(e.reason, "NamespaceNotFound");
    c.create_warehouse(warehouse(2)).unwrap();
    let e = c
        .rename_tabular(WarehouseIdent(2), TabularIdentUuid::Table(1), NamespaceIdentUuid(10), "u".to_string())
        .unwrap_err();
    assert_eq!(e.reason, "TabularNotFound");
    c.rename_tabular(WarehouseIdent(1), TabularIdentUuid::Table(1), NamespaceIdentUuid(10), "u".to_string())
        .unwrap();
    assert_eq!(c.list_tabulars(WarehouseIdent(1), ListFlags::default()), vec![TabularIdentUuid::Table(1)]);
    assert_eq!(c.drop_tabular(TabularIdentUuid::Table(1)).unwrap(), "s3://b/1");
    assert_eq!(c.drop_tabular(TabularIdentUuid::Table(1)).unwrap_err().reason, "TabularNotFound");
}

#[test]
fn transaction_commits_or_rolls_back() {
    let c = catalog();
    let mut tx = MemoryTransaction::begin_write(c).unwrap();
    add_table(tx.transaction(), 1, 10, "t");
    assert_eq!(tx.state().tabulars().len(), 1);
    let c = tx.rollback().unwrap();
    assert_eq!(c.tabulars().len(), 0);

    let mut tx = MemoryTransaction::begin_write(c).unwrap();
    add_table(tx.transaction(), 1, 10, "t");
    add_table(tx.transaction(), 2, 10, "u");
    let c = tx.commit().unwrap();
    assert_eq!(c.tabulars().len(), 2);

    let tx = MemoryTransaction::begin_read(c).unwrap();
    assert_eq!(tx.state().tabulars().len(), 2);
    let c = tx.commit().unwrap();
    assert_eq!(c.duplicate().tabulars().len(), 2);
}

#[test]
fn objects_are_written_once() {
    let mut files = MemoryObjectStore::new();
    assert_eq!(files.read("s3://b/x"), None);
    files.write("s3://b/x".to_string(), vec![1, 2]).unwrap();
    files.write("s3://b/y".to_string(), vec![3]).unwrap();
    assert_eq!(files.read("s3://b/x"), Some(&vec![1, 2]));
    assert_eq!(files.read("s3://b/y"), Some(&vec![3]));
    let e = files.write("s3://b/x".to_string(), vec![9]).unwrap_err();
    assert_eq!((e.code, e.kind, e.reason.as_str()), (500, ErrorKind::StorageError, "ObjectAlreadyExists"));
    assert_eq!(files.read("s3://b/x"), Some(&vec![1, 2]));
    assert_eq!(files.len(), 2);
}

#[test]
fn tabulars_are_listed_in_pages() {
    let mut c = catalog();
    for (id, name) in [(3u128, "c"), (1, "a"), (2, "b")] {
        add_table(&mut c, id, 10, name);
    }
    let query = iceberg_catalog::pagination::PaginationQuery { page_token: None, page_size: Some(2) };
    let page = c.list_tabulars_page(WarehouseIdent(1), ListFlags::default(), &query, 10, 10).unwrap();
    assert_eq!(page.ids, vec![TabularIdentUuid::Table(1), TabularIdentUuid::Table(2)]);
    let query = iceberg_catalog::pagination::PaginationQuery {
        page_token: page.next_page_token,
        page_size: Some(2),
    };
    let page = c.list_tabulars_page(WarehouseIdent(1), ListFlags::default(), &query, 10, 10).unwrap();
    assert_eq!(page.ids, vec![TabularIdentUuid::Table(3)]);
    assert_eq!(page.next_page_token, None);
}

#[test]
fn warehouses_are_renamed_updated_and_deleted() {
    let mut c = catalog();
    let id = WarehouseIdent(1);
    c.rename_warehouse(id, "renamed").unwrap();
    assert_eq!(c.get_warehouse(id).unwrap().name, "renamed");
    assert_eq!(c.rename_warehouse(WarehouseIdent(9), "x").unwrap_err().reason, "WarehouseNotFound");

    let profile = StorageProfile::S3(S3Profile {
        bucket: "other".to_string(),
        endpoint: None,
        region: "r2".to_string(),
        assume_role_arn: None,
        path_style_access: None,
        key_prefix: Some("p".to_string()),
        sts_role_arn: None,
        sts_enabled: true,
        flavor: S3Flavor::Aws,
    });
    c.update_storage_profile(id, profile, Some(iceberg_catalog::ident::SecretIdent(4))).unwrap();
    let w = c.get_warehouse(id).unwrap();
    assert_eq!(w.storage_secret_id, Some(iceberg_catalog::ident::SecretIdent(4)));
    assert_eq!(
        w.base_location().unwrap().to_string(),
        format!("s3://other/p/{}", id.to_string())
    );
    assert!(c.update_storage_profile(WarehouseIdent(9), w.storage_profile.duplicate(), None).is_err());

    add_table(&mut c, 1, 10, "t");
    let e = c.delete_warehouse(id).unwrap_err();
    assert_eq!((e.code, e.reason.as_str()), (409, "WarehouseNotEmpty"));
    c.mark_tabular_as_deleted(TabularIdentUuid::Table(1), 1, 0, 1).unwrap();
    c.delete_warehouse(id).unwrap();
    assert_eq!(c.get_warehouse(id).unwrap_err().reason, "WarehouseNotFound");
    assert_eq!(c.delete_warehouse(id).unwrap_err().reason, "WarehouseNotFound");
}

#[test]
fn warehouses_and_projects_are_listed() {
    let mut c = MemoryCatalog::new();
    for id in 1..=4u128 {
        let mut w = warehouse(id);
        w.project_id = ProjectIdent(if id == 4 { 2 } else { 1 });
        c.create_warehouse(w).unwrap();
    }
    c.set_warehouse_status(WarehouseIdent(2), WarehouseStatus::Inactive).unwrap();

    let ids = |listed: Vec<Warehouse>| listed.iter().map(|w| w.id.0).collect::<Vec<_>>();
    assert_eq!(ids(c.list_warehouses(ProjectIdent(1), None, None)), vec![1, 3]);
    assert_eq!(
        ids(c.list_warehouses(
            ProjectIdent(1),
            Some(&vec![WarehouseStatus::Active, WarehouseStatus::Inactive]),
            None
        )),
        vec![1, 2, 3]
    );
    assert_eq!(
        ids(c.list_warehouses(ProjectIdent(1), Some(&vec![WarehouseStatus::Inactive]), None)),
        vec![2]
    );
    assert_eq!(
        ids(c.list_warehouses(
            ProjectIdent(1),
            None,
            Some(&vec![WarehouseIdent(3), WarehouseIdent(2), WarehouseIdent(4)])
        )),
        vec![3]
    );
    assert_eq!(ids(c.list_warehouses(ProjectIdent(2), None, None)), vec![4]);
    assert!(c.list_warehouses(ProjectIdent(3), None, None).is_empty());
    assert_eq!(c.list_projects(), vec![ProjectIdent(1), ProjectIdent(2)]);
    assert!(MemoryCatalog::new().list_projects().is_empty());
}

#[test]
fn namespaces_are_listed_and_tabulars_found_by_name() {
    let mut c = catalog();
    let w = WarehouseIdent(1);
    c.create_namespace(w, NamespaceIdentUuid(11), ns(&["a", "b"]), None).unwrap();
    c.create_warehouse(warehouse(2)).unwrap();
    c.create_namespace(WarehouseIdent(2), NamespaceIdentUuid(12), ns(&["z"]), None).unwrap();
    let names = c.list_namespaces(w).unwrap();
    assert_eq!(names.len(), 2);
    assert!(names[0].same_as(&ns(&["a"])));
    assert!(names[1].same_as(&ns(&["a", "b"])));
    assert_eq!(c.list_namespaces(WarehouseIdent(9)).unwrap_err().reason, "WarehouseNotFound");

    add_table(&mut c, 1, 10, "t");
    let name = "t".to_string();
    let flags = ListFlags::default();
    assert_eq!(c.tabular_ident_to_id(w, &ns(&["a"]), true, &name, flags), Some(TabularIdentUuid::Table(1)));
    assert_eq!(c.tabular_ident_to_id(w, &ns(&["a"]), false, &name, flags), None);
    assert_eq!(c.tabular_ident_to_id(w, &ns(&["a", "b"]), true, &name, flags), None);
    assert_eq!(c.tabular_ident_to_id(w, &ns(&["nope"]), true, &name, flags), None);
    c.set_warehouse_status(w, WarehouseStatus::Inactive).unwrap();
    assert_eq!(c.tabular_ident_to_id(w, &ns(&["a"]), true, &name, flags), None);
    assert_eq!(c.list_namespaces(w).unwrap_err().kind, ErrorKind::WarehouseInactive);
}
