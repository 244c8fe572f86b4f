use iceberg_catalog::catalog::{
    require_active_warehouse, table_id_of_tail, GetNamespaceResponse, TabularDeleteProfile,
    Warehouse, WarehouseStatus,
};
use iceberg_catalog::error::ErrorKind;
use iceberg_catalog::ident::{NamespaceIdentUuid, ProjectIdent, WarehouseIdent};
use iceberg_catalog::location::Location;
use iceberg_catalog::names::NamespaceIdent;
use iceberg_catalog::storage::{S3Flavor, S3Profile, StorageProfile};
use iceberg_catalog::tabular_idents::TabularIdentUuid;
use uuid::Uuid;

fn s3_profile(bucket: &str, key_prefix: Option<&str>) -> StorageProfile {
    StorageProfile::S3(S3Profile {
        bucket: bucket.to_string(),
        endpoint: Some("http://localhost:9000".to_string()),
        region: "us-east-1".to_string(),
        assume_role_arn: None,
        path_style_access: None,
        key_prefix: key_prefix.map(|p| p.to_string()),
        sts_role_arn: None,
        sts_enabled: false,
        flavor: S3Flavor::Aws,
    })
}

fn warehouse_with(profile: StorageProfile, id: u128) -> Warehouse {
    Warehouse {
        id: WarehouseIdent(id),
        name: "my-warehouse".to_string(),
        project_id: ProjectIdent(Uuid::now_v7().as_u128()),
        storage_profile: profile,
        storage_secret_id: None,
        status: WarehouseStatus::Active,
        tabular_delete_profile: TabularDeleteProfile::Hard,
    }
}

fn namespace_response(warehouse: &Warehouse, namespace_id: u128) -> GetNamespaceResponse {
    GetNamespaceResponse {
        namespace: NamespaceIdent::new("ns".to_string()),
        namespace_id: NamespaceIdentUuid(namespace_id),
        warehouse_id: warehouse.id,
        properties: None,
    }
}

#[test]
fn test_is_allowed_location() {
    let profile = StorageProfile::S3(S3Profile {
        bucket: "my.bucket".to_string(),
        endpoint: Some("http://localhost:9000".to_string()),
        region: "us-east-1".to_string(),
        assume_role_arn: None,
        path_style_access: None,
        key_prefix: Some("my/subpath".to_string()),
        sts_role_arn: None,
        sts_enabled: false,
        flavor: S3Flavor::Aws,
    });
    let warehouse = Warehouse {
        id: WarehouseIdent(Uuid::now_v7().as_u128()),
        name: "my-warehouse".to_string(),
        project_id: ProjectIdent(Uuid::now_v7().as_u128()),
        storage_profile: profile,
        storage_secret_id: None,
        status: WarehouseStatus::Active,
        tabular_delete_profile: TabularDeleteProfile::Hard,
    };
    let id = warehouse.id.to_string();

    let cases = vec![
        (format!("s3://my.bucket/my/subpath/{}/ns-id", id), true),
        (format!("s3://my.bucket/my/subpath/{}/ns-id/", id), true),
        (format!("s3://my.bucket/my/subpath/{}/ns-id/tbl-id", id), true),
        (format!("s3://my.bucket/my/subpath/{}/ns-id/tbl-id/", id), true),
        (format!("s3://other.bucket/my/subpath/{}/ns-id/tbl-id/", id), false),
        (format!("s3://my.bucket/other/subpath/{}/ns-id/tbl-id/", id), false),
        // Exact path should not be accepted
        (format!("s3://my.bucket/my/subpath/{}", id), false),
        (format!("s3://my.bucket/my/subpath/{}/", id), false),
    ];

    for (sublocation, expected_result) in cases {
        let sublocation = Location::from_str(&sublocation).unwrap();
        assert_eq!(
            warehouse.is_allowed_location(&sublocation),
            expected_result,
            "Base Location: {}, Maybe sublocation: {}",
            warehouse.base_location().unwrap().to_string(),
            sublocation.to_string(),
        );
    }
}

#[test]
fn base_location_is_profile_base_then_warehouse_id() {
    let id = 0xa1a2a3a4_b1b2_c1c2_d1d2_d3d4d5d6d7d8u128;
    let warehouse = warehouse_with(s3_profile("my.bucket", Some("my/subpath")), id);
    assert_eq!(
        warehouse.base_location().unwrap().to_string(),
        "s3://my.bucket/my/subpath/a1a2a3a4-b1b2-c1c2-d1d2-d3d4d5d6d7d8"
    );
    let bare = warehouse_with(s3_profile("b", None), id);
    assert_eq!(
        bare.base_location().unwrap().to_string(),
        "s3://b/a1a2a3a4-b1b2-c1c2-d1d2-d3d4d5d6d7d8"
    );
}

#[test]
fn base_location_fails_for_a_bucket_that_is_no_segment() {
    let warehouse = warehouse_with(s3_profile("my/bucket", None), 1);
    let e = warehouse.base_location().unwrap_err();
    assert_eq!(e.kind, ErrorKind::BadRequest);
    assert_eq!(e.code, 400);
    assert_eq!(e.reason, "InvalidLocation");
    let empty = warehouse_with(s3_profile("", None), 1);
    assert!(empty.base_location().is_err());
    let anywhere = Location::from_str("s3://b/x/y").unwrap();
    assert!(!warehouse.is_allowed_location(&anywhere));
    assert!(!empty.is_allowed_location(&anywhere));
}

#[test]
fn location_guard_compares_whole_segments() {
    let id = 7u128;
    let warehouse = warehouse_with(s3_profile("b", Some("x")), id);
    let text = warehouse.id.to_string();
    let sibling = Location::from_str(&format!("s3://b/x/{}y/ns", text)).unwrap();
    assert!(!warehouse.is_allowed_location(&sibling));
    let other_scheme = Location::from_str(&format!("gs://b/x/{}/ns", text)).unwrap();
    assert!(!warehouse.is_allowed_location(&other_scheme));
    let under = Location::from_str(&format!("s3://b/x/{}/ns", text)).unwrap();
    assert!(warehouse.is_allowed_location(&under));
    let doubled = Location::from_str(&format!("s3://b/x/{}//", text)).unwrap();
    assert!(!warehouse.is_allowed_location(&doubled));
}

#[test]
fn check_allowed_table_location_hands_out_the_table_id() {
    let warehouse = warehouse_with(s3_profile("my.bucket", Some("my/subpath")), 11);
    let namespace_id = Uuid::now_v7();
    let table_id = Uuid::now_v7();
    let namespace = namespace_response(&warehouse, namespace_id.as_u128());
    let base = warehouse.base_location().unwrap().to_string();

    let good = Location::from_str(&format!("{}/{}/{}", base, namespace_id, table_id)).unwrap();
    assert_eq!(
        warehouse.check_allowed_table_location(&namespace, &good).unwrap(),
        table_id.as_u128()
    );
    let trailing =
        Location::from_str(&format!("{}/{}/{}/", base, namespace_id, table_id)).unwrap();
    assert_eq!(
        warehouse.check_allowed_table_location(&namespace, &trailing).unwrap(),
        table_id.as_u128()
    );
}

#[test]
fn check_allowed_table_location_refuses_other_layouts() {
    let warehouse = warehouse_with(s3_profile("my.bucket", Some("my/subpath")), 11);
    let namespace_id = Uuid::now_v7();
    let other_namespace = Uuid::now_v7();
    let table_id = Uuid::now_v7();
    let namespace = namespace_response(&warehouse, namespace_id.as_u128());
    let base = warehouse.base_location().unwrap().to_string();
    let not_allowed = "Table location is not allowed. Table location cannot be the same as the warehouse location.";
    let bad_layout = "Table location is not allowed. Table location has to be of format '{warehouse_location}/{namespace_id}/{table_id}'.";

    let cases = vec![
        (base.clone(), not_allowed),
        (format!("{}/", base), not_allowed),
        (format!("s3://other.bucket/my/subpath/{}/{}", namespace_id, table_id), not_allowed),
        (format!("{}/{}", base, namespace_id), bad_layout),
        (format!("{}/{}/{}/more", base, namespace_id, table_id), bad_layout),
        (format!("{}/{}/{}", base, other_namespace, table_id), bad_layout),
        (format!("{}/ns-id/{}", base, table_id), bad_layout),
        (format!("{}/{}/tbl-id", base, namespace_id), bad_layout),
    ];
    for (text, message) in cases {
        let location = Location::from_str(&text).unwrap();
        let e = warehouse.check_allowed_table_location(&namespace, &location).unwrap_err();
        assert_eq!(e.kind, ErrorKind::BadRequest, "{}", text);
        assert_eq!(e.code, 400);
        assert_eq!(e.reason, "InvalidTableLocation");
        assert_eq!(e.message, message, "{}", text);
    }
}

#[test]
fn table_id_of_tail_wants_the_namespace_first() {
    let ns = NamespaceIdentUuid(5);
    assert_eq!(table_id_of_tail(ns, Some(5), Some(9)).unwrap(), 9);
    assert!(table_id_of_tail(ns, Some(6), Some(9)).is_err());
    assert!(table_id_of_tail(ns, None, Some(9)).is_err());
    let e = table_id_of_tail(ns, Some(5), None).unwrap_err();
    assert_eq!(e.reason, "InvalidTableLocation");
}

#[test]
fn default_tabular_location_has_two_segments_after_the_base() {
    let warehouse = warehouse_with(s3_profile("my.bucket", Some("my/subpath")), 11);
    let namespace_id = Uuid::now_v7();
    let view_id = Uuid::now_v7();
    let namespace = namespace_response(&warehouse, namespace_id.as_u128());
    let base = warehouse.base_location().unwrap();

    let location = warehouse
        .determine_tabular_location(&namespace, None, TabularIdentUuid::View(view_id.as_u128()))
        .unwrap();
    assert_eq!(
        location.to_string(),
        format!("{}/{}/{}/", base.to_string(), namespace_id, view_id)
    );
    assert!(location.has_trailing_slash());
    assert!(warehouse.is_allowed_location(&location));
    assert!(location.is_sublocation_of(&base));
    assert_eq!(location.segments().len(), base.segments().len() + 2);
    assert_eq!(
        warehouse.check_allowed_table_location(&namespace, &location).unwrap(),
        view_id.as_u128()
    );
}

#[test]
fn requested_tabular_location_is_checked() {
    let warehouse = warehouse_with(s3_profile("my.bucket", None), 11);
    let namespace_id = Uuid::now_v7();
    let namespace = namespace_response(&warehouse, namespace_id.as_u128());
    let base = warehouse.base_location().unwrap().to_string();
    let id = TabularIdentUuid::View(Uuid::now_v7().as_u128());

    let asked = format!("{}/{}/{}", base, namespace_id, Uuid::now_v7());
    let location = warehouse.determine_tabular_location(&namespace, Some(&asked), id).unwrap();
    assert_eq!(location.to_string(), asked);

    let e = warehouse.determine_tabular_location(&namespace, Some("no location"), id).unwrap_err();
    assert_eq!(e.reason, "InvalidLocation");
    let e = warehouse
        .determine_tabular_location(&namespace, Some("s3://elsewhere/a/b"), id)
        .unwrap_err();
    assert_eq!(e.reason, "InvalidTableLocation");
    let e = warehouse
        .determine_tabular_location(&namespace, Some(&format!("{}/a/b", base)), id)
        .unwrap_err();
    assert_eq!(e.reason, "InvalidTableLocation");
    assert_eq!(e.code, 400);
}

#[test]
fn inactive_warehouse_is_refused() {
    assert!(require_active_warehouse(WarehouseStatus::Active).is_ok());
    let e = require_active_warehouse(WarehouseStatus::Inactive).unwrap_err();
    assert_eq!(e.kind, ErrorKind::WarehouseInactive);
    assert_eq!(e.kind.type_str(), "WarehouseInactive");
    assert_eq!(e.reason, "WarehouseNotActive");
}
