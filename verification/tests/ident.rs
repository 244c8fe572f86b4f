use iceberg_catalog::ident::{
    format_uuid, new_uuid_v7, parse_uuid, NamespaceIdentUuid, ProjectIdent, SecretIdent,
    TableIdentUuid, ViewIdentUuid, WarehouseIdent,
};
use uuid::Uuid;

const SAMPLE: u128 = 0xa1a2a3a4_b1b2_c1c2_d1d2_d3d4d5d6d7d8;
const SAMPLE_TEXT: &str = "a1a2a3a4-b1b2-c1c2-d1d2-d3d4d5d6d7d8";

#[test]
fn format_uuid_is_lower_case_hyphenated() {
    assert_eq!(format_uuid(SAMPLE), SAMPLE_TEXT);
    assert_eq!(format_uuid(0), "00000000-0000-0000-0000-000000000000");
    assert_eq!(format_uuid(u128::MAX), "ffffffff-ffff-ffff-ffff-ffffffffffff");
    assert_eq!(format_uuid(0x1f), "00000000-0000-0000-0000-00000000001f");
}

#[test]
fn format_uuid_agrees_with_the_uuid_crate() {
    let id = Uuid::now_v7();
    assert_eq!(format_uuid(id.as_u128()), id.to_string());
    assert_eq!(format_uuid(id.as_u128()).len(), 36);
    assert!(!format_uuid(id.as_u128()).contains('/'));
}

#[test]
fn parse_uuid_reads_every_form() {
    assert_eq!(parse_uuid(SAMPLE_TEXT), Some(SAMPLE));
    assert_eq!(parse_uuid("A1A2A3A4-B1B2-C1C2-D1D2-D3D4D5D6D7D8"), Some(SAMPLE));
    assert_eq!(parse_uuid("a1a2a3a4b1b2c1c2d1d2d3d4d5d6d7d8"), Some(SAMPLE));
    assert_eq!(parse_uuid("{a1a2a3a4-b1b2-c1c2-d1d2-d3d4d5d6d7d8}"), Some(SAMPLE));
    assert_eq!(parse_uuid("urn:uuid:a1a2a3a4-b1b2-c1c2-d1d2-d3d4d5d6d7d8"), Some(SAMPLE));
}

#[test]
fn parse_uuid_refuses_other_texts() {
    assert_eq!(parse_uuid(""), None);
    assert_eq!(parse_uuid("ns-id"), None);
    assert_eq!(parse_uuid("a1a2a3a4-b1b2-c1c2-d1d2-d3d4d5d6d7d"), None);
    assert_eq!(parse_uuid("g1a2a3a4-b1b2-c1c2-d1d2-d3d4d5d6d7d8"), None);
    assert_eq!(parse_uuid("a1a2a3a4/b1b2/c1c2/d1d2/d3d4d5d6d7d8"), None);
}

#[test]
fn parse_undoes_format() {
    for v in [0u128, 1, SAMPLE, u128::MAX, Uuid::now_v7().as_u128()] {
        assert_eq!(parse_uuid(&format_uuid(v)), Some(v));
    }
}

#[test]
fn new_uuid_v7_is_fresh_and_of_version_seven() {
    let a = new_uuid_v7();
    let b = new_uuid_v7();
    assert_ne!(a, b);
    assert_eq!(Uuid::from_u128(a).get_version_num(), 7);
    assert!(a < b);
}

#[test]
fn identifiers_are_written_and_read_as_uuids() {
    assert_eq!(WarehouseIdent(SAMPLE).to_string(), SAMPLE_TEXT);
    assert_eq!(ProjectIdent(SAMPLE).to_string(), SAMPLE_TEXT);
    assert_eq!(NamespaceIdentUuid(SAMPLE).to_string(), SAMPLE_TEXT);
    assert_eq!(TableIdentUuid(SAMPLE).to_string(), SAMPLE_TEXT);
    assert_eq!(ViewIdentUuid(SAMPLE).to_string(), SAMPLE_TEXT);
    assert_eq!(SecretIdent(SAMPLE).to_string(), SAMPLE_TEXT);

    assert_eq!(WarehouseIdent::from_str(SAMPLE_TEXT), Some(WarehouseIdent(SAMPLE)));
    assert_eq!(ProjectIdent::from_str(SAMPLE_TEXT), Some(ProjectIdent(SAMPLE)));
    assert_eq!(NamespaceIdentUuid::from_str(SAMPLE_TEXT), Some(NamespaceIdentUuid(SAMPLE)));
    assert_eq!(TableIdentUuid::from_str(SAMPLE_TEXT), Some(TableIdentUuid(SAMPLE)));
    assert_eq!(ViewIdentUuid::from_str(SAMPLE_TEXT), Some(ViewIdentUuid(SAMPLE)));
    assert_eq!(SecretIdent::from_str(SAMPLE_TEXT), Some(SecretIdent(SAMPLE)));
    assert_eq!(WarehouseIdent::from_str("my-warehouse"), None);
}

#[test]
fn identifiers_compare_by_value() {
    assert_eq!(TableIdentUuid(3), TableIdentUuid(3));
    assert_ne!(TableIdentUuid(3), TableIdentUuid(4));
    let copy = WarehouseIdent(9);
    assert_eq!(copy, WarehouseIdent(9));
}
