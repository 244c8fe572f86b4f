use iceberg_catalog::error::ErrorKind;
use iceberg_catalog::ident::{TableIdentUuid, ViewIdentUuid};
use iceberg_catalog::names::{NamespaceIdent, TableIdent};
use iceberg_catalog::tabular_idents::{TabularIdentBorrowed, TabularIdentOwned, TabularIdentUuid};

const SAMPLE: u128 = 0xa1a2a3a4_b1b2_c1c2_d1d2_d3d4d5d6d7d8;
const SAMPLE_TEXT: &str = "a1a2a3a4-b1b2-c1c2-d1d2-d3d4d5d6d7d8";

fn ident(name: &str) -> TableIdent {
    TableIdent::new(NamespaceIdent::new("ns".to_string()), name.to_string())
}

#[test]
fn typ_str_names_the_kind() {
    assert_eq!(TabularIdentUuid::Table(1).typ_str(), "Table");
    assert_eq!(TabularIdentUuid::View(1).typ_str(), "View");
    let t = ident("t");
    assert_eq!(TabularIdentBorrowed::Table(&t).typ_str(), "Table");
    assert_eq!(TabularIdentBorrowed::View(&t).typ_str(), "View");
}

#[test]
fn tabular_ident_from_table_and_view_idents() {
    assert_eq!(TabularIdentUuid::from(TableIdentUuid(4)), TabularIdentUuid::Table(4));
    assert_eq!(TabularIdentUuid::from(ViewIdentUuid(4)), TabularIdentUuid::View(4));
    let into: TabularIdentUuid = TableIdentUuid(5).into();
    assert_eq!(into, TabularIdentUuid::Table(5));
}

#[test]
fn uuid_and_text_do_not_depend_on_the_tag() {
    assert_eq!(TabularIdentUuid::Table(SAMPLE).uuid(), SAMPLE);
    assert_eq!(TabularIdentUuid::View(SAMPLE).uuid(), SAMPLE);
    assert_eq!(TabularIdentUuid::Table(SAMPLE).to_string(), SAMPLE_TEXT);
    assert_eq!(TabularIdentUuid::View(SAMPLE).to_string(), SAMPLE_TEXT);
}

#[test]
fn tabular_ident_round_trips_through_tag_and_uuid() {
    for id in [
        TabularIdentUuid::Table(SAMPLE),
        TabularIdentUuid::View(SAMPLE),
        TabularIdentUuid::Table(0),
        TabularIdentUuid::View(u128::MAX),
    ] {
        let (tag, text) = id.to_tagged();
        assert_eq!(TabularIdentUuid::from_tagged(tag, &text), Some(id));
    }
    assert_eq!(TabularIdentUuid::Table(SAMPLE).to_tagged(), ("table", SAMPLE_TEXT.to_string()));
    assert_eq!(TabularIdentUuid::View(SAMPLE).to_tagged(), ("view", SAMPLE_TEXT.to_string()));
}

#[test]
fn from_tagged_refuses_unknown_tags_and_bad_ids() {
    assert_eq!(TabularIdentUuid::from_tagged("Table", SAMPLE_TEXT), None);
    assert_eq!(TabularIdentUuid::from_tagged("index", SAMPLE_TEXT), None);
    assert_eq!(TabularIdentUuid::from_tagged("table", "tbl-id"), None);
    assert_eq!(TabularIdentUuid::with_tag("view", None), None);
    assert_eq!(TabularIdentUuid::with_tag("view", Some(3)), Some(TabularIdentUuid::View(3)));
}

#[test]
fn the_tag_tells_identifiers_apart() {
    assert_ne!(TabularIdentUuid::Table(SAMPLE), TabularIdentUuid::View(SAMPLE));
    assert_eq!(TabularIdentUuid::Table(SAMPLE), TabularIdentUuid::Table(SAMPLE));
    assert_ne!(TabularIdentUuid::Table(1), TabularIdentUuid::Table(2));
    assert!(TabularIdentUuid::Table(1) < TabularIdentUuid::Table(2));
}

#[test]
fn owned_ident_hands_out_its_name() {
    let table = TabularIdentOwned::Table(ident("t"));
    let view = TabularIdentOwned::View(ident("v"));

    assert_eq!(table.as_table().unwrap().name, "t");
    assert_eq!(view.as_view().unwrap().name, "v");

    let e = view.as_table().unwrap_err();
    assert_eq!(e.kind, ErrorKind::Internal);
    assert_eq!(e.code, 500);
    assert_eq!(e.reason, "UnexpectedViewIdentifier");
    assert_eq!(e.message, "Expected a table identifier, but got a view identifier");

    let e = table.as_view().unwrap_err();
    assert_eq!(e.kind, ErrorKind::Internal);
    assert_eq!(e.reason, "UnexpectedTableIdentifier");
    assert_eq!(e.message, "Expected a view identifier, but got a table identifier");

    assert_eq!(table.into_inner().name, "t");
    assert_eq!(view.into_inner().name, "v");
}

#[test]
fn borrowed_ident_becomes_owned_under_the_same_tag() {
    let t = ident("t");
    let owned = TabularIdentOwned::from(TabularIdentBorrowed::Table(&t));
    assert!(matches!(owned, TabularIdentOwned::Table(_)));
    assert!(owned.as_table().unwrap().same_as(&t));
    let owned = TabularIdentOwned::from(TabularIdentBorrowed::View(&t));
    assert!(matches!(owned, TabularIdentOwned::View(_)));
    assert!(TabularIdentBorrowed::View(&t).to_table_ident_tuple().same_as(&t));
}
