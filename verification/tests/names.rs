use iceberg_catalog::error::{ErrorKind, ErrorModel};
use iceberg_catalog::names::{validate_table_or_view_ident, NamespaceIdent, TableIdent};

#[test]
fn namespace_has_at_least_one_level() {
    let ns = NamespaceIdent::new("a".to_string());
    assert_eq!(ns.levels(), &vec!["a".to_string()]);
    let ns = NamespaceIdent::from_vec(vec!["a".to_string(), "b".to_string()]).unwrap();
    assert_eq!(ns.levels().len(), 2);
    let e = NamespaceIdent::from_vec(vec![]).unwrap_err();
    assert_eq!(e.kind, ErrorKind::BadRequest);
    assert_eq!(e.reason, "NamespaceEmpty");
}

#[test]
fn url_form_joins_levels_with_the_unit_separator() {
    let ns = NamespaceIdent::from_vec(vec!["a".to_string(), "b".to_string(), "c".to_string()])
        .unwrap();
    assert_eq!(ns.to_url_string(), "a\u{1f}b\u{1f}c");
    assert_eq!(NamespaceIdent::new("solo".to_string()).to_url_string(), "solo");
}

#[test]
fn idents_compare_by_namespace_and_name() {
    let ns = NamespaceIdent::from_vec(vec!["a".to_string(), "b".to_string()]).unwrap();
    let t = TableIdent::new(ns.duplicate(), "t".to_string());
    assert!(t.same_as(&t.duplicate()));
    assert!(!t.same_as(&TableIdent::new(ns.duplicate(), "u".to_string())));
    assert!(!t.same_as(&TableIdent::new(NamespaceIdent::new("a".to_string()), "t".to_string())));
    assert!(ns.same_as(&ns.duplicate()));
    assert!(!ns.same_as(&NamespaceIdent::new("a".to_string())));
}

#[test]
fn ident_validation() {
    let ns = NamespaceIdent::new("ns".to_string());
    assert!(validate_table_or_view_ident(&TableIdent::new(ns.duplicate(), "t".to_string())).is_ok());
    for (levels, name) in [
        (vec!["ns"], ""),
        (vec!["ns"], "a\u{1f}b"),
        (vec![""], "t"),
        (vec!["a", "b\u{1f}c"], "t"),
    ] {
        let ns = NamespaceIdent::from_vec(levels.iter().map(|s| s.to_string()).collect()).unwrap();
        let e: ErrorModel =
            validate_table_or_view_ident(&TableIdent::new(ns, name.to_string())).unwrap_err();
        assert_eq!(e.kind, ErrorKind::BadRequest);
        assert_eq!(e.code, 400);
        assert_eq!(e.reason, "InvalidIdentifier");
    }
}

#[test]
fn error_kinds_have_status_and_name() {
    let cases = [
        (ErrorKind::BadRequest, 400, "BadRequest"),
        (ErrorKind::Unauthenticated, 401, "Unauthenticated"),
        (ErrorKind::Forbidden, 403, "Forbidden"),
        (ErrorKind::NotFound, 404, "NotFound"),
        (ErrorKind::WarehouseInactive, 404, "WarehouseInactive"),
        (ErrorKind::Conflict, 409, "Conflict"),
        (ErrorKind::StorageError, 500, "StorageError"),
        (ErrorKind::SecretError, 500, "SecretError"),
        (ErrorKind::Internal, 500, "Internal"),
    ];
    for (kind, code, name) in cases {
        assert_eq!(kind.code(), code);
        assert_eq!(kind.type_str(), name);
        let e = ErrorModel::new(kind, "message", "Reason");
        assert_eq!(e.kind, kind);
        assert_eq!(e.code, code);
        assert_eq!(e.message, "message");
        assert_eq!(e.reason, "Reason");
        let copy = e.duplicate();
        assert_eq!(copy.code, code);
        assert_eq!(copy.message, "message");
    }
    assert_eq!(ErrorModel::bad_request("m", "r").code, 400);
    assert_eq!(ErrorModel::not_found("m", "r").code, 404);
    assert_eq!(ErrorModel::conflict("m", "r").code, 409);
    assert_eq!(ErrorModel::internal("m", "r").code, 500);
}
