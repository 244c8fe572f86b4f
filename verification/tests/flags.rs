use iceberg_catalog::flags::{DropFlags, ListFlags};

#[test]
fn list_flags_default_shows_active_only() {
    let flags = ListFlags::default();
    assert!(flags.include_active);
    assert!(!flags.include_staged);
    assert!(!flags.include_deleted);
}

#[test]
fn list_flags_all_shows_everything() {
    let flags = ListFlags::all();
    assert_eq!(
        flags,
        ListFlags { include_active: true, include_staged: true, include_deleted: true }
    );
}

#[test]
fn list_flags_only_deleted() {
    let flags = ListFlags::only_deleted();
    assert_eq!(
        flags,
        ListFlags { include_active: false, include_staged: false, include_deleted: true }
    );
}

#[test]
fn drop_flags_builders() {
    let flags = DropFlags::default();
    assert_eq!(flags, DropFlags { hard_delete: false, purge: false });
    assert_eq!(flags.purge(), DropFlags { hard_delete: false, purge: true });
    assert_eq!(flags.hard_delete(), DropFlags { hard_delete: true, purge: false });
    assert_eq!(flags.purge().hard_delete(), DropFlags { hard_delete: true, purge: true });
}
