use iceberg_catalog::catalog::{Metadata, TableCommit};
use iceberg_catalog::error::ErrorKind;
use iceberg_catalog::flags::ListFlags;
use iceberg_catalog::ident::{NamespaceIdentUuid, WarehouseIdent};
use iceberg_catalog::location::Location;
use iceberg_catalog::store::{TabularCommit, TabularStore};
use iceberg_catalog::tabular::TabularStatus;
use iceberg_catalog::tabular_idents::TabularIdentUuid;

const WH: WarehouseIdent = WarehouseIdent(1);
const N1: NamespaceIdentUuid = NamespaceIdentUuid(10);
const N2: NamespaceIdentUuid = NamespaceIdentUuid(20);

fn metadata(uuid: u128, text: &str) -> Metadata {
    Metadata { uuid, document: text.as_bytes().to_vec() }
}

fn storage(id: u128) -> String {
    format!("s3://b/wh/ns/{}/", id)
}

fn file(id: u128, n: u32) -> String {
    format!("s3://b/wh/ns/{}/metadata/{}-{}.metadata.json", id, id, n)
}

fn create_active(
    store: &mut TabularStore,
    id: TabularIdentUuid,
    namespace: NamespaceIdentUuid,
    name: &str,
) -> Result<(), ErrorKind> {
    store
        .create(
            id,
            WH,
            namespace,
            name.to_string(),
            Some(file(id.uuid(), 0)),
            storage(id.uuid()),
            metadata(id.uuid(), "v0"),
            1_000,
        )
        .map_err(|e| e.kind)
}

fn create_staged(
    store: &mut TabularStore,
    id: TabularIdentUuid,
    namespace: NamespaceIdentUuid,
    name: &str,
) -> Result<(), ErrorKind> {
    store
        .create(
            id,
            WH,
            namespace,
            name.to_string(),
            None,
            storage(id.uuid()),
            metadata(id.uuid(), "staged"),
            1_000,
        )
        .map_err(|e| e.kind)
}

fn commit(id: TabularIdentUuid, previous: Option<String>, n: u32) -> TabularCommit {
    TabularCommit {
        tabular_id: id,
        previous_metadata_location: previous,
        commit: TableCommit {
            new_metadata: metadata(id.uuid(), &format!("v{}", n)),
            new_metadata_location: Location::from_str(&file(id.uuid(), n)).unwrap(),
        },
    }
}

fn live_with_name(store: &TabularStore, namespace: NamespaceIdentUuid, table: bool, name: &str) -> usize {
    store
        .list(WH, ListFlags { include_active: true, include_staged: true, include_deleted: false })
        .into_iter()
        .filter(|id| {
            let row = store.get(*id, ListFlags::all()).unwrap();
            row.namespace_id == namespace && row.is_table() == table && row.name == name
        })
        .count()
}

#[test]
fn create_then_get_returns_the_same_metadata() {
    let mut store = TabularStore::new();
    let id = TabularIdentUuid::View(5);
    let bytes: Vec<u8> = vec![0, 1, 2, 255, 254, 10, 13];
    store
        .create(
            id,
            WH,
            N1,
            "v".to_string(),
            Some(file(5, 0)),
            storage(5),
            Metadata { uuid: 5, document: bytes.clone() },
            42,
        )
        .unwrap();
    let row = store.get(id, ListFlags::default()).unwrap();
    assert_eq!(row.metadata.document, bytes);
    assert_eq!(row.metadata.uuid, 5);
    assert_eq!(row.metadata_location, Some(file(5, 0)));
    assert_eq!(row.storage_location, storage(5));
    assert_eq!(row.status, TabularStatus::Active);
    assert_eq!(row.created_at, 42);
    assert_eq!(row.deletion, None);
    assert_eq!(store.len(), 1);
}

#[test]
fn name_is_unique_among_live_tabulars_of_a_kind() {
    let mut store = TabularStore::new();
    assert_eq!(create_active(&mut store, TabularIdentUuid::View(1), N1, "myview"), Ok(()));
    assert_eq!(
        create_active(&mut store, TabularIdentUuid::View(2), N1, "myview"),
        Err(ErrorKind::Conflict)
    );
    assert_eq!(store.len(), 1);
    // another name, another namespace and another kind are all fine
    assert_eq!(create_active(&mut store, TabularIdentUuid::View(3), N1, "some-other-name"), Ok(()));
    assert_eq!(create_active(&mut store, TabularIdentUuid::View(4), N2, "myview"), Ok(()));
    assert_eq!(create_active(&mut store, TabularIdentUuid::Table(5), N1, "myview"), Ok(()));
    // an identifier cannot be used twice
    assert_eq!(
        create_active(&mut store, TabularIdentUuid::View(1), N2, "fresh"),
        Err(ErrorKind::Conflict)
    );
    assert_eq!(live_with_name(&store, N1, false, "myview"), 1);
    assert_eq!(live_with_name(&store, N1, true, "myview"), 1);
    assert_eq!(store.len(), 4);
}

#[test]
fn conflict_is_answered_with_409() {
    let mut store = TabularStore::new();
    let id = TabularIdentUuid::View(1);
    store
        .create(id, WH, N1, "v".to_string(), Some(file(1, 0)), storage(1), metadata(1, "a"), 0)
        .unwrap();
    let e = store
        .create(
            TabularIdentUuid::View(2),
            WH,
            N1,
            "v".to_string(),
            Some(file(2, 0)),
            storage(2),
            metadata(2, "a"),
            0,
        )
        .unwrap_err();
    assert_eq!(e.code, 409);
    assert_eq!(e.kind, ErrorKind::Conflict);
    assert_eq!(e.reason, "TabularConflict");
}

#[test]
fn rename_preserves_id_and_locations() {
    let mut store = TabularStore::new();
    let id = TabularIdentUuid::Table(1);
    create_active(&mut store, id, N1, "old").unwrap();
    store.rename(id, N2, "new".to_string()).unwrap();
    let row = store.get(id, ListFlags::default()).unwrap();
    assert_eq!(row.tabular_id, id);
    assert_eq!(row.namespace_id, N2);
    assert_eq!(row.name, "new");
    assert_eq!(row.storage_location, storage(1));
    assert_eq!(row.metadata_location, Some(file(1, 0)));
    assert_eq!(row.metadata.document, b"v0".to_vec());
    assert_eq!(row.status, TabularStatus::Active);
}

#[test]
fn rename_across_namespace_frees_the_old_name() {
    let mut store = TabularStore::new();
    let v = TabularIdentUuid::View(1);
    create_active(&mut store, v, N1, "v").unwrap();
    store.rename(v, N2, "v".to_string()).unwrap();
    assert_eq!(create_active(&mut store, TabularIdentUuid::View(2), N1, "v"), Ok(()));
    assert_eq!(store.get(v, ListFlags::default()).unwrap().namespace_id, N2);
}

#[test]
fn rename_fails_for_a_taken_or_missing_name() {
    let mut store = TabularStore::new();
    let a = TabularIdentUuid::Table(1);
    let b = TabularIdentUuid::Table(2);
    create_active(&mut store, a, N1, "a").unwrap();
    create_active(&mut store, b, N1, "b").unwrap();
    let e = store.rename(a, N1, "b".to_string()).unwrap_err();
    assert_eq!(e.kind, ErrorKind::Conflict);
    let e = store.rename(a, N1, "a".to_string()).unwrap_err();
    assert_eq!(e.kind, ErrorKind::Conflict);
    let e = store.rename(TabularIdentUuid::Table(3), N1, "c".to_string()).unwrap_err();
    assert_eq!(e.kind, ErrorKind::NotFound);
    assert_eq!(e.code, 404);
    assert_eq!(e.reason, "TabularNotFound");
    assert_eq!(store.get(a, ListFlags::default()).unwrap().name, "a");
}

#[test]
fn soft_drop_then_create_same_name_gets_a_new_id() {
    let mut store = TabularStore::new();
    let old = TabularIdentUuid::Table(1);
    create_active(&mut store, old, N1, "t").unwrap();
    store.mark_tabular_as_deleted(old, 99, 5_000_000, 60).unwrap();

    let row = store.get(old, ListFlags::only_deleted()).unwrap();
    assert_eq!(row.status, TabularStatus::SoftDeleted);
    assert_eq!(row.storage_location, storage(1));
    assert_eq!(row.metadata_location, Some(file(1, 0)));
    let details = row.deletion.unwrap();
    assert_eq!(details.expiration_task_id, 99);
    assert_eq!(details.deleted_at, 5_000_000);
    assert_eq!(details.expiration_date, 65_000_000);
    assert_eq!(details.created_at, 1_000);
    assert!(store.get(old, ListFlags::default()).is_none());

    // the old identifier cannot be used again, a new one can
    assert_eq!(create_active(&mut store, old, N1, "t"), Err(ErrorKind::Conflict));
    let new = TabularIdentUuid::Table(2);
    assert_eq!(create_active(&mut store, new, N1, "t"), Ok(()));
    assert_ne!(new, old);
    assert_eq!(
        store.tabular_ident_to_id(WH, N1, true, &"t".to_string(), ListFlags::default()),
        Some(new)
    );
    assert_eq!(
        store.tabular_ident_to_id(WH, N1, true, &"t".to_string(), ListFlags::only_deleted()),
        Some(old)
    );
}

#[test]
fn soft_drop_fails_where_the_expiration_cannot_be_written() {
    let mut store = TabularStore::new();
    let id = TabularIdentUuid::Table(1);
    create_active(&mut store, id, N1, "t").unwrap();
    let e = store.mark_tabular_as_deleted(id, 1, i64::MAX, 1).unwrap_err();
    assert_eq!(e.kind, ErrorKind::Internal);
    assert_eq!(e.reason, "ExpirationOutOfRange");
    let e = store.mark_tabular_as_deleted(id, 1, 0, u64::MAX).unwrap_err();
    assert_eq!(e.kind, ErrorKind::Internal);
    assert_eq!(store.get(id, ListFlags::default()).unwrap().status, TabularStatus::Active);
    store.mark_tabular_as_deleted(id, 1, i64::MAX - 2_000_000, 2).unwrap();
    let row = store.get(id, ListFlags::only_deleted()).unwrap();
    assert_eq!(row.deletion.unwrap().expiration_date, i64::MAX);
    let e = store.mark_tabular_as_deleted(id, 1, 0, 1).unwrap_err();
    assert_eq!(e.kind, ErrorKind::NotFound);
}

#[test]
fn hard_drop_removes_the_row_and_returns_the_location() {
    let mut store = TabularStore::new();
    let a = TabularIdentUuid::Table(1);
    let b = TabularIdentUuid::View(2);
    create_active(&mut store, a, N1, "a").unwrap();
    create_staged(&mut store, b, N1, "b").unwrap();
    assert_eq!(store.drop_tabular(a).unwrap(), storage(1));
    assert!(store.get(a, ListFlags::all()).is_none());
    assert_eq!(store.drop_tabular(b).unwrap(), storage(2));
    assert_eq!(store.len(), 0);
    assert_eq!(store.drop_tabular(a).unwrap_err().kind, ErrorKind::NotFound);
    // nothing leaves the expired state: the row is gone for every operation
    assert_eq!(store.rename(a, N1, "x".to_string()).unwrap_err().kind, ErrorKind::NotFound);
    assert_eq!(store.commit_tabular(commit(a, Some(file(1, 0)), 1)).unwrap_err().kind, ErrorKind::NotFound);
    assert_eq!(store.mark_tabular_as_deleted(a, 1, 0, 0).unwrap_err().kind, ErrorKind::NotFound);
    assert_eq!(store.expire(a).unwrap_err().kind, ErrorKind::NotFound);
}

#[test]
fn expiration_removes_soft_deleted_rows_only() {
    let mut store = TabularStore::new();
    let id = TabularIdentUuid::Table(1);
    create_active(&mut store, id, N1, "t").unwrap();
    assert_eq!(store.expire(id).unwrap_err().kind, ErrorKind::NotFound);
    store.mark_tabular_as_deleted(id, 1, 0, 10).unwrap();
    assert_eq!(store.drop_tabular(id).unwrap_err().kind, ErrorKind::NotFound);
    store.expire(id).unwrap();
    assert!(store.get(id, ListFlags::all()).is_none());
    assert_eq!(store.len(), 0);
}

#[test]
fn staged_create_then_commit() {
    let mut store = TabularStore::new();
    let id = TabularIdentUuid::Table(1);
    create_staged(&mut store, id, N1, "t").unwrap();
    let row = store.get(id, ListFlags::all()).unwrap();
    assert_eq!(row.status, TabularStatus::Staged);
    assert_eq!(row.metadata_location, None);
    assert!(store.get(id, ListFlags::default()).is_none());

    store.commit_tabular(commit(id, None, 1)).unwrap();
    let row = store.get(id, ListFlags::default()).unwrap();
    assert_eq!(row.status, TabularStatus::Active);
    assert_eq!(row.metadata_location, Some(file(1, 1)));
    assert_eq!(row.metadata.document, b"v1".to_vec());

    store.commit_tabular(commit(id, Some(file(1, 1)), 2)).unwrap();
    let row = store.get(id, ListFlags::default()).unwrap();
    assert_eq!(row.status, TabularStatus::Active);
    assert_eq!(row.metadata_location, Some(file(1, 2)));
}

#[test]
fn commit_with_stale_previous_location_conflicts() {
    let mut store = TabularStore::new();
    let id = TabularIdentUuid::Table(1);
    create_active(&mut store, id, N1, "t").unwrap();
    for stale in [None, Some(file(1, 7)), Some("".to_string())] {
        let e = store.commit_tabular(commit(id, stale, 1)).unwrap_err();
        assert_eq!(e.kind, ErrorKind::Conflict);
        assert_eq!(e.code, 409);
    }
    assert_eq!(store.get(id, ListFlags::default()).unwrap().metadata_location, Some(file(1, 0)));
}

#[test]
fn of_two_commits_from_the_same_state_one_wins() {
    let mut store = TabularStore::new();
    let id = TabularIdentUuid::Table(1);
    create_active(&mut store, id, N1, "t").unwrap();
    let previous = Some(file(1, 0));
    assert!(store.commit_tabular(commit(id, previous.clone(), 1)).is_ok());
    let e = store.commit_tabular(commit(id, previous, 2)).unwrap_err();
    assert_eq!(e.code, 409);
    let row = store.get(id, ListFlags::default()).unwrap();
    assert_eq!(row.metadata_location, Some(file(1, 1)));
    assert_eq!(row.metadata.document, b"v1".to_vec());
}

#[test]
fn a_batch_commits_all_or_nothing() {
    let mut store = TabularStore::new();
    let a = TabularIdentUuid::Table(1);
    let b = TabularIdentUuid::Table(2);
    create_active(&mut store, a, N1, "a").unwrap();
    create_active(&mut store, b, N1, "b").unwrap();

    let e = store
        .commit_table_transaction(vec![
            commit(a, Some(file(1, 0)), 1),
            commit(b, Some(file(2, 9)), 1),
        ])
        .unwrap_err();
    assert_eq!(e.kind, ErrorKind::Conflict);
    assert_eq!(store.get(a, ListFlags::default()).unwrap().metadata_location, Some(file(1, 0)));
    assert_eq!(store.get(b, ListFlags::default()).unwrap().metadata_location, Some(file(2, 0)));

    let e = store
        .commit_table_transaction(vec![
            commit(a, Some(file(1, 0)), 1),
            commit(TabularIdentUuid::Table(3), None, 1),
        ])
        .unwrap_err();
    assert_eq!(e.kind, ErrorKind::NotFound);
    assert_eq!(store.get(a, ListFlags::default()).unwrap().metadata_location, Some(file(1, 0)));

    store
        .commit_table_transaction(vec![
            commit(a, Some(file(1, 0)), 1),
            commit(b, Some(file(2, 0)), 1),
            commit(a, Some(file(1, 1)), 2),
        ])
        .unwrap();
    assert_eq!(store.get(a, ListFlags::default()).unwrap().metadata_location, Some(file(1, 2)));
    assert_eq!(store.get(b, ListFlags::default()).unwrap().metadata_location, Some(file(2, 1)));
    store.commit_table_transaction(vec![]).unwrap();
}

#[test]
fn listing_all_is_the_disjoint_union_of_the_single_listings() {
    let mut store = TabularStore::new();
    for i in 1..=3u128 {
        create_active(&mut store, TabularIdentUuid::Table(i), N1, &format!("a{}", i)).unwrap();
    }
    for i in 4..=5u128 {
        create_staged(&mut store, TabularIdentUuid::Table(i), N1, &format!("s{}", i)).unwrap();
    }
    for i in 6..=9u128 {
        let id = TabularIdentUuid::View(i);
        create_active(&mut store, id, N2, &format!("d{}", i)).unwrap();
        store.mark_tabular_as_deleted(id, i, 0, 1).unwrap();
    }
    store
        .create(
            TabularIdentUuid::Table(100),
            WarehouseIdent(2),
            N1,
            "elsewhere".to_string(),
            None,
            storage(100),
            metadata(100, ""),
            0,
        )
        .unwrap();

    let active = store.list(WH, ListFlags::default());
    let staged = store.list(
        WH,
        ListFlags { include_active: false, include_staged: true, include_deleted: false },
    );
    let deleted = store.list(WH, ListFlags::only_deleted());
    let all = store.list(WH, ListFlags::all());

    assert_eq!(active, (1..=3).map(TabularIdentUuid::Table).collect::<Vec<_>>());
    assert_eq!(staged, (4..=5).map(TabularIdentUuid::Table).collect::<Vec<_>>());
    assert_eq!(deleted, (6..=9).map(TabularIdentUuid::View).collect::<Vec<_>>());
    assert_eq!(all.len(), active.len() + staged.len() + deleted.len());
    for id in &all {
        let n = [&active, &staged, &deleted].iter().filter(|l| l.contains(id)).count();
        assert_eq!(n, 1);
    }
    for id in active.iter().chain(staged.iter()).chain(deleted.iter()) {
        assert!(all.contains(id));
    }
    let none = ListFlags { include_active: false, include_staged: false, include_deleted: false };
    assert!(store.list(WH, none).is_empty());
    assert_eq!(store.list(WarehouseIdent(2), ListFlags::all()), vec![TabularIdentUuid::Table(100)]);
}

#[test]
fn duplicate_store_is_independent() {
    let mut store = TabularStore::new();
    let id = TabularIdentUuid::Table(1);
    create_active(&mut store, id, N1, "t").unwrap();
    let copy = store.duplicate();
    store.drop_tabular(id).unwrap();
    assert_eq!(copy.len(), 1);
    assert_eq!(copy.get(id, ListFlags::default()).unwrap().name, "t");
    assert_eq!(store.len(), 0);
}
