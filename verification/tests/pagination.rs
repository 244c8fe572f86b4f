use iceberg_catalog::error::ErrorKind;
use iceberg_catalog::pagination::{
    decode_page_token, encode_page_token, first_after, is_before, page_after, page_size, paginate,
    PaginationQuery,
};
use iceberg_catalog::tabular_idents::TabularIdentUuid;

fn table(id: u128) -> TabularIdentUuid {
    TabularIdentUuid::Table(id)
}

fn view(id: u128) -> TabularIdentUuid {
    TabularIdentUuid::View(id)
}

#[test]
fn identifiers_are_ordered_by_value_then_kind() {
    assert!(is_before(table(1), table(2)));
    assert!(is_before(view(1), table(2)));
    assert!(is_before(table(1), view(1)));
    assert!(!is_before(view(1), table(1)));
    assert!(!is_before(table(1), table(1)));
    assert!(!is_before(table(2), view(1)));
}

#[test]
fn page_size_is_capped() {
    assert_eq!(page_size(Some(10), 100, 1000), 10);
    assert_eq!(page_size(None, 100, 1000), 100);
    assert_eq!(page_size(Some(5000), 100, 1000), 1000);
    assert_eq!(page_size(None, 100, 50), 50);
    assert_eq!(page_size(Some(0), 100, 1000), 0);
}

#[test]
fn pages_are_ascending_and_bounded() {
    let ids = vec![table(5), view(2), table(9), table(1), view(5), table(7)];
    assert_eq!(page_after(&ids, None, 3), vec![table(1), view(2), table(5)]);
    assert_eq!(page_after(&ids, Some(table(5)), 3), vec![view(5), table(7), table(9)]);
    assert_eq!(page_after(&ids, Some(table(9)), 3), vec![]);
    assert_eq!(page_after(&ids, Some(table(7)), 3), vec![table(9)]);
    assert_eq!(page_after(&ids, None, 0), vec![]);
    assert_eq!(page_after(&ids, None, 100).len(), 6);
    assert_eq!(page_after(&vec![], None, 3), vec![]);
    // the cursor need not be in the listing
    assert_eq!(page_after(&ids, Some(table(6)), 1), vec![table(7)]);
    assert_eq!(first_after(&ids, None), Some(table(1)));
    assert_eq!(first_after(&ids, Some(table(9))), None);
}

#[test]
fn page_tokens_round_trip() {
    for id in [table(0), view(0), table(u128::MAX), view(0xa1a2a3a4_b1b2_c1c2_d1d2_d3d4d5d6d7d8)] {
        assert_eq!(decode_page_token(&encode_page_token(id)).unwrap(), id);
    }
    assert_eq!(
        encode_page_token(view(0xa1a2a3a4_b1b2_c1c2_d1d2_d3d4d5d6d7d8)),
        "view.a1a2a3a4-b1b2-c1c2-d1d2-d3d4d5d6d7d8"
    );
    assert_eq!(encode_page_token(table(1)), "table.00000000-0000-0000-0000-000000000001");
}

#[test]
fn bad_page_tokens_are_refused() {
    for token in ["", "table", "table.", "index.00000000-0000-0000-0000-000000000001", ".x", "table.x.y"] {
        let e = decode_page_token(token).unwrap_err();
        assert_eq!((e.code, e.kind), (400, ErrorKind::BadRequest), "{}", token);
        assert_eq!(e.reason, "InvalidPageToken");
    }
}

#[test]
fn a_traversal_sees_every_entry_once_in_order() {
    let ids: Vec<TabularIdentUuid> =
        vec![9, 3, 7, 1, 8, 2, 6, 4, 5, 10].into_iter().map(table).collect();
    let mut seen = Vec::new();
    let mut query = PaginationQuery { page_token: None, page_size: Some(4) };
    let mut pages = 0;
    loop {
        let page = paginate(&ids, &query, 100, 1000).unwrap();
        pages += 1;
        seen.extend(page.ids.iter().copied());
        match page.next_page_token {
            Some(token) => query.page_token = Some(token),
            None => break,
        }
    }
    assert_eq!(seen, (1..=10).map(table).collect::<Vec<_>>());
    assert_eq!(pages, 3);

    // a full last page is followed by an empty one
    let page = paginate(&ids, &PaginationQuery { page_token: None, page_size: Some(10) }, 100, 1000)
        .unwrap();
    assert_eq!(page.ids.len(), 10);
    let token = page.next_page_token.unwrap();
    assert_eq!(token, encode_page_token(table(10)));
    let rest =
        paginate(&ids, &PaginationQuery { page_token: Some(token), page_size: Some(10) }, 100, 1000)
            .unwrap();
    assert!(rest.ids.is_empty());
    assert_eq!(rest.next_page_token, None);
}

#[test]
fn entries_that_come_later_are_seen_from_the_cursor_on() {
    let mut ids: Vec<TabularIdentUuid> = (1..=4).map(table).collect();
    let first = paginate(&ids, &PaginationQuery { page_token: None, page_size: Some(2) }, 2, 2).unwrap();
    assert_eq!(first.ids, vec![table(1), table(2)]);
    ids.push(table(5));
    let second = paginate(
        &ids,
        &PaginationQuery { page_token: first.next_page_token, page_size: None },
        5,
        5,
    )
    .unwrap();
    assert_eq!(second.ids, vec![table(3), table(4), table(5)]);
}

#[test]
fn page_size_of_the_query_is_capped_and_bad_tokens_fail() {
    let ids: Vec<TabularIdentUuid> = (1..=10).map(view).collect();
    let page = paginate(&ids, &PaginationQuery { page_token: None, page_size: Some(50) }, 3, 5).unwrap();
    assert_eq!(page.ids.len(), 5);
    let page = paginate(&ids, &PaginationQuery { page_token: None, page_size: None }, 3, 5).unwrap();
    assert_eq!(page.ids.len(), 3);
    let e = paginate(
        &ids,
        &PaginationQuery { page_token: Some("nonsense".to_string()), page_size: None },
        3,
        5,
    )
    .unwrap_err();
    assert_eq!(e.reason, "InvalidPageToken");
}
