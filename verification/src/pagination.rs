//! Pages of a listing: in ascending order of the identifiers, bounded by a
//! page size, continued by a token that names the last identifier of the page
//! before.

use crate::error::{error_of, ErrorKind, ErrorModel, ErrorModelView};
use crate::ident::{hyphenated_text, parsed_uuid};
use crate::tabular_idents::{tagged_ident, TabularIdentUuid};
use crate::text::chars_of;
use vstd::prelude::*;
use vstd::string::*;

verus! {

/// The order of identifiers: by their value, and a table before a view of
/// the same value.
pub open spec fn comes_before(a: TabularIdentUuid, b: TabularIdentUuid) -> bool {
    a.spec_uuid() < b.spec_uuid() || (a.spec_uuid() == b.spec_uuid() && a is Table && b is View)
}

/// Whether an identifier comes after the cursor; every identifier does where
/// there is none.
pub open spec fn is_after(cursor: Option<TabularIdentUuid>, id: TabularIdentUuid) -> bool {
    cursor matches Some(c) ==> comes_before(c, id)
}

/// Whether `page` is the page of `limit` entries at most that follows the
/// cursor: the least identifiers of the listing after the cursor, in
/// ascending order.
pub open spec fn is_page(
    ids: Seq<TabularIdentUuid>,
    after: Option<TabularIdentUuid>,
    limit: nat,
    page: Seq<TabularIdentUuid>,
) -> bool {
    &&& page.len() <= limit
    &&& forall|i: int, j: int|
        0 <= i < j < page.len() ==> comes_before(#[trigger] page[i], #[trigger] page[j])
    &&& forall|i: int|
        0 <= i < page.len() ==> ids.contains(#[trigger] page[i]) && is_after(after, page[i])
    &&& forall|k: int|
        0 <= k < ids.len() && is_after(after, #[trigger] ids[k]) ==> page.contains(ids[k]) || (
        page.len() == limit && (limit == 0 || comes_before(page.last(), ids[k])))
}

/// The page size that is served: the one asked for, the default where none
/// is asked for, and never more than the server allows.
pub open spec fn served_page_size(asked: Option<usize>, default_size: usize, max_size: usize) -> usize {
    let wanted = match asked {
        Some(n) => n,
        None => default_size,
    };
    if wanted <= max_size {
        wanted
    } else {
        max_size
    }
}

/// The text of a page token: the tag of the identifier, a dot, and the text
/// of its value.
pub open spec fn token_text(id: TabularIdentUuid) -> Seq<char> {
    id.spec_tag() + seq!['.'] + hyphenated_text(id.spec_uuid())
}

/// The index of the first dot of `s`, or the length of `s` where it holds
/// none.
pub open spec fn first_dot(s: Seq<char>) -> int
    decreases s.len(),
{
    if s.len() == 0 || s[0] == '.' {
        0
    } else {
        1 + first_dot(s.drop_first())
    }
}

/// The identifier that a page token names: what stands before its first
/// dot is the tag, what stands after it the value.
pub open spec fn token_ident(token: Seq<char>) -> Option<TabularIdentUuid> {
    let n = first_dot(token);
    if 0 <= n < token.len() {
        tagged_ident(token.take(n), parsed_uuid(token.skip(n + 1)))
    } else {
        None
    }
}

/// The error for a page token that names no identifier.
pub open spec fn invalid_page_token() -> ErrorModelView {
    error_of(ErrorKind::BadRequest, "Page token is not valid."@, "InvalidPageToken"@)
}

/// What a listing is asked for: the page after the one that ended with the
/// token, of the given size.
#[derive(Debug, Clone)]
pub struct PaginationQuery {
    pub page_token: Option<String>,
    pub page_size: Option<usize>,
}

/// A page of a listing, and the token for the page after it where there may
/// be one.
#[derive(Debug, Clone)]
pub struct Page {
    pub ids: Vec<TabularIdentUuid>,
    pub next_page_token: Option<String>,
}

/// Whether `a` comes before `b`.
pub fn is_before(a: TabularIdentUuid, b: TabularIdentUuid) -> (before: bool)
    ensures
        before == comes_before(a, b),
{
    let x = a.uuid();
    let y = b.uuid();
    if x < y {
        true
    } else if x > y {
        false
    } else {
        match (a, b) {
            (TabularIdentUuid::Table(_), TabularIdentUuid::View(_)) => true,
            _ => false,
        }
    }
}

/// The order of identifiers is a strict total order.
pub proof fn lemma_order(a: TabularIdentUuid, b: TabularIdentUuid, c: TabularIdentUuid)
    ensures
        !comes_before(a, a),
        a == b || comes_before(a, b) || comes_before(b, a),
        comes_before(a, b) && comes_before(b, c) ==> comes_before(a, c),
        !(comes_before(a, b) && comes_before(b, a)),
{
}

/// The page size that is served.
pub fn page_size(asked: Option<usize>, default_size: usize, max_size: usize) -> (size: usize)
    ensures
        size == served_page_size(asked, default_size, max_size),
{
    let wanted = match asked {
        Some(n) => n,
        None => default_size,
    };
    if wanted <= max_size {
        wanted
    } else {
        max_size
    }
}

/// The least identifier of the listing that comes after the cursor.
pub fn first_after(ids: &Vec<TabularIdentUuid>, cursor: Option<TabularIdentUuid>) -> (first: Option<
    TabularIdentUuid,
>)
    ensures
        first is None ==> forall|k: int| 0 <= k < ids.len() ==> !is_after(cursor, #[trigger] ids[k]),
        first matches Some(f) ==> ids@.contains(f) && is_after(cursor, f) && forall|k: int|
            0 <= k < ids.len() && is_after(cursor, #[trigger] ids[k]) ==> ids[k] == f
                || comes_before(f, ids[k]),
{
    let mut first: Option<TabularIdentUuid> = None;
    let mut i: usize = 0;
    while i < ids.len()
        invariant
            i <= ids.len(),
            first is None ==> forall|k: int| 0 <= k < i ==> !is_after(cursor, #[trigger] ids[k]),
            first matches Some(f) ==> ids@.contains(f) && is_after(cursor, f) && forall|k: int|
                0 <= k < i && is_after(cursor, #[trigger] ids[k]) ==> ids[k] == f || comes_before(
                    f,
                    ids[k],
                ),
        decreases ids.len() - i,
    {
        let id = ids[i];
        let follows = match cursor {
            Some(c) => is_before(c, id),
            None => true,
        };
        if follows {
            let better = match first {
                Some(f) => is_before(id, f),
                None => true,
            };
            if better {
                proof {
                    assert(ids@[i as int] == id);
                    assert forall|k: int|
                        0 <= k < i + 1 && is_after(cursor, #[trigger] ids[k]) implies ids[k] == id
                        || comes_before(id, ids[k]) by {
                        if k < i && first is Some {
                            lemma_order(id, first->0, ids[k]);
                        }
                    }
                }
                first = Some(id);
            } else {
                proof {
                    lemma_order(first->0, id, id);
                }
            }
        }
        i += 1;
    }
    first
}

/// The page of `limit` entries at most that follows the cursor.
pub fn page_after(ids: &Vec<TabularIdentUuid>, after: Option<TabularIdentUuid>, limit: usize) -> (page: Vec<
    TabularIdentUuid,
>)
    ensures
        is_page(ids@, after, limit as nat, page@),
{
    let mut page: Vec<TabularIdentUuid> = Vec::new();
    let mut cursor = after;
    let mut done = false;
    while page.len() < limit && !done
        invariant
            page.len() <= limit,
            cursor == (if page.len() == 0 {
                after
            } else {
                Some(page@.last())
            }),
            forall|i: int, j: int|
                0 <= i < j < page.len() ==> comes_before(#[trigger] page[i], #[trigger] page[j]),
            forall|i: int|
                0 <= i < page.len() ==> ids@.contains(#[trigger] page[i]) && is_after(
                    after,
                    page[i],
                ),
            forall|k: int|
                0 <= k < ids.len() && is_after(after, #[trigger] ids[k]) ==> page@.contains(ids[k])
                    || is_after(cursor, ids[k]),
            done ==> forall|k: int|
                0 <= k < ids.len() ==> !is_after(cursor, #[trigger] ids[k]),
        decreases (if done {
            0int
        } else {
            1int
        }) + limit - page.len(),
    {
        match first_after(ids, cursor) {
            None => {
                done = true;
            },
            Some(next) => {
                let ghost before = page@;
                page.push(next);
                proof {
                    assert forall|i: int, j: int| 0 <= i < j < page.len() implies comes_before(
                        #[trigger] page[i],
                        #[trigger] page[j],
                    ) by {
                        if j == before.len() && i < before.len() - 1 {
                            lemma_order(before[i], before.last(), next);
                        }
                    }
                    assert forall|i: int| 0 <= i < page.len() implies ids@.contains(
                        #[trigger] page[i],
                    ) && is_after(after, page[i]) by {
                        if i == before.len() && before.len() > 0 && after is Some {
                            lemma_order(after->0, before.last(), next);
                        }
                    }
                    assert forall|k: int|
                        0 <= k < ids.len() && is_after(after, #[trigger] ids[k]) implies page@.contains(
                        ids[k],
                    ) || is_after(Some(next), ids[k]) by {
                        if before.contains(ids[k]) {
                            let n = choose|n: int| 0 <= n < before.len() && before[n] == ids[k];
                            assert(page@[n] == ids[k]);
                        } else if ids[k] == next {
                            assert(page@[before.len() as int] == next);
                        }
                    }
                }
                cursor = Some(next);
            },
        }
    }
    page
}

/// Reads a page token.
pub fn decode_page_token(token: &str) -> (r: Result<TabularIdentUuid, ErrorModel>)
    ensures
        match token_ident(token@) {
            Some(id) => r is Ok && r->Ok_0 == id,
            None => r is Err && r->Err_0@ == invalid_page_token(),
        },
        forall|id: TabularIdentUuid| token@ == #[trigger] token_text(id) ==> r is Ok && r->Ok_0 == id,
{
    let chars = chars_of(token);
    let mut n: usize = 0;
    while n < chars.len() && chars[n] != '.'
        invariant
            chars@ == token@,
            n <= chars.len(),
            forall|j: int| 0 <= j < n ==> token@[j] != '.',
        decreases chars.len() - n,
    {
        n += 1;
    }
    proof {
        lemma_first_dot(token@, n as int);
        assert forall|id: TabularIdentUuid| token@ == #[trigger] token_text(id) implies n
            < chars.len() by {
            lemma_token_shape(id);
        }
    }
    if n >= chars.len() {
        return Err(ErrorModel::bad_request("Page token is not valid.", "InvalidPageToken"));
    }
    let tag = token.substring_char(0, n);
    let value = token.substring_char(n + 1, chars.len());
    let found = TabularIdentUuid::from_tagged(tag, value);
    proof {
        assert forall|id: TabularIdentUuid| token@ == #[trigger] token_text(id) implies found
            == Some(id) by {
            lemma_token_shape(id);
        }
    }
    match found {
        Some(id) => Ok(id),
        None => Err(ErrorModel::bad_request("Page token is not valid.", "InvalidPageToken")),
    }
}

/// Writes the page token that names an identifier.
pub fn encode_page_token(id: TabularIdentUuid) -> (token: String)
    ensures
        token@ == token_text(id),
{
    let (tag, value) = id.to_tagged();
    let mut token = tag.to_owned();
    proof {
        reveal_strlit(".");
        assert("."@ =~= seq!['.']);
    }
    token.append(".");
    token.append(value.as_str());
    token
}

/// `first_dot(s)` is the one index `n` with no dot before it and with a dot
/// or the end of `s` at it.
pub proof fn lemma_first_dot(s: Seq<char>, n: int)
    requires
        0 <= n <= s.len(),
        forall|i: int| 0 <= i < n ==> s[i] != '.',
        n < s.len() ==> s[n] == '.',
    ensures
        first_dot(s) == n,
    decreases s.len(),
{
    if n > 0 {
        lemma_first_dot(s.drop_first(), n - 1);
    }
}

/// The token of an identifier falls apart at its first dot into the tag and
/// the text of the value.
pub proof fn lemma_token_shape(id: TabularIdentUuid)
    ensures
        first_dot(token_text(id)) == id.spec_tag().len(),
        first_dot(token_text(id)) < token_text(id).len(),
        token_text(id).take(first_dot(token_text(id))) == id.spec_tag(),
        token_text(id).skip(first_dot(token_text(id)) + 1) == hyphenated_text(id.spec_uuid()),
{
    reveal_strlit("table");
    reveal_strlit("view");
    let tag = id.spec_tag();
    let text = token_text(id);
    assert forall|i: int| 0 <= i < tag.len() implies text[i] != '.' by {
        assert(text[i] == tag[i]);
    }
    assert(text[tag.len() as int] == '.');
    lemma_first_dot(text, tag.len() as int);
    assert(text.take(tag.len() as int) =~= tag);
    assert(text.skip(tag.len() as int + 1) =~= hyphenated_text(id.spec_uuid()));
}

/// A page of a listing, as the query asks for it. The token of the query, if
/// it has one, has to name an identifier. The page is followed by a token
/// where it is full.
pub fn paginate(
    ids: &Vec<TabularIdentUuid>,
    query: &PaginationQuery,
    default_size: usize,
    max_size: usize,
) -> (r: Result<Page, ErrorModel>)
    ensures
        match query.page_token {
            Some(token) => match token_ident(token@) {
                Some(cursor) => r is Ok && paged(
                    ids@,
                    Some(cursor),
                    served_page_size(query.page_size, default_size, max_size),
                    r->Ok_0,
                ),
                None => r is Err && r->Err_0@ == invalid_page_token(),
            },
            None => r is Ok && paged(
                ids@,
                None,
                served_page_size(query.page_size, default_size, max_size),
                r->Ok_0,
            ),
        },
{
    let after = match &query.page_token {
        Some(token) => match decode_page_token(token.as_str()) {
            Ok(id) => Some(id),
            Err(e) => {
                return Err(e);
            },
        },
        None => None,
    };
    let limit = page_size(query.page_size, default_size, max_size);
    let page = page_after(ids, after, limit);
    let next_page_token = if limit > 0 && page.len() == limit {
        Some(encode_page_token(page[page.len() - 1]))
    } else {
        None
    };
    Ok(Page { ids: page, next_page_token })
}

/// What a page holds: the entries that follow the cursor, and the token of
/// its last entry where it is full.
pub open spec fn paged(
    ids: Seq<TabularIdentUuid>,
    after: Option<TabularIdentUuid>,
    limit: usize,
    page: Page,
) -> bool {
    &&& is_page(ids, after, limit as nat, page.ids@)
    &&& if limit > 0 && page.ids@.len() == limit {
        page.next_page_token is Some && page.next_page_token->0@ == token_text(page.ids@.last())
    } else {
        page.next_page_token is None
    }
}

/// There is one page only for a listing, a cursor and a page size.
pub proof fn lemma_page_is_unique(
    ids: Seq<TabularIdentUuid>,
    after: Option<TabularIdentUuid>,
    limit: nat,
    a: Seq<TabularIdentUuid>,
    b: Seq<TabularIdentUuid>,
)
    requires
        is_page(ids, after, limit, a),
        is_page(ids, after, limit, b),
    ensures
        a == b,
    decreases a.len(),
{
    lemma_page_prefix(ids, after, limit, a, b, a.len() as int);
    lemma_page_prefix(ids, after, limit, b, a, b.len() as int);
    assert(a =~= b);
}

/// Two pages for the same listing, cursor and page size agree on their
/// first `n` entries, and the second has them.
proof fn lemma_page_prefix(
    ids: Seq<TabularIdentUuid>,
    after: Option<TabularIdentUuid>,
    limit: nat,
    a: Seq<TabularIdentUuid>,
    b: Seq<TabularIdentUuid>,
    n: int,
)
    requires
        is_page(ids, after, limit, a),
        is_page(ids, after, limit, b),
        0 <= n <= a.len(),
    ensures
        n <= b.len(),
        forall|i: int| 0 <= i < n ==> a[i] == b[i],
    decreases n,
{
    if n > 0 {
        lemma_page_prefix(ids, after, limit, a, b, n - 1);
        let x = a[n - 1];
        // x is in the listing after the cursor, so b has it or is full before it
        assert(ids.contains(x));
        let k = choose|k: int| 0 <= k < ids.len() && ids[k] == x;
        assert(is_after(after, ids[k]));
        // it is not among the first n - 1 entries of b, which are those of a
        assert forall|i: int| 0 <= i < n - 1 implies b[i] != x by {
            assert(comes_before(a[i], a[n - 1]));
            lemma_order(a[i], x, x);
        }
        if b.len() <= n - 1 {
            // b is shorter: it cannot hold x, and it is not full
            assert(!b.contains(x));
            assert(false);
        } else {
            let y = b[n - 1];
            if x != y {
                lemma_order(x, y, y);
                assert(ids.contains(y));
                let m = choose|m: int| 0 <= m < ids.len() && ids[m] == y;
                assert(is_after(after, ids[m]));
                if comes_before(x, y) {
                    // b skips x: x is not in b and not after its last entry
                    assert forall|i: int| n - 1 <= i < b.len() implies b[i] != x by {
                        if i > n - 1 {
                            assert(comes_before(b[n - 1], b[i]));
                            lemma_order(x, y, b[i]);
                            lemma_order(x, b[i], b[i]);
                        }
                    }
                    assert(!b.contains(x));
                    if b.len() - 1 > n - 1 {
                        assert(comes_before(b[n - 1], b[b.len() - 1]));
                        lemma_order(x, y, b.last());
                    }
                    lemma_order(b.last(), x, b.last());
                    assert(false);
                } else {
                    // a skips y
                    assert forall|i: int| 0 <= i < a.len() implies a[i] != y by {
                        if i < n - 1 {
                            assert(a[i] == b[i]);
                            assert(comes_before(b[i], b[n - 1]));
                            lemma_order(b[i], y, y);
                        } else if i > n - 1 {
                            assert(comes_before(a[n - 1], a[i]));
                            lemma_order(y, x, a[i]);
                            lemma_order(y, a[i], a[i]);
                        }
                    }
                    assert(!a.contains(y));
                    if a.len() - 1 > n - 1 {
                        assert(comes_before(a[n - 1], a[a.len() - 1]));
                        lemma_order(y, x, a.last());
                    }
                    lemma_order(a.last(), y, a.last());
                    assert(false);
                }
            }
        }
    }
}

} // verus!
