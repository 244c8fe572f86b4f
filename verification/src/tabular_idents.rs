//! Identifiers that say whether they stand for a table or for a view.

use crate::error::{error_of, ErrorKind, ErrorModel};
use crate::ident::{
    format_uuid, hyphenated_text, parse_uuid, parsed_uuid, TableIdentUuid, ViewIdentUuid,
};
use crate::names::{TableIdent, TableIdentView};
use vstd::prelude::*;

verus! {

/// The identifier of a table or of a view. The tag is kept wherever the
/// identifier is stored.
#[derive(Hash, PartialOrd, PartialEq, Debug, Clone, Copy, Eq, Structural)]
pub enum TabularIdentUuid {
    Table(u128),
    View(u128),
}

/// The identifier with the given tag and value; `None` where the tag is
/// neither `table` nor `view`, or where there is no value.
pub open spec fn tagged_ident(tag: Seq<char>, id: Option<u128>) -> Option<TabularIdentUuid> {
    match id {
        Some(v) => if tag == "table"@ {
            Some(TabularIdentUuid::Table(v))
        } else if tag == "view"@ {
            Some(TabularIdentUuid::View(v))
        } else {
            None
        },
        None => None,
    }
}

impl TabularIdentUuid {
    /// The 128-bit value, whatever the tag.
    pub open spec fn spec_uuid(self) -> u128 {
        match self {
            TabularIdentUuid::Table(id) => id,
            TabularIdentUuid::View(id) => id,
        }
    }

    /// The tag under which the identifier is serialized.
    pub open spec fn spec_tag(self) -> Seq<char> {
        match self {
            TabularIdentUuid::Table(_) => "table"@,
            TabularIdentUuid::View(_) => "view"@,
        }
    }

    /// `Table` or `View`.
    #[must_use]
    pub fn typ_str(&self) -> (name: &'static str)
        ensures
            self is Table ==> name@ == "Table"@,
            self is View ==> name@ == "View"@,
    {
        match self {
            TabularIdentUuid::Table(_) => "Table",
            TabularIdentUuid::View(_) => "View",
        }
    }

    /// The 128-bit value, whatever the tag.
    pub fn uuid(&self) -> (id: u128)
        ensures
            id == self.spec_uuid(),
    {
        match self {
            TabularIdentUuid::Table(id) => *id,
            TabularIdentUuid::View(id) => *id,
        }
    }

    /// The value in its text form; the tag is not part of it.
    pub fn to_string(&self) -> (text: String)
        ensures
            text@ == hyphenated_text(self.spec_uuid()),
    {
        format_uuid(self.uuid())
    }

    /// The tag under which the identifier is serialized: `table` or `view`.
    pub fn tag(&self) -> (tag: &'static str)
        ensures
            tag@ == self.spec_tag(),
    {
        match self {
            TabularIdentUuid::Table(_) => "table",
            TabularIdentUuid::View(_) => "view",
        }
    }

    /// The serialized form: the tag and the value's text.
    pub fn to_tagged(&self) -> (parts: (&'static str, String))
        ensures
            parts.0@ == self.spec_tag(),
            parts.1@ == hyphenated_text(self.spec_uuid()),
    {
        (self.tag(), self.to_string())
    }

    /// Reads an identifier back from its serialized form. What `to_tagged`
    /// wrote of an identifier gives that identifier again.
    pub fn from_tagged(tag: &str, id: &str) -> (ident: Option<Self>)
        ensures
            ident == tagged_ident(tag@, parsed_uuid(id@)),
            forall|t: TabularIdentUuid|
                tag@ == t.spec_tag() && id@ == #[trigger] hyphenated_text(t.spec_uuid()) ==> ident
                    == Some(t),
    {
        let parsed = parse_uuid(id);
        let ident = Self::with_tag(tag, parsed);
        proof {
            lemma_tags_differ();
        }
        ident
    }

    /// The identifier with the given tag and value; `None` where the tag is
    /// neither `table` nor `view`, or where there is no value.
    pub fn with_tag(tag: &str, id: Option<u128>) -> (ident: Option<Self>)
        ensures
            ident == tagged_ident(tag@, id),
    {
        let tag = tag.to_owned();
        match id {
            Some(v) => {
                if tag == "table".to_owned() {
                    Some(TabularIdentUuid::Table(v))
                } else if tag == "view".to_owned() {
                    Some(TabularIdentUuid::View(v))
                } else {
                    None
                }
            },
            None => None,
        }
    }
}

/// The two tags are different texts.
pub proof fn lemma_tags_differ()
    ensures
        "table"@ != "view"@,
{
    reveal_strlit("table");
    reveal_strlit("view");
    assert("table"@.len() == 5);
    assert("view"@.len() == 4);
}

/// Two identifiers are equal exactly if their tags and their values are:
/// the serialized form tells any two identifiers apart.
pub proof fn lemma_tagged_form_is_injective(a: TabularIdentUuid, b: TabularIdentUuid)
    ensures
        a == b <==> (a.spec_tag() == b.spec_tag() && a.spec_uuid() == b.spec_uuid()),
        tagged_ident(a.spec_tag(), Some(a.spec_uuid())) == Some(a),
{
    lemma_tags_differ();
}

impl From<TableIdentUuid> for TabularIdentUuid {
    fn from(ident: TableIdentUuid) -> (tabular: Self) {
        TabularIdentUuid::Table(ident.0)
    }
}

impl vstd::std_specs::convert::FromSpecImpl<TableIdentUuid> for TabularIdentUuid {
    open spec fn obeys_from_spec() -> bool {
        true
    }

    open spec fn from_spec(ident: TableIdentUuid) -> Self {
        TabularIdentUuid::Table(ident.0)
    }
}

impl From<ViewIdentUuid> for TabularIdentUuid {
    fn from(ident: ViewIdentUuid) -> (tabular: Self) {
        TabularIdentUuid::View(ident.0)
    }
}

impl vstd::std_specs::convert::FromSpecImpl<ViewIdentUuid> for TabularIdentUuid {
    open spec fn obeys_from_spec() -> bool {
        true
    }

    open spec fn from_spec(ident: ViewIdentUuid) -> Self {
        TabularIdentUuid::View(ident.0)
    }
}

/// The name of a table or of a view, borrowed.
#[derive(Debug, Clone, Copy)]
pub enum TabularIdentBorrowed<'a> {
    Table(&'a TableIdent),
    View(&'a TableIdent),
}

/// The name of a table or of a view.
#[derive(Debug, Clone)]
pub enum TabularIdentOwned {
    Table(TableIdent),
    View(TableIdent),
}

/// What a tagged name holds, as plain values.
pub enum TabularIdentView {
    Table(TableIdentView),
    View(TableIdentView),
}

impl<'a> View for TabularIdentBorrowed<'a> {
    type V = TabularIdentView;

    open spec fn view(&self) -> TabularIdentView {
        match self {
            TabularIdentBorrowed::Table(ident) => TabularIdentView::Table(ident@),
            TabularIdentBorrowed::View(ident) => TabularIdentView::View(ident@),
        }
    }
}

impl View for TabularIdentOwned {
    type V = TabularIdentView;

    open spec fn view(&self) -> TabularIdentView {
        match self {
            TabularIdentOwned::Table(ident) => TabularIdentView::Table(ident@),
            TabularIdentOwned::View(ident) => TabularIdentView::View(ident@),
        }
    }
}

impl TabularIdentView {
    /// The name, whatever the tag.
    pub open spec fn ident(self) -> TableIdentView {
        match self {
            TabularIdentView::Table(ident) => ident,
            TabularIdentView::View(ident) => ident,
        }
    }
}

impl<'a> TabularIdentBorrowed<'a> {
    /// `Table` or `View`.
    pub fn typ_str(&self) -> (name: &'static str)
        ensures
            self is Table ==> name@ == "Table"@,
            self is View ==> name@ == "View"@,
    {
        match self {
            TabularIdentBorrowed::Table(_) => "Table",
            TabularIdentBorrowed::View(_) => "View",
        }
    }

    /// The name, whatever the tag.
    pub fn to_table_ident_tuple(&self) -> (ident: &'a TableIdent)
        ensures
            ident@ == self@.ident(),
    {
        match self {
            TabularIdentBorrowed::Table(ident) => ident,
            TabularIdentBorrowed::View(ident) => ident,
        }
    }
}

impl TabularIdentOwned {
    /// The name, whatever the tag.
    pub fn into_inner(self) -> (ident: TableIdent)
        ensures
            ident@ == self@.ident(),
    {
        match self {
            TabularIdentOwned::Table(ident) => ident,
            TabularIdentOwned::View(ident) => ident,
        }
    }

    /// The name of the table; an internal error where this names a view.
    pub fn as_table(&self) -> (r: Result<&TableIdent, ErrorModel>)
        ensures
            r is Ok <==> self is Table,
            r matches Ok(ident) ==> self@ == TabularIdentView::Table(ident@),
            r matches Err(e) ==> e@ == error_of(
                ErrorKind::Internal,
                "Expected a table identifier, but got a view identifier"@,
                "UnexpectedViewIdentifier"@,
            ),
    {
        match self {
            TabularIdentOwned::Table(ident) => Ok(ident),
            TabularIdentOwned::View(_) => Err(
                ErrorModel::internal(
                    "Expected a table identifier, but got a view identifier",
                    "UnexpectedViewIdentifier",
                ),
            ),
        }
    }

    /// The name of the view; an internal error where this names a table.
    pub fn as_view(&self) -> (r: Result<&TableIdent, ErrorModel>)
        ensures
            r is Ok <==> self is View,
            r matches Ok(ident) ==> self@ == TabularIdentView::View(ident@),
            r matches Err(e) ==> e@ == error_of(
                ErrorKind::Internal,
                "Expected a view identifier, but got a table identifier"@,
                "UnexpectedTableIdentifier"@,
            ),
    {
        match self {
            TabularIdentOwned::Table(_) => Err(
                ErrorModel::internal(
                    "Expected a view identifier, but got a table identifier",
                    "UnexpectedTableIdentifier",
                ),
            ),
            TabularIdentOwned::View(ident) => Ok(ident),
        }
    }

    /// An owned copy of a borrowed name, under the same tag.
    pub fn from(ident: TabularIdentBorrowed<'_>) -> (owned: Self)
        ensures
            owned@ == ident@,
    {
        match ident {
            TabularIdentBorrowed::Table(ident) => TabularIdentOwned::Table(ident.duplicate()),
            TabularIdentBorrowed::View(ident) => TabularIdentOwned::View(ident.duplicate()),
        }
    }
}

} // verus!
