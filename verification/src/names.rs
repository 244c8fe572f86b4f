//! Names of namespaces, tables and views.

use crate::error::{error_of, ErrorKind, ErrorModel};
use crate::location::texts;
use vstd::prelude::*;
use vstd::string::*;

verus! {

/// The character between the levels of a namespace in its URL form.
pub open spec fn level_separator() -> char {
    '\u{1f}'
}

/// The levels of a namespace with the separator between them.
pub open spec fn url_text(levels: Seq<Seq<char>>) -> Seq<char>
    decreases levels.len(),
{
    if levels.len() == 0 {
        Seq::empty()
    } else if levels.len() == 1 {
        levels[0]
    } else {
        url_text(levels.drop_last()) + seq![level_separator()] + levels.last()
    }
}

/// Whether a text can be a level of a namespace or the name of a tabular:
/// not empty and without the level separator.
pub open spec fn is_name(s: Seq<char>) -> bool {
    s.len() > 0 && forall|i: int| 0 <= i < s.len() ==> s[i] != level_separator()
}

/// A namespace of one or more levels.
#[derive(Debug, Clone)]
pub struct NamespaceIdent {
    levels: Vec<String>,
}

impl View for NamespaceIdent {
    type V = Seq<Seq<char>>;

    closed spec fn view(&self) -> Seq<Seq<char>> {
        texts(self.levels@)
    }
}

fn copy_strings(strings: &Vec<String>) -> (copy: Vec<String>)
    ensures
        copy@ == strings@,
{
    let mut copy: Vec<String> = Vec::with_capacity(strings.len());
    let mut i: usize = 0;
    while i < strings.len()
        invariant
            i <= strings.len(),
            copy@ == strings@.take(i as int),
        decreases strings.len() - i,
    {
        copy.push(strings[i].clone());
        i += 1;
        assert(copy@ =~= strings@.take(i as int));
    }
    assert(strings@.take(i as int) =~= strings@);
    copy
}

fn same_strings(a: &Vec<String>, b: &Vec<String>) -> (same: bool)
    ensures
        same == (texts(a@) == texts(b@)),
{
    if a.len() != b.len() {
        assert(texts(a@).len() != texts(b@).len());
        return false;
    }
    let mut i: usize = 0;
    while i < a.len()
        invariant
            i <= a.len(),
            a.len() == b.len(),
            forall|j: int| 0 <= j < i ==> texts(a@)[j] == texts(b@)[j],
        decreases a.len() - i,
    {
        if a[i] != b[i] {
            assert(texts(a@)[i as int] != texts(b@)[i as int]);
            return false;
        }
        i += 1;
    }
    assert(texts(a@) =~= texts(b@));
    true
}

fn is_name_exec(s: &str) -> (b: bool)
    ensures
        b == is_name(s@),
{
    let n = s.unicode_len();
    if n == 0 {
        return false;
    }
    let mut i: usize = 0;
    while i < n
        invariant
            n == s@.len(),
            i <= n,
            forall|j: int| 0 <= j < i ==> s@[j] != level_separator(),
        decreases n - i,
    {
        if s.get_char(i) == '\u{1f}' {
            return false;
        }
        i += 1;
    }
    true
}

impl NamespaceIdent {
    /// The validity every namespace has: at least one level.
    pub open spec fn wf(&self) -> bool {
        self@.len() > 0
    }

    /// The namespace of the single level `name`.
    pub fn new(name: String) -> (ns: Self)
        ensures
            ns.wf(),
            ns@ == seq![name@],
    {
        let mut levels: Vec<String> = Vec::new();
        levels.push(name);
        assert(texts(levels@) =~= seq![name@]);
        NamespaceIdent { levels }
    }

    /// The namespace of the given levels; refused where there is none.
    pub fn from_vec(names: Vec<String>) -> (r: Result<Self, ErrorModel>)
        ensures
            r is Ok <==> names@.len() > 0,
            r matches Ok(ns) ==> ns.wf() && ns@ == texts(names@),
            r matches Err(e) ==> e@ == error_of(
                ErrorKind::BadRequest,
                "Namespace identifier can't be empty."@,
                "NamespaceEmpty"@,
            ),
    {
        if names.len() == 0 {
            return Err(
                ErrorModel::bad_request("Namespace identifier can't be empty.", "NamespaceEmpty"),
            );
        }
        Ok(NamespaceIdent { levels: names })
    }

    /// Whether the namespace has a level. Every namespace that this module
    /// hands out has one.
    pub fn is_well_formed(&self) -> (b: bool)
        ensures
            b == self.wf(),
    {
        self.levels.len() > 0
    }

    /// The levels.
    pub fn levels(&self) -> (levels: &Vec<String>)
        ensures
            texts(levels@) == self@,
    {
        &self.levels
    }

    /// The levels, joined by the level separator.
    pub fn to_url_string(&self) -> (text: String)
        ensures
            text@ == url_text(self@),
    {
        let ghost levels = texts(self.levels@);
        let mut text = String::new();
        if self.levels.len() == 0 {
            return text;
        }
        text.append(self.levels[0].as_str());
        assert(levels.take(1) =~= seq![levels[0]]);
        assert(text@ =~= url_text(levels.take(1)));
        proof {
            reveal_strlit("\u{1f}");
            assert("\u{1f}"@ =~= seq![level_separator()]);
        }
        let mut i: usize = 1;
        while i < self.levels.len()
            invariant
                1 <= i <= self.levels.len(),
                levels == texts(self.levels@),
                "\u{1f}"@ == seq![level_separator()],
                text@ == url_text(levels.take(i as int)),
            decreases self.levels.len() - i,
        {
            text.append("\u{1f}");
            text.append(self.levels[i].as_str());
            proof {
                let next = levels.take(i + 1);
                assert(next.drop_last() =~= levels.take(i as int));
                assert(next.last() == self.levels[i as int]@);
            }
            i += 1;
        }
        assert(levels.take(i as int) =~= levels);
        text
    }

    /// A copy of the namespace.
    pub fn duplicate(&self) -> (ns: Self)
        ensures
            ns@ == self@,
    {
        NamespaceIdent { levels: copy_strings(&self.levels) }
    }

    /// Whether both namespaces have the same levels.
    pub fn same_as(&self, other: &NamespaceIdent) -> (same: bool)
        ensures
            same == (self@ == other@),
    {
        same_strings(&self.levels, &other.levels)
    }

    /// Whether this namespace is a proper ancestor of `other`: `other` has
    /// the levels of this namespace and more.
    pub fn is_ancestor_of(&self, other: &NamespaceIdent) -> (b: bool)
        ensures
            b == (self@.len() < other@.len() && self@.is_prefix_of(other@)),
    {
        if self.levels.len() >= other.levels.len() {
            return false;
        }
        let ghost mine = texts(self.levels@);
        let ghost theirs = texts(other.levels@);
        let mut i: usize = 0;
        while i < self.levels.len()
            invariant
                i <= self.levels.len() < other.levels.len(),
                mine == texts(self.levels@),
                theirs == texts(other.levels@),
                forall|j: int| 0 <= j < i ==> mine[j] == theirs[j],
            decreases self.levels.len() - i,
        {
            if self.levels[i] != other.levels[i] {
                assert(theirs.subrange(0, mine.len() as int)[i as int] != mine[i as int]);
                return false;
            }
            i += 1;
        }
        assert(mine =~= theirs.subrange(0, mine.len() as int));
        true
    }

    /// Whether every level is a name.
    pub fn is_valid(&self) -> (valid: bool)
        ensures
            valid == (self@.len() > 0 && forall|k: int|
                0 <= k < self@.len() ==> is_name(#[trigger] self@[k])),
    {
        if self.levels.len() == 0 {
            return false;
        }
        let mut i: usize = 0;
        while i < self.levels.len()
            invariant
                i <= self.levels.len(),
                forall|k: int| 0 <= k < i ==> is_name(#[trigger] texts(self.levels@)[k]),
            decreases self.levels.len() - i,
        {
            if !is_name_exec(self.levels[i].as_str()) {
                assert(!is_name(texts(self.levels@)[i as int]));
                return false;
            }
            i += 1;
        }
        true
    }
}

/// The name of a table or a view: a namespace and a name within it.
#[derive(Debug, Clone)]
pub struct TableIdent {
    /// Namespace of the tabular.
    pub namespace: NamespaceIdent,
    /// Name of the tabular within the namespace.
    pub name: String,
}

/// What a [`TableIdent`] holds, as plain values.
pub struct TableIdentView {
    pub namespace: Seq<Seq<char>>,
    pub name: Seq<char>,
}

impl View for TableIdent {
    type V = TableIdentView;

    open spec fn view(&self) -> TableIdentView {
        TableIdentView { namespace: self.namespace@, name: self.name@ }
    }
}

/// Whether an identifier is well-formed: every level of the namespace and the
/// name itself are names.
pub open spec fn valid_ident(ident: TableIdentView) -> bool {
    &&& ident.namespace.len() > 0
    &&& forall|k: int| 0 <= k < ident.namespace.len() ==> is_name(#[trigger] ident.namespace[k])
    &&& is_name(ident.name)
}

impl TableIdent {
    /// The identifier of `name` in `namespace`.
    pub fn new(namespace: NamespaceIdent, name: String) -> (ident: Self)
        ensures
            ident.namespace == namespace,
            ident.name == name,
    {
        TableIdent { namespace, name }
    }

    /// A copy of the identifier.
    pub fn duplicate(&self) -> (ident: Self)
        ensures
            ident@ == self@,
    {
        TableIdent { namespace: self.namespace.duplicate(), name: self.name.clone() }
    }

    /// Whether both identifiers name the same tabular.
    pub fn same_as(&self, other: &TableIdent) -> (same: bool)
        ensures
            same == (self@ == other@),
    {
        self.name == other.name && self.namespace.same_as(&other.namespace)
    }
}

/// Checks that the identifier of a table or a view is well-formed.
pub fn validate_table_or_view_ident(ident: &TableIdent) -> (r: Result<(), ErrorModel>)
    ensures
        r is Ok <==> valid_ident(ident@),
        r matches Err(e) ==> e@ == error_of(
            ErrorKind::BadRequest,
            "Identifier is not well-formed."@,
            "InvalidIdentifier"@,
        ),
{
    if ident.namespace.is_valid() && is_name_exec(ident.name.as_str()) {
        Ok(())
    } else {
        Err(ErrorModel::bad_request("Identifier is not well-formed.", "InvalidIdentifier"))
    }
}

} // verus!
