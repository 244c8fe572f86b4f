//! Identifiers: 128-bit values whose text form is the lower-case hyphenated
//! UUID.

use vstd::prelude::*;

verus! {

/// The lower-case hexadecimal digit for `n`, taken modulo 16.
pub open spec fn hex_digit(n: int) -> char {
    let d = n % 16;
    if d == 0 {
        '0'
    } else if d == 1 {
        '1'
    } else if d == 2 {
        '2'
    } else if d == 3 {
        '3'
    } else if d == 4 {
        '4'
    } else if d == 5 {
        '5'
    } else if d == 6 {
        '6'
    } else if d == 7 {
        '7'
    } else if d == 8 {
        '8'
    } else if d == 9 {
        '9'
    } else if d == 10 {
        'a'
    } else if d == 11 {
        'b'
    } else if d == 12 {
        'c'
    } else if d == 13 {
        'd'
    } else if d == 14 {
        'e'
    } else {
        'f'
    }
}

/// Whether `c` is a lower-case hexadecimal digit.
pub open spec fn is_hex_char(c: char) -> bool {
    ('0' <= c && c <= '9') || ('a' <= c && c <= 'f')
}

/// The last `width` hexadecimal digits of `v`, most significant first.
pub open spec fn hex_text(v: int, width: nat) -> Seq<char>
    decreases width,
{
    if width == 0 {
        Seq::empty()
    } else {
        hex_text(v / 16, (width - 1) as nat).push(hex_digit(v))
    }
}

/// The text form of an identifier: 32 hexadecimal digits, most significant
/// first, in groups of 8, 4, 4, 4 and 12 with a hyphen between groups.
pub open spec fn hyphenated_text(v: u128) -> Seq<char> {
    let digits = hex_text(v as int, 32);
    digits.subrange(0, 8) + seq!['-'] + digits.subrange(8, 12) + seq!['-'] + digits.subrange(
        12,
        16,
    ) + seq!['-'] + digits.subrange(16, 20) + seq!['-'] + digits.subrange(20, 32)
}

/// What `uuid::Uuid::parse_str` makes of a text: the 128-bit value of the
/// identifier it denotes, or `None` where it rejects the text.
pub uninterp spec fn parsed_uuid(text: Seq<char>) -> Option<u128>;

/// Calls `uuid::Uuid::parse_str` and hands the value out as a `u128`
/// (`Uuid::as_u128`, big-endian). Taken on trust: the result is a function of
/// the text alone, and the hyphenated lower-case form of a value parses back
/// to that value.
#[verifier::external_body]
fn uuid_parse_str(text: &str) -> (id: Option<u128>)
    ensures
        id == parsed_uuid(text@),
        forall|v: u128| text@ == #[trigger] hyphenated_text(v) ==> id == Some(v),
{
    match uuid::Uuid::parse_str(text) {
        Ok(uuid) => Some(uuid.as_u128()),
        Err(_) => None,
    }
}

/// Calls `Display` of `uuid::Uuid` on `Uuid::from_u128(v)`. Taken on trust:
/// the text is the hyphenated lower-case form of `v`.
#[verifier::external_body]
fn uuid_to_string(v: u128) -> (text: String)
    ensures
        text@ == hyphenated_text(v),
{
    uuid::Uuid::from_u128(v).to_string()
}

/// Calls `uuid::Uuid::now_v7`. The value depends on the clock and on random
/// bits, so nothing is claimed of it.
#[verifier::external_body]
fn uuid_now_v7() -> u128 {
    uuid::Uuid::now_v7().as_u128()
}

/// Reads an identifier from its text form; every form the `uuid` crate
/// accepts is accepted.
pub fn parse_uuid(text: &str) -> (id: Option<u128>)
    ensures
        id == parsed_uuid(text@),
        forall|v: u128| text@ == #[trigger] hyphenated_text(v) ==> id == Some(v),
{
    uuid_parse_str(text)
}

/// Writes an identifier in its text form.
pub fn format_uuid(v: u128) -> (text: String)
    ensures
        text@ == hyphenated_text(v),
{
    uuid_to_string(v)
}

/// A fresh time-ordered identifier.
pub fn new_uuid_v7() -> u128 {
    uuid_now_v7()
}

/// `hex_text(v, width)` has `width` characters, each a hexadecimal digit.
pub proof fn lemma_hex_text(v: int, width: nat)
    ensures
        hex_text(v, width).len() == width,
        forall|i: int| 0 <= i < width ==> is_hex_char(#[trigger] hex_text(v, width)[i]),
    decreases width,
{
    if width > 0 {
        lemma_hex_text(v / 16, (width - 1) as nat);
        assert(is_hex_char(hex_digit(v)));
    }
}

/// The text form of an identifier has 36 characters, each a hexadecimal digit
/// or a hyphen; in particular it holds no `/`.
pub proof fn lemma_hyphenated_text(v: u128)
    ensures
        hyphenated_text(v).len() == 36,
        forall|i: int|
            0 <= i < 36 ==> {
                let c = #[trigger] hyphenated_text(v)[i];
                is_hex_char(c) || c == '-'
            },
        forall|i: int| 0 <= i < 36 ==> #[trigger] hyphenated_text(v)[i] != '/',
{
    lemma_hex_text(v as int, 32);
    let digits = hex_text(v as int, 32);
    let text = hyphenated_text(v);
    assert(text.len() == 36);
    assert forall|i: int| 0 <= i < 36 implies {
        let c = #[trigger] text[i];
        is_hex_char(c) || c == '-'
    } by {
        if i < 8 {
            assert(text[i] == digits[i]);
        } else if i == 8 {
        } else if i < 13 {
            assert(text[i] == digits[i - 1]);
        } else if i == 13 {
        } else if i < 18 {
            assert(text[i] == digits[i - 2]);
        } else if i == 18 {
        } else if i < 23 {
            assert(text[i] == digits[i - 3]);
        } else if i == 23 {
        } else {
            assert(text[i] == digits[i - 4]);
        }
    }
    assert forall|i: int| 0 <= i < 36 implies #[trigger] text[i] != '/' by {
        let c = text[i];
        assert(is_hex_char(c) || c == '-');
    }
}

/// 16 to the power of `width`.
pub open spec fn hex_range(width: nat) -> int
    decreases width,
{
    if width == 0 {
        1
    } else {
        16 * hex_range((width - 1) as nat)
    }
}

/// Different digits are written differently.
pub proof fn lemma_hex_digit_is_injective(a: int, b: int)
    requires
        hex_digit(a) == hex_digit(b),
    ensures
        a % 16 == b % 16,
{
}

/// Numbers with the same last `width` digits agree modulo 16 to the power
/// of `width`.
pub proof fn lemma_hex_text_is_injective(a: int, b: int, width: nat)
    requires
        0 <= a,
        0 <= b,
        hex_text(a, width) == hex_text(b, width),
    ensures
        hex_range(width) > 0,
        a % hex_range(width) == b % hex_range(width),
    decreases width,
{
    if width > 0 {
        let rest = (width - 1) as nat;
        let x = hex_text(a / 16, rest);
        let y = hex_text(b / 16, rest);
        assert(x =~= hex_text(a, width).drop_last());
        assert(y =~= hex_text(b, width).drop_last());
        assert(hex_digit(a) == hex_text(a, width).last());
        assert(hex_digit(b) == hex_text(b, width).last());
        lemma_hex_digit_is_injective(a, b);
        lemma_hex_text_is_injective(a / 16, b / 16, rest);
        vstd::arithmetic::div_mod::lemma_breakdown(a, 16, hex_range(rest));
        vstd::arithmetic::div_mod::lemma_breakdown(b, 16, hex_range(rest));
    }
}

/// Different identifiers have different texts.
pub proof fn lemma_hyphenated_text_is_injective(a: u128, b: u128)
    requires
        hyphenated_text(a) == hyphenated_text(b),
    ensures
        a == b,
{
    lemma_hex_text(a as int, 32);
    lemma_hex_text(b as int, 32);
    let x = hex_text(a as int, 32);
    let y = hex_text(b as int, 32);
    let s = hyphenated_text(a);
    let t = hyphenated_text(b);
    assert forall|i: int| 0 <= i < 32 implies x[i] == y[i] by {
        let k = if i < 8 {
            i
        } else if i < 12 {
            i + 1
        } else if i < 16 {
            i + 2
        } else if i < 20 {
            i + 3
        } else {
            i + 4
        };
        assert(s[k] == x[i]);
        assert(t[k] == y[i]);
    }
    assert(x =~= y);
    lemma_hex_text_is_injective(a as int, b as int, 32);
    assert(hex_range(32) == 0x1_0000_0000_0000_0000_0000_0000_0000_0000) by {
        reveal_with_fuel(hex_range, 33);
    }
}

/// Identifies a project.
#[derive(Debug, Clone, Copy, PartialEq, Eq, Hash, Structural)]
pub struct ProjectIdent(pub u128);

/// Identifies a warehouse.
#[derive(Debug, Clone, Copy, PartialEq, Eq, Hash, Structural)]
pub struct WarehouseIdent(pub u128);

/// Identifies a namespace.
#[derive(Debug, Clone, Copy, PartialEq, Eq, Hash, Structural)]
pub struct NamespaceIdentUuid(pub u128);

/// Identifies a table.
#[derive(Debug, Clone, Copy, PartialEq, Eq, Hash, Structural)]
pub struct TableIdentUuid(pub u128);

/// Identifies a view.
#[derive(Debug, Clone, Copy, PartialEq, Eq, Hash, Structural)]
pub struct ViewIdentUuid(pub u128);

/// An opaque handle that the secret store resolves.
#[derive(Debug, Clone, Copy, PartialEq, Eq, Hash, Structural)]
pub struct SecretIdent(pub u128);

impl ProjectIdent {
    /// The identifier in its text form.
    pub fn to_string(&self) -> (text: String)
        ensures
            text@ == hyphenated_text(self.0),
    {
        format_uuid(self.0)
    }

    /// The identifier a text denotes, if it denotes one.
    pub fn from_str(text: &str) -> (id: Option<Self>)
        ensures
            id == ident_of(parsed_uuid(text@), |v: u128| ProjectIdent(v)),
            forall|v: u128| text@ == #[trigger] hyphenated_text(v) ==> id == Some(ProjectIdent(v)),
    {
        match parse_uuid(text) {
            Some(v) => Some(ProjectIdent(v)),
            None => None,
        }
    }
}

impl WarehouseIdent {
    /// The identifier in its text form.
    pub fn to_string(&self) -> (text: String)
        ensures
            text@ == hyphenated_text(self.0),
    {
        format_uuid(self.0)
    }

    /// The identifier a text denotes, if it denotes one.
    pub fn from_str(text: &str) -> (id: Option<Self>)
        ensures
            id == ident_of(parsed_uuid(text@), |v: u128| WarehouseIdent(v)),
            forall|v: u128|
                text@ == #[trigger] hyphenated_text(v) ==> id == Some(WarehouseIdent(v)),
    {
        match parse_uuid(text) {
            Some(v) => Some(WarehouseIdent(v)),
            None => None,
        }
    }
}

impl NamespaceIdentUuid {
    /// The identifier in its text form.
    pub fn to_string(&self) -> (text: String)
        ensures
            text@ == hyphenated_text(self.0),
    {
        format_uuid(self.0)
    }

    /// The identifier a text denotes, if it denotes one.
    pub fn from_str(text: &str) -> (id: Option<Self>)
        ensures
            id == ident_of(parsed_uuid(text@), |v: u128| NamespaceIdentUuid(v)),
            forall|v: u128|
                text@ == #[trigger] hyphenated_text(v) ==> id == Some(NamespaceIdentUuid(v)),
    {
        match parse_uuid(text) {
            Some(v) => Some(NamespaceIdentUuid(v)),
            None => None,
        }
    }
}

impl TableIdentUuid {
    /// The identifier in its text form.
    pub fn to_string(&self) -> (text: String)
        ensures
            text@ == hyphenated_text(self.0),
    {
        format_uuid(self.0)
    }

    /// The identifier a text denotes, if it denotes one.
    pub fn from_str(text: &str) -> (id: Option<Self>)
        ensures
            id == ident_of(parsed_uuid(text@), |v: u128| TableIdentUuid(v)),
            forall|v: u128|
                text@ == #[trigger] hyphenated_text(v) ==> id == Some(TableIdentUuid(v)),
    {
        match parse_uuid(text) {
            Some(v) => Some(TableIdentUuid(v)),
            None => None,
        }
    }
}

impl ViewIdentUuid {
    /// The identifier in its text form.
    pub fn to_string(&self) -> (text: String)
        ensures
            text@ == hyphenated_text(self.0),
    {
        format_uuid(self.0)
    }

    /// The identifier a text denotes, if it denotes one.
    pub fn from_str(text: &str) -> (id: Option<Self>)
        ensures
            id == ident_of(parsed_uuid(text@), |v: u128| ViewIdentUuid(v)),
            forall|v: u128| text@ == #[trigger] hyphenated_text(v) ==> id == Some(ViewIdentUuid(v)),
    {
        match parse_uuid(text) {
            Some(v) => Some(ViewIdentUuid(v)),
            None => None,
        }
    }
}

impl SecretIdent {
    /// The identifier in its text form.
    pub fn to_string(&self) -> (text: String)
        ensures
            text@ == hyphenated_text(self.0),
    {
        format_uuid(self.0)
    }

    /// The identifier a text denotes, if it denotes one.
    pub fn from_str(text: &str) -> (id: Option<Self>)
        ensures
            id == ident_of(parsed_uuid(text@), |v: u128| SecretIdent(v)),
            forall|v: u128| text@ == #[trigger] hyphenated_text(v) ==> id == Some(SecretIdent(v)),
    {
        match parse_uuid(text) {
            Some(v) => Some(SecretIdent(v)),
            None => None,
        }
    }
}

/// A parsed value under the identifier type that `wrap` makes of it.
pub open spec fn ident_of<T>(parsed: Option<u128>, wrap: spec_fn(u128) -> T) -> Option<T> {
    match parsed {
        Some(v) => Some(wrap(v)),
        None => None,
    }
}

} // verus!
