//! Identities of clients and networks.
use vstd::arithmetic::power::pow;
use vstd::prelude::*;
use vstd::string::*;

verus! {

/// A 128-bit universally unique identifier, most significant byte first.
#[derive(Debug, Clone, Copy, PartialEq, Eq, Structural, Hash)]
pub struct Uuid(pub u128);

impl DeepView for Uuid {
    type V = Uuid;

    open spec fn deep_view(&self) -> Uuid {
        *self
    }
}

/// The identifier that names nothing.
pub open spec fn nil_uuid() -> Uuid {
    Uuid(0)
}

/// The character of one lower-case hexadecimal digit.
pub open spec fn hex_char(d: int) -> char {
    if d < 10 {
        (48 + d) as char
    } else {
        (87 + d) as char
    }
}

/// The 32 hexadecimal digits of `u`, most significant first.
pub open spec fn simple_chars(u: Uuid) -> Seq<char> {
    Seq::new(32, |i: int| hex_char((u.0 as int / pow(16, (31 - i) as nat)) % 16))
}

/// The digits of `u` in groups of 8, 4, 4, 4 and 12 with hyphens between.
pub open spec fn uuid_chars(u: Uuid) -> Seq<char> {
    let h = simple_chars(u);
    h.subrange(0, 8) + seq!['-'] + h.subrange(8, 12) + seq!['-'] + h.subrange(12, 16) + seq!['-']
        + h.subrange(16, 20) + seq!['-'] + h.subrange(20, 32)
}

/// The first eight hexadecimal digits of `u`.
pub open spec fn short_chars(u: Uuid) -> Seq<char> {
    simple_chars(u).take(8)
}

/// Whether `u` is marked as drawn at random: version 4, in the variant that has
/// versions.
pub open spec fn is_random(u: Uuid) -> bool {
    &&& u.0 / 0x1000_0000_0000_0000_0000 % 16 == 4
    &&& u.0 / 0x4000_0000_0000_0000 % 4 == 2
}

/// What `uuid::Uuid::parse_str` makes of a string: the identifier, or the
/// text of the error.
pub uninterp spec fn uuid_parsed(s: Seq<char>) -> Result<u128, Seq<char>>;

/// Whether `s` is read as `u`.
pub open spec fn reads_as(s: Seq<char>, u: Uuid) -> bool {
    uuid_parsed(s) matches Ok(v) && v == u.0
}

/// A new identifier. Calls `uuid::Uuid::new_v4`, which asks the operating
/// system for random bits and sets those of the version and the variant; the
/// contract gives those, and the others are left to chance.
#[verifier::external_body]
fn random_uuid() -> (r: Uuid)
    ensures
        is_random(r),
{
    Uuid(::uuid::Uuid::new_v4().as_u128())
}

/// The text of `u` without hyphens. Calls `uuid::Uuid::simple` and its
/// `Display`, which writes the 32 digits in lower case.
#[verifier::external_body]
fn simple_text(u: Uuid) -> (r: String)
    ensures
        r@ == simple_chars(u),
{
    ::uuid::Uuid::from_u128(u.0).simple().to_string()
}

/// The hyphenated text of `u`. Calls the `Display` of `uuid::Uuid`, which
/// writes the hyphenated form in lower case, a form that
/// `uuid::Uuid::parse_str` reads back.
#[verifier::external_body]
fn hyphenated_text(u: Uuid) -> (r: String)
    ensures
        r@ == uuid_chars(u),
        reads_as(r@, u),
{
    ::uuid::Uuid::from_u128(u.0).to_string()
}

/// Reads an identifier. Calls `uuid::Uuid::parse_str`; the contract names
/// its result, and the text of its error.
#[verifier::external_body]
fn parsed_uuid(s: &str) -> (r: Result<Uuid, String>)
    ensures
        match r {
            Ok(u) => reads_as(s@, u),
            Err(e) => uuid_parsed(s@) matches Err(m) && m == e@,
        },
{
    match ::uuid::Uuid::parse_str(s) {
        Ok(u) => Ok(Uuid(u.as_u128())),
        Err(e) => Err(e.to_string()),
    }
}

impl Uuid {
    /// The identifier with all bits zero.
    pub fn nil() -> (r: Uuid)
        ensures
            r == nil_uuid(),
    {
        Uuid(0)
    }

    /// A new identifier, drawn at random.
    pub fn fresh() -> (r: Uuid)
        ensures
            is_random(r),
            r != nil_uuid(),
    {
        random_uuid()
    }

    /// The hyphenated form, in lower case.
    pub fn to_text(&self) -> (r: String)
        ensures
            r@ == uuid_chars(*self),
            reads_as(r@, *self),
    {
        hyphenated_text(*self)
    }

    /// The first eight hexadecimal digits.
    pub fn short(&self) -> (r: String)
        ensures
            r@ == short_chars(*self),
    {
        let s = simple_text(*self);
        let h = s.as_str().substring_char(0, 8);
        assert(h@ =~= simple_chars(*self).take(8));
        h.to_owned()
    }

    /// Reads an identifier from text; the error is a message.
    pub fn parse(s: &str) -> (r: Result<Uuid, String>)
        ensures
            match r {
                Ok(u) => reads_as(s@, u),
                Err(e) => uuid_parsed(s@) matches Err(m) && m == e@,
            },
    {
        parsed_uuid(s)
    }
}

/// Whether the optional identifiers are the same.
pub fn same_opt_uuid(a: Option<Uuid>, b: Option<Uuid>) -> (r: bool)
    ensures
        r == (a == b),
{
    match (a, b) {
        (Some(x), Some(y)) => x == y,
        (None, None) => true,
        _ => false,
    }
}

} // verus!
