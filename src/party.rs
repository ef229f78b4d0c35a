//! Parties (legal entities, businesses, persons) and their locations: descriptive data
//! attached to accounts.
use crate::commodity::Amount;
use vstd::prelude::*;
use vstd::string::*;

verus! {

/// Whether `s` is exactly `n` ASCII digits.
pub open spec fn is_digits(s: Seq<char>, n: nat) -> bool {
    s.len() == n && forall|i: int| 0 <= i < s.len() ==> '0' <= #[trigger] s[i] <= '9'
}

/// Whether `s` is exactly `n` ASCII capital letters.
pub open spec fn is_capitals(s: Seq<char>, n: nat) -> bool {
    s.len() == n && forall|i: int| 0 <= i < s.len() ==> 'A' <= #[trigger] s[i] <= 'Z'
}

fn check_chars(s: &str, n: usize, lo: char, hi: char) -> (r: bool)
    ensures
        r == (s@.len() == n && forall|i: int| 0 <= i < s@.len() ==> lo <= #[trigger] s@[i] <= hi),
{
    let len = s.unicode_len();
    if len != n {
        return false;
    }
    let mut i: usize = 0;
    while i < len
        invariant
            len == s@.len(),
            i <= len,
            forall|j: int| 0 <= j < i ==> lo <= #[trigger] s@[j] <= hi,
        decreases len - i,
    {
        let c = s.get_char(i);
        if !(lo <= c && c <= hi) {
            return false;
        }
        i = i + 1;
    }
    true
}

/// ISO 3166 two-letter country code.
#[derive(Clone, Debug)]
pub struct CountryCode(pub String);

impl CountryCode {
    /// Accepts exactly two capital letters.
    pub fn parse(s: &str) -> (r: Option<CountryCode>)
        ensures
            r is Some <==> is_capitals(s@, 2),
            r matches Some(c) ==> c.0@ == s@,
    {
        if check_chars(s, 2, 'A', 'Z') {
            Some(CountryCode(s.to_string()))
        } else {
            None
        }
    }
}

/// GS1 Global Location Number: thirteen digits.
#[derive(Clone, Debug)]
pub struct GlobalLocationNumber(pub String);

impl GlobalLocationNumber {
    /// Accepts exactly thirteen digits.
    pub fn parse(s: &str) -> (r: Option<GlobalLocationNumber>)
        ensures
            r is Some <==> is_digits(s@, 13),
            r matches Some(g) ==> g.0@ == s@,
    {
        if check_chars(s, 13, '0', '9') {
            Some(GlobalLocationNumber(s.to_string()))
        } else {
            None
        }
    }
}

/// International Code Designator (ISO/IEC 6523-1): four digits.
#[derive(Clone, Debug)]
pub struct InternationalCodeDesignator(pub String);

impl InternationalCodeDesignator {
    /// Accepts exactly four digits.
    pub fn parse(s: &str) -> (r: Option<InternationalCodeDesignator>)
        ensures
            r is Some <==> is_digits(s@, 4),
            r matches Some(c) ==> c.0@ == s@,
    {
        if check_chars(s, 4, '0', '9') {
            Some(InternationalCodeDesignator(s.to_string()))
        } else {
            None
        }
    }
}

/// Data Universal Numbering System number: nine digits.
#[derive(Clone, Debug)]
pub struct DunsNumber(pub String);

impl DunsNumber {
    /// Accepts exactly nine digits.
    pub fn parse(s: &str) -> (r: Option<DunsNumber>)
        ensures
            r is Some <==> is_digits(s@, 9),
            r matches Some(d) ==> d.0@ == s@,
    {
        if check_chars(s, 9, '0', '9') {
            Some(DunsNumber(s.to_string()))
        } else {
            None
        }
    }
}

/// Legal Entity Identifier (ISO 17442-1).
#[derive(Clone, Debug)]
pub struct LegalEntityId(pub String);

/// International Standard Industrial Classification of All Economic Activities.
#[derive(Clone, Debug)]
pub struct Isic(pub String);

/// Identifies a person.
#[derive(Clone, Debug)]
pub struct PersonId(pub String);

/// Identifies a party.
#[derive(Clone, Debug)]
pub enum PartyId {
    LegalEntity(LegalEntityId),
    Business(DunsNumber),
    Person(PersonId),
}

/// A point on the WGS-84 globe; latitude and longitude in degrees, uncertainty and
/// altitude in metres.
#[derive(Clone, Debug)]
pub struct GeoLocation {
    pub lat: Amount,
    pub long: Amount,
    pub uncertainty: Option<Amount>,
    pub altitude: Option<Amount>,
}

/// A postal address.
#[derive(Clone, Debug)]
pub struct Address {
    pub po_box: Option<String>,
    pub street_number: String,
    pub street_name: String,
    pub unit_number: Option<String>,
    pub neighborhood_or_district: Option<String>,
    pub city_or_town: String,
    pub province_or_state: String,
    pub postal_code: String,
    pub country: CountryCode,
    pub gln: Option<GlobalLocationNumber>,
    pub geo: Option<GeoLocation>,
}

/// A location given one of three ways.
#[derive(Clone, Debug)]
pub enum Location {
    Address(Address),
    Gln(GlobalLocationNumber),
    Geo(GeoLocation),
}

/// A party with its mailing address.
#[derive(Clone, Debug)]
pub struct Party {
    pub id: PartyId,
    pub active: bool,
    pub name: String,
    pub notes: String,
    pub mailing_address: Address,
}

} // verus!
