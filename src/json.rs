//! Reading the provider's on-demand pricing documents.
use vstd::prelude::*;
use crate::errors::DataViolation;
use crate::money::{amount_of_text, lemma_amount_range, parse_amount, MAX_AMOUNT};

verus! {

/// The members of the JSON object that `text` holds, in the order the
/// parser keeps them, each value given back as JSON text; `None` when `text`
/// is not a JSON object.
pub uninterp spec fn json_object_members(text: Seq<char>) -> Option<Seq<(Seq<char>, Seq<char>)>>;

/// The string that the JSON string literal `text` denotes; `None` when
/// `text` is not one.
pub uninterp spec fn json_string_value(text: Seq<char>) -> Option<Seq<char>>;

pub open spec fn members_view(v: Seq<(String, String)>) -> Seq<(Seq<char>, Seq<char>)> {
    v.map_values(|m: (String, String)| (m.0@, m.1@))
}

/// Relies on `serde_json::from_str` parsing an object into
/// `serde_json::Map<String, Value>`, and on `Value`'s `Display` giving each
/// member's value back as JSON text.
#[verifier::external_body]
fn object_members(text: &str) -> (r: Option<Vec<(String, String)>>)
    ensures
        r is Some <==> json_object_members(text@) is Some,
        r matches Some(v) ==> members_view(v@) == json_object_members(text@).unwrap(),
{
    serde_json::from_str::<serde_json::Map<String, serde_json::Value>>(text).ok().map(
        |m| m.iter().map(|(k, v)| (k.clone(), v.to_string())).collect(),
    )
}

/// Relies on `serde_json::from_str` parsing a JSON string literal into a `String`.
#[verifier::external_body]
fn string_value(text: &str) -> (r: Option<String>)
    ensures
        r is Some <==> json_string_value(text@) is Some,
        r matches Some(s) ==> s@ == json_string_value(text@).unwrap(),
{
    serde_json::from_str::<String>(text).ok()
}

/// The value of the last member named `key`.
pub open spec fn member_value(members: Seq<(Seq<char>, Seq<char>)>, key: Seq<char>) -> Option<
    Seq<char>,
>
    decreases members.len(),
{
    if members.len() == 0 {
        None
    } else if members.last().0 == key {
        Some(members.last().1)
    } else {
        member_value(members.drop_last(), key)
    }
}

/// The JSON text of member `key` of the object `text`.
pub open spec fn json_field(text: Seq<char>, key: Seq<char>) -> Option<Seq<char>> {
    match json_object_members(text) {
        Some(members) => member_value(members, key),
        None => None,
    }
}

/// The JSON text of the one member of the object `text`; an object of any
/// other size is refused.
pub open spec fn json_sole_value(text: Seq<char>) -> Result<Seq<char>, DataViolation> {
    match json_object_members(text) {
        None => Err(DataViolation::PriceDocument),
        Some(members) => if members.len() == 1 {
            Ok(members[0].1)
        } else {
            Err(DataViolation::NotSingleEntry { count: members.len() as usize })
        },
    }
}

/// `json_field` of `json_field`.
pub open spec fn json_path2(text: Seq<char>, a: Seq<char>, b: Seq<char>) -> Option<Seq<char>> {
    match json_field(text, a) {
        Some(inner) => json_field(inner, b),
        None => None,
    }
}

/// The unit price in dollars per hour that a pricing document gives:
/// `terms.OnDemand.<sole>.priceDimensions.<sole>.pricePerUnit.USD`, where
/// each `<sole>` is the one entry of a mapping keyed by generated identifiers.
pub open spec fn on_demand_price(doc: Seq<char>) -> Result<int, DataViolation> {
    match json_path2(doc, "terms"@, "OnDemand"@) {
        None => Err(DataViolation::PriceDocument),
        Some(offers) => match json_sole_value(offers) {
            Err(e) => Err(e),
            Ok(offer) => match json_field(offer, "priceDimensions"@) {
                None => Err(DataViolation::PriceDocument),
                Some(dimensions) => match json_sole_value(dimensions) {
                    Err(e) => Err(e),
                    Ok(dimension) => match json_path2(dimension, "pricePerUnit"@, "USD"@) {
                        None => Err(DataViolation::PriceDocument),
                        Some(usd) => match json_string_value(usd) {
                            None => Err(DataViolation::PriceDocument),
                            Some(price) => match amount_of_text(price) {
                                None => Err(DataViolation::PriceDocument),
                                Some(units) => Ok(units),
                            },
                        },
                    },
                },
            },
        },
    }
}

/// The value text of member `key` of the JSON object `text`.
pub fn field(text: &str, key: &str) -> (r: Option<String>)
    ensures
        r is Some <==> json_field(text@, key@) is Some,
        r matches Some(v) ==> v@ == json_field(text@, key@).unwrap(),
{
    let members = match object_members(text) {
        Some(m) => m,
        None => {
            return None;
        },
    };
    let ghost mv = members_view(members@);
    assert(json_field(text@, key@) == member_value(mv, key@));
    let key_text = String::from_str(key);
    let mut i = members.len();
    assert(mv.take(mv.len() as int) =~= mv);
    while i > 0
        invariant
            i <= members.len(),
            mv.len() == members@.len(),
            mv == members_view(members@),
            json_field(text@, key@) == member_value(mv, key@),
            key_text@ == key@,
            member_value(mv, key@) == member_value(mv.take(i as int), key@),
        decreases i,
    {
        let ghost prefix = mv.take(i as int);
        assert(prefix.drop_last() =~= mv.take(i - 1));
        assert(prefix.last() == mv[i - 1]);
        assert(mv[i - 1] == (members@[i - 1].0@, members@[i - 1].1@));
        if members[i - 1].0 == key_text {
            assert(members@[i - 1].0@ == key@);
            assert(member_value(prefix, key@) == Some(mv[i - 1].1));
            return Some(members[i - 1].1.clone());
        }
        i = i - 1;
    }
    None
}

/// The value text of the one member of the JSON object `text`: the
/// "sole entry of a single-entry mapping", refused for any other size.
pub fn sole_value(text: &str) -> (r: Result<String, DataViolation>)
    ensures
        r matches Ok(v) ==> json_sole_value(text@) == Ok::<Seq<char>, DataViolation>(v@),
        r matches Err(e) ==> json_sole_value(text@) == Err::<Seq<char>, DataViolation>(e),
{
    match object_members(text) {
        None => Err(DataViolation::PriceDocument),
        Some(members) => {
            if members.len() == 1 {
                Ok(members[0].1.clone())
            } else {
                Err(DataViolation::NotSingleEntry { count: members.len() })
            }
        },
    }
}

/// The on-demand hourly price, in units, that a pricing document gives.
pub fn price_from_document(doc: &str) -> (r: Result<i128, DataViolation>)
    ensures
        r matches Ok(v) ==> on_demand_price(doc@) == Ok::<int, DataViolation>(v as int) && 0 <= v
            <= MAX_AMOUNT,
        r matches Err(e) ==> on_demand_price(doc@) == Err::<int, DataViolation>(e),
{
    let terms = match field(doc, "terms") {
        Some(t) => t,
        None => {
            return Err(DataViolation::PriceDocument);
        },
    };
    let offers = match field(terms.as_str(), "OnDemand") {
        Some(t) => t,
        None => {
            return Err(DataViolation::PriceDocument);
        },
    };
    let offer = sole_value(offers.as_str())?;
    let dimensions = match field(offer.as_str(), "priceDimensions") {
        Some(t) => t,
        None => {
            return Err(DataViolation::PriceDocument);
        },
    };
    let dimension = sole_value(dimensions.as_str())?;
    let per_unit = match field(dimension.as_str(), "pricePerUnit") {
        Some(t) => t,
        None => {
            return Err(DataViolation::PriceDocument);
        },
    };
    let usd = match field(per_unit.as_str(), "USD") {
        Some(t) => t,
        None => {
            return Err(DataViolation::PriceDocument);
        },
    };
    let price = match string_value(usd.as_str()) {
        Some(t) => t,
        None => {
            return Err(DataViolation::PriceDocument);
        },
    };
    proof {
        lemma_amount_range(price@);
    }
    match parse_amount(price.as_str()) {
        Some(units) => Ok(units),
        None => Err(DataViolation::PriceDocument),
    }
}

} // verus!
