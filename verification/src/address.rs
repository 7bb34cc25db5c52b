//! The address data model, and decoding addresses from JSON text.
//!
//! A JSON object fits the address schema when its `address_1`, `city`,
//! `post_code` and `country` members are strings and its `name`, `address_2`
//! and `state` members, where present, are strings or `null`. Unknown members
//! are ignored; a known member given twice, or with any other type, is
//! rejected, as is a missing required member.

use vstd::prelude::*;

use crate::json::{
    arr_view, json_doc, json_view, lemma_arr_view_index, lemma_arr_view_len,
    lemma_members_view_index, lemma_members_view_len, members_view, Json, JsonV,
};
use crate::parser::decode_json;
use crate::text::{chars_eq_str, chars_to_string};

verus! {

/// One postal address.
#[derive(Clone)]
pub struct Address {
    pub name: Option<String>,
    pub address_1: String,
    pub address_2: Option<String>,
    pub city: String,
    pub state: Option<String>,
    pub post_code: String,
    pub country: String,
}

/// Model of an [`Address`].
pub struct AddressV {
    pub name: Option<Seq<char>>,
    pub address_1: Seq<char>,
    pub address_2: Option<Seq<char>>,
    pub city: Seq<char>,
    pub state: Option<Seq<char>>,
    pub post_code: Seq<char>,
    pub country: Seq<char>,
}

/// Model of an optional string.
pub open spec fn opt_view(o: Option<String>) -> Option<Seq<char>> {
    match o {
        Some(s) => Some(s@),
        None => None,
    }
}

impl View for Address {
    type V = AddressV;

    open spec fn view(&self) -> AddressV {
        AddressV {
            name: opt_view(self.name),
            address_1: self.address_1@,
            address_2: opt_view(self.address_2),
            city: self.city@,
            state: opt_view(self.state),
            post_code: self.post_code@,
            country: self.country@,
        }
    }
}

/// Model of a recipient list.
pub open spec fn addrs_view(aa: Seq<Address>) -> Seq<AddressV> {
    Seq::new(aa.len(), |i: int| aa[i]@)
}

/// A member of the address schema.
#[derive(Clone, Copy, PartialEq, Eq, Structural, Debug)]
pub enum Field {
    Name,
    Address1,
    Address2,
    City,
    State,
    PostCode,
    Country,
}

/// Why a JSON value does not fit the address schema.
#[derive(Clone, Copy, PartialEq, Eq, Structural, Debug)]
pub enum ShapeError {
    /// The value that should hold one address is not an object.
    NotAnObject,
    /// The value that should hold the recipients is not an array.
    NotAnArray,
    /// A required member is missing.
    Missing(Field),
    /// A member holds a value of the wrong type.
    WrongType(Field),
    /// A member appears more than once.
    Duplicate(Field),
}

/// Why a JSON payload does not decode.
#[derive(Clone, Copy, PartialEq, Eq, Structural, Debug)]
pub enum DecodeError {
    /// The payload is not well-formed JSON.
    Syntax,
    /// The payload is well-formed JSON of the wrong shape.
    Shape(ShapeError),
}

/// Result of looking a key up among an object's members.
pub enum Lookup {
    Missing,
    Duplicate,
    Found(JsonV),
}

/// Looks `key` up among the members at or after `i`: its value when it
/// appears exactly once there.
pub open spec fn lookup_from(ms: Seq<(Seq<char>, JsonV)>, key: Seq<char>, i: int) -> Lookup
    decreases ms.len() - i,
{
    if !(0 <= i < ms.len()) {
        Lookup::Missing
    } else if ms[i].0 == key {
        match lookup_from(ms, key, i + 1) {
            Lookup::Missing => Lookup::Found(ms[i].1),
            _ => Lookup::Duplicate,
        }
    } else {
        lookup_from(ms, key, i + 1)
    }
}

/// A required string member.
pub open spec fn req_field(ms: Seq<(Seq<char>, JsonV)>, key: Seq<char>, f: Field) -> Result<
    Seq<char>,
    ShapeError,
> {
    match lookup_from(ms, key, 0) {
        Lookup::Missing => Err(ShapeError::Missing(f)),
        Lookup::Duplicate => Err(ShapeError::Duplicate(f)),
        Lookup::Found(v) => match v {
            JsonV::Str(t) => Ok(t),
            _ => Err(ShapeError::WrongType(f)),
        },
    }
}

/// An optional string member: absent or `null` means `None`.
pub open spec fn opt_field(ms: Seq<(Seq<char>, JsonV)>, key: Seq<char>, f: Field) -> Result<
    Option<Seq<char>>,
    ShapeError,
> {
    match lookup_from(ms, key, 0) {
        Lookup::Missing => Ok(None),
        Lookup::Duplicate => Err(ShapeError::Duplicate(f)),
        Lookup::Found(v) => match v {
            JsonV::Null => Ok(None),
            JsonV::Str(t) => Ok(Some(t)),
            _ => Err(ShapeError::WrongType(f)),
        },
    }
}

/// The address denoted by a JSON value, or why it has the wrong shape.
pub open spec fn spec_address_of(v: JsonV) -> Result<AddressV, ShapeError> {
    match v {
        JsonV::Obj(ms) => match opt_field(ms, "name"@, Field::Name) {
            Err(e) => Err(e),
            Ok(name) => match req_field(ms, "address_1"@, Field::Address1) {
                Err(e) => Err(e),
                Ok(address_1) => match opt_field(ms, "address_2"@, Field::Address2) {
                    Err(e) => Err(e),
                    Ok(address_2) => match req_field(ms, "city"@, Field::City) {
                        Err(e) => Err(e),
                        Ok(city) => match opt_field(ms, "state"@, Field::State) {
                            Err(e) => Err(e),
                            Ok(state) => match req_field(ms, "post_code"@, Field::PostCode) {
                                Err(e) => Err(e),
                                Ok(post_code) => match req_field(ms, "country"@, Field::Country) {
                                    Err(e) => Err(e),
                                    Ok(country) => Ok(
                                        AddressV {
                                            name,
                                            address_1,
                                            address_2,
                                            city,
                                            state,
                                            post_code,
                                            country,
                                        },
                                    ),
                                },
                            },
                        },
                    },
                },
            },
        },
        _ => Err(ShapeError::NotAnObject),
    }
}

/// Where a key was found among an object's members.
enum Hit {
    Missing,
    Duplicate,
    At(usize),
}

/// Looks a key up, mirroring [`lookup_from`].
fn find_from(ms: &Vec<(Vec<char>, Json)>, key: &str, i: usize) -> (r: Hit)
    requires
        i <= ms@.len(),
    ensures
        match r {
            Hit::Missing => lookup_from(members_view(ms@), key@, i as int) is Missing,
            Hit::Duplicate => lookup_from(members_view(ms@), key@, i as int) is Duplicate,
            Hit::At(k) => i <= k < ms@.len() && ms@[k as int].0@ == key@ && lookup_from(
                members_view(ms@),
                key@,
                i as int,
            ) == Lookup::Found(json_view(ms@[k as int].1)),
        },
    decreases ms@.len() - i,
{
    proof {
        lemma_members_view_len(ms@);
    }
    if i >= ms.len() {
        return Hit::Missing;
    }
    proof {
        lemma_members_view_index(ms@, i as int);
    }
    let eq = chars_eq_str(&ms[i].0, key);
    let rest = find_from(ms, key, i + 1);
    if eq {
        match rest {
            Hit::Missing => Hit::At(i),
            _ => Hit::Duplicate,
        }
    } else {
        rest
    }
}

/// Reads a required string member, mirroring [`req_field`].
fn get_req(ms: &Vec<(Vec<char>, Json)>, key: &str, f: Field) -> (r: Result<String, ShapeError>)
    ensures
        match r {
            Ok(t) => req_field(members_view(ms@), key@, f) == Ok::<Seq<char>, ShapeError>(t@),
            Err(e) => req_field(members_view(ms@), key@, f) == Err::<Seq<char>, ShapeError>(e),
        },
{
    match find_from(ms, key, 0) {
        Hit::Missing => Err(ShapeError::Missing(f)),
        Hit::Duplicate => Err(ShapeError::Duplicate(f)),
        Hit::At(k) => match &ms[k].1 {
            Json::Str(t) => Ok(chars_to_string(t)),
            _ => Err(ShapeError::WrongType(f)),
        },
    }
}

/// Reads an optional string member, mirroring [`opt_field`].
fn get_opt(ms: &Vec<(Vec<char>, Json)>, key: &str, f: Field) -> (r: Result<
    Option<String>,
    ShapeError,
>)
    ensures
        match r {
            Ok(t) => opt_field(members_view(ms@), key@, f) == Ok::<Option<Seq<char>>, ShapeError>(
                opt_view(t),
            ),
            Err(e) => opt_field(members_view(ms@), key@, f) == Err::<Option<Seq<char>>, ShapeError>(
                e,
            ),
        },
{
    match find_from(ms, key, 0) {
        Hit::Missing => Ok(None),
        Hit::Duplicate => Err(ShapeError::Duplicate(f)),
        Hit::At(k) => match &ms[k].1 {
            Json::Null => Ok(None),
            Json::Str(t) => Ok(Some(chars_to_string(t))),
            _ => Err(ShapeError::WrongType(f)),
        },
    }
}

/// Converts a decoded JSON value into an address.
pub fn address_of_json(j: &Json) -> (r: Result<Address, ShapeError>)
    ensures
        match r {
            Ok(a) => spec_address_of(j@) == Ok::<AddressV, ShapeError>(a@),
            Err(e) => spec_address_of(j@) == Err::<AddressV, ShapeError>(e),
        },
{
    match j {
        Json::Obj(ms) => {
            let name = match get_opt(ms, "name", Field::Name) {
                Ok(x) => x,
                Err(e) => {
                    return Err(e);
                },
            };
            let address_1 = match get_req(ms, "address_1", Field::Address1) {
                Ok(x) => x,
                Err(e) => {
                    return Err(e);
                },
            };
            let address_2 = match get_opt(ms, "address_2", Field::Address2) {
                Ok(x) => x,
                Err(e) => {
                    return Err(e);
                },
            };
            let city = match get_req(ms, "city", Field::City) {
                Ok(x) => x,
                Err(e) => {
                    return Err(e);
                },
            };
            let state = match get_opt(ms, "state", Field::State) {
                Ok(x) => x,
                Err(e) => {
                    return Err(e);
                },
            };
            let post_code = match get_req(ms, "post_code", Field::PostCode) {
                Ok(x) => x,
                Err(e) => {
                    return Err(e);
                },
            };
            let country = match get_req(ms, "country", Field::Country) {
                Ok(x) => x,
                Err(e) => {
                    return Err(e);
                },
            };
            Ok(Address { name, address_1, address_2, city, state, post_code, country })
        },
        _ => Err(ShapeError::NotAnObject),
    }
}

/// The address denoted by JSON text.
pub open spec fn spec_decode_address(s: Seq<char>) -> Result<AddressV, DecodeError> {
    match json_doc(s) {
        Some(v) => match spec_address_of(v) {
            Ok(a) => Ok(a),
            Err(e) => Err(DecodeError::Shape(e)),
        },
        None => Err(DecodeError::Syntax),
    }
}

/// Decodes one address from JSON text.
pub fn decode_address(s: &str) -> (r: Result<Address, DecodeError>)
    ensures
        match r {
            Ok(a) => spec_decode_address(s@) == Ok::<AddressV, DecodeError>(a@),
            Err(e) => spec_decode_address(s@) == Err::<AddressV, DecodeError>(e),
        },
{
    match decode_json(s) {
        Some(v) => match address_of_json(&v) {
            Ok(a) => Ok(a),
            Err(e) => Err(DecodeError::Shape(e)),
        },
        None => Err(DecodeError::Syntax),
    }
}

/// The addresses denoted by the array elements at or after `i`.
pub open spec fn spec_addresses_from(items: Seq<JsonV>, i: int) -> Result<Seq<AddressV>, ShapeError>
    decreases items.len() - i,
{
    if !(0 <= i < items.len()) {
        Ok(Seq::empty())
    } else {
        match spec_address_of(items[i]) {
            Ok(a) => match spec_addresses_from(items, i + 1) {
                Ok(rest) => Ok(seq![a] + rest),
                Err(e) => Err(e),
            },
            Err(e) => Err(e),
        }
    }
}

/// The recipient list denoted by JSON text.
pub open spec fn spec_decode_addresses(s: Seq<char>) -> Result<Seq<AddressV>, DecodeError> {
    match json_doc(s) {
        Some(v) => match v {
            JsonV::Arr(items) => match spec_addresses_from(items, 0) {
                Ok(aa) => Ok(aa),
                Err(e) => Err(DecodeError::Shape(e)),
            },
            _ => Err(DecodeError::Shape(ShapeError::NotAnArray)),
        },
        None => Err(DecodeError::Syntax),
    }
}

/// Converts the array elements at or after `i`, mirroring
/// [`spec_addresses_from`].
fn addresses_from(items: &Vec<Json>, i: usize) -> (r: Result<Vec<Address>, ShapeError>)
    requires
        i <= items@.len(),
    ensures
        match r {
            Ok(aa) => spec_addresses_from(arr_view(items@), i as int) == Ok::<
                Seq<AddressV>,
                ShapeError,
            >(addrs_view(aa@)),
            Err(e) => spec_addresses_from(arr_view(items@), i as int) == Err::<
                Seq<AddressV>,
                ShapeError,
            >(e),
        },
    decreases items@.len() - i,
{
    proof {
        lemma_arr_view_len(items@);
    }
    if i >= items.len() {
        let aa: Vec<Address> = Vec::new();
        proof {
            assert(addrs_view(aa@) =~= Seq::<AddressV>::empty());
        }
        return Ok(aa);
    }
    proof {
        lemma_arr_view_index(items@, i as int);
    }
    match address_of_json(&items[i]) {
        Ok(a) => match addresses_from(items, i + 1) {
            Ok(mut aa) => {
                let ghost av = a@;
                let ghost rest = aa@;
                aa.insert(0, a);
                proof {
                    assert(addrs_view(aa@) =~= seq![av] + addrs_view(rest));
                }
                Ok(aa)
            },
            Err(e) => Err(e),
        },
        Err(e) => Err(e),
    }
}

/// Decodes the array of recipient addresses from JSON text.
pub fn decode_addresses(s: &str) -> (r: Result<Vec<Address>, DecodeError>)
    ensures
        match r {
            Ok(aa) => spec_decode_addresses(s@) == Ok::<Seq<AddressV>, DecodeError>(
                addrs_view(aa@),
            ),
            Err(e) => spec_decode_addresses(s@) == Err::<Seq<AddressV>, DecodeError>(e),
        },
{
    match decode_json(s) {
        Some(v) => match v {
            Json::Arr(items) => match addresses_from(&items, 0) {
                Ok(aa) => Ok(aa),
                Err(e) => Err(DecodeError::Shape(e)),
            },
            _ => Err(DecodeError::Shape(ShapeError::NotAnArray)),
        },
        None => Err(DecodeError::Syntax),
    }
}

} // verus!
