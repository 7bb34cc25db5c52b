//! Tests for JSON decoding into addresses.

use mailmerge::address::{decode_address, decode_addresses, DecodeError, Field, ShapeError};

#[test]
fn decodes_minimal_sender() {
    let a = decode_address(
        r#"{"address_1":"2 Oak Ave","city":"Shelbyville","post_code":"00002","country":"USA"}"#,
    )
    .unwrap();
    assert_eq!(a.name, None);
    assert_eq!(a.address_1, "2 Oak Ave");
    assert_eq!(a.address_2, None);
    assert_eq!(a.city, "Shelbyville");
    assert_eq!(a.state, None);
    assert_eq!(a.post_code, "00002");
    assert_eq!(a.country, "USA");
}

#[test]
fn decodes_all_fields() {
    let a = decode_address(
        r#"{"name":"Ann Example","address_1":"1 Main St","address_2":"Apt 9","city":"Springfield","state":"IL","post_code":"62701","country":"USA"}"#,
    )
    .unwrap();
    assert_eq!(a.name.as_deref(), Some("Ann Example"));
    assert_eq!(a.address_2.as_deref(), Some("Apt 9"));
    assert_eq!(a.state.as_deref(), Some("IL"));
}

#[test]
fn null_optional_is_none() {
    let a = decode_address(
        r#"{"name":null,"address_1":"1 Main St","city":"X","post_code":"1","country":"Y"}"#,
    )
    .unwrap();
    assert_eq!(a.name, None);
}

#[test]
fn null_required_is_wrong_type() {
    let r = decode_address(
        r#"{"address_1":null,"city":"X","post_code":"1","country":"Y"}"#,
    );
    assert_eq!(
        r.err(),
        Some(DecodeError::Shape(ShapeError::WrongType(Field::Address1)))
    );
}

#[test]
fn missing_required_field() {
    let r = decode_address(r#"{"city":"Springfield","post_code":"00001","country":"USA"}"#);
    assert_eq!(
        r.err(),
        Some(DecodeError::Shape(ShapeError::Missing(Field::Address1)))
    );
}

#[test]
fn duplicate_field_is_rejected() {
    let r = decode_address(
        r#"{"address_1":"A","address_1":"B","city":"X","post_code":"1","country":"Y"}"#,
    );
    assert_eq!(
        r.err(),
        Some(DecodeError::Shape(ShapeError::Duplicate(Field::Address1)))
    );
}

#[test]
fn wrong_type_field_is_rejected() {
    let r = decode_address(r#"{"address_1":"A","city":7,"post_code":"1","country":"Y"}"#);
    assert_eq!(
        r.err(),
        Some(DecodeError::Shape(ShapeError::WrongType(Field::City)))
    );
}

#[test]
fn sender_must_be_object() {
    let r = decode_address(r#"[1,2]"#);
    assert_eq!(r.err(), Some(DecodeError::Shape(ShapeError::NotAnObject)));
}

#[test]
fn malformed_json_is_syntax_error() {
    assert_eq!(decode_address("{").err(), Some(DecodeError::Syntax));
    assert_eq!(decode_address("").err(), Some(DecodeError::Syntax));
    assert_eq!(decode_address("{} x").err(), Some(DecodeError::Syntax));
    assert_eq!(
        decode_address("{\"address_1\":\"a\nb\",\"city\":\"X\",\"post_code\":\"1\",\"country\":\"Y\"}")
            .err(),
        Some(DecodeError::Syntax)
    );
}

#[test]
fn unknown_members_are_ignored() {
    let a = decode_address(
        r#"{"address_1":"A","city":"X","post_code":"1","country":"Y","extra":[1,true,null,{"k":-2.5e3}],"more":"text"}"#,
    )
    .unwrap();
    assert_eq!(a.address_1, "A");
    assert_eq!(a.country, "Y");
}

#[test]
fn escapes_are_decoded() {
    let a = decode_address(
        r#"{"address_1":"a\n\tb\\\"/c\/","city":"ABC","post_code":"é","country":"😀"}"#,
    )
    .unwrap();
    assert_eq!(a.address_1, "a\n\tb\\\"/c/");
    assert_eq!(a.city, "ABC");
    assert_eq!(a.post_code, "\u{e9}");
    assert_eq!(a.country, "\u{1F600}");
}

#[test]
fn escapes_match_reference_parser() {
    let text = r#"{"address_1":"A \b\f\r q\/","city":"X","post_code":"𝄞","country":"Y"}"#;
    let ours = decode_address(text).unwrap();
    let theirs: serde_json::Value = serde_json::from_str(text).unwrap();
    assert_eq!(ours.address_1, theirs["address_1"].as_str().unwrap());
    assert_eq!(ours.post_code, theirs["post_code"].as_str().unwrap());
}

#[test]
fn lone_surrogate_is_rejected() {
    let r = decode_address(
        r#"{"address_1":"\uD800","city":"X","post_code":"1","country":"Y"}"#,
    );
    assert_eq!(r.err(), Some(DecodeError::Syntax));
}

#[test]
fn decodes_address_array_in_order() {
    let aa = decode_addresses(
        r#" [ {"address_1":"1 Main St","city":"Springfield","post_code":"00001","country":"USA"},
             {"address_1":"9 Elm St","city":"Ogdenville","post_code":"00003","country":"USA"} ] "#,
    )
    .unwrap();
    assert_eq!(aa.len(), 2);
    assert_eq!(aa[0].address_1, "1 Main St");
    assert_eq!(aa[1].address_1, "9 Elm St");
}

#[test]
fn empty_array_decodes_empty() {
    let aa = decode_addresses("[]").unwrap();
    assert_eq!(aa.len(), 0);
}

#[test]
fn recipients_must_be_array() {
    let r = decode_addresses(r#"{"address_1":"A"}"#);
    assert_eq!(r.err(), Some(DecodeError::Shape(ShapeError::NotAnArray)));
}

#[test]
fn bad_element_aborts_decode() {
    let r = decode_addresses(
        r#"[{"address_1":"A","city":"X","post_code":"1","country":"Y"}, 5]"#,
    );
    assert_eq!(r.err(), Some(DecodeError::Shape(ShapeError::NotAnObject)));
}

#[test]
fn number_syntax_is_checked() {
    // well-formed numbers parse; the elements then fail the shape check
    assert_eq!(
        decode_addresses("[0, -1, 2.5, 1e3, 1.5E-2, 0.0]").err(),
        Some(DecodeError::Shape(ShapeError::NotAnObject))
    );
    assert_eq!(decode_addresses("[01]").err(), Some(DecodeError::Syntax));
    assert_eq!(decode_addresses("[1.]").err(), Some(DecodeError::Syntax));
    assert_eq!(decode_addresses("[.5]").err(), Some(DecodeError::Syntax));
    assert_eq!(decode_addresses("[1e]").err(), Some(DecodeError::Syntax));
    assert_eq!(decode_addresses("[+1]").err(), Some(DecodeError::Syntax));
}
