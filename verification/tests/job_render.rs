//! Tests for job assembly, dimension parsing and HTML rendering.

use mailmerge::address::{Address, DecodeError, Field, ShapeError};
use mailmerge::job::{build_job, Error};
use mailmerge::num::parse_u32;
use mailmerge::render::render_html;

const ONE_RECIPIENT: &str =
    r#"[{"address_1":"1 Main St","city":"Springfield","post_code":"00001","country":"USA"}]"#;
const SENDER: &str =
    r#"{"address_1":"2 Oak Ave","city":"Shelbyville","post_code":"00002","country":"USA"}"#;

#[test]
fn parse_u32_accepts_decimal() {
    assert_eq!(parse_u32("162"), Some(162));
    assert_eq!(parse_u32("0"), Some(0));
    assert_eq!(parse_u32("+7"), Some(7));
    assert_eq!(parse_u32("4294967295"), Some(u32::MAX));
}

#[test]
fn parse_u32_rejects_bad_input() {
    assert_eq!(parse_u32(""), None);
    assert_eq!(parse_u32("+"), None);
    assert_eq!(parse_u32("12a"), None);
    assert_eq!(parse_u32("-3"), None);
    assert_eq!(parse_u32(" 1"), None);
    assert_eq!(parse_u32("4294967296"), None);
    assert_eq!(parse_u32("99999999999999999999"), None);
}

#[test]
fn build_job_uses_defaults() {
    let j = build_job(ONE_RECIPIENT, SENDER, None, None, None).unwrap();
    assert_eq!(j.width, 162);
    assert_eq!(j.height, 114);
    assert_eq!(j.output, "addresses.pdf");
    assert_eq!(j.addresses.len(), 1);
    assert_eq!(j.sender_address.address_1, "2 Oak Ave");
}

#[test]
fn build_job_takes_explicit_arguments() {
    let j = build_job(
        ONE_RECIPIENT,
        SENDER,
        Some("out.pdf".to_string()),
        Some("300"),
        Some("200"),
    )
    .unwrap();
    assert_eq!(j.width, 300);
    assert_eq!(j.height, 200);
    assert_eq!(j.output, "out.pdf");
}

#[test]
fn build_job_error_order() {
    // width is checked first, even when the sender is bad too
    assert_eq!(
        build_job(ONE_RECIPIENT, "{", None, Some("x"), None).err(),
        Some(Error::InvalidWidth)
    );
    assert_eq!(
        build_job(ONE_RECIPIENT, "{", None, None, None).err(),
        Some(Error::Sender(DecodeError::Syntax))
    );
    assert_eq!(
        build_job(ONE_RECIPIENT, SENDER, None, None, Some("x")).err(),
        Some(Error::InvalidHeight)
    );
    assert_eq!(
        build_job("not json", SENDER, None, None, None).err(),
        Some(Error::Recipients(DecodeError::Syntax))
    );
    assert_eq!(
        build_job("{}", SENDER, None, None, None).err(),
        Some(Error::Recipients(DecodeError::Shape(ShapeError::NotAnArray)))
    );
    assert_eq!(
        build_job(r#"[{"city":"X"}]"#, SENDER, None, None, None).err(),
        Some(Error::Recipients(DecodeError::Shape(ShapeError::Missing(
            Field::Address1
        ))))
    );
}

fn plain(address_1: &str, city: &str, post_code: &str, country: &str) -> Address {
    Address {
        name: None,
        address_1: address_1.to_string(),
        address_2: None,
        city: city.to_string(),
        state: None,
        post_code: post_code.to_string(),
        country: country.to_string(),
    }
}

#[test]
fn renders_example_scenario() {
    let j = build_job(ONE_RECIPIENT, SENDER, None, None, None).unwrap();
    let html = render_html(&j);
    assert!(!html.is_empty());
    assert!(html.starts_with("<!DOCTYPE html>"));
    assert!(html.ends_with("</body></html>"));
    // page size from the defaults
    assert!(html.contains("size: 162mm 114mm"));
    // one recipient block and one sender block, all fields verbatim
    for field in ["1 Main St", "Springfield", "00001", "USA"] {
        assert!(html.contains(field));
    }
    for field in ["2 Oak Ave", "Shelbyville", "00002"] {
        assert!(html.contains(field));
    }
    assert_eq!(html.matches("<div class=\"card\"").count(), 1);
}

#[test]
fn renders_fields_in_input_order() {
    let sender = plain("2 Oak Ave", "Shelbyville", "00002", "USA");
    let a = plain("1 Main St", "Springfield", "00001", "USA");
    let b = plain("9 Elm St", "Ogdenville", "00003", "USA");
    let j1 = mailmerge::job::Job {
        sender_address: sender.clone(),
        addresses: vec![a.clone(), b.clone()],
        width: 162,
        height: 114,
        output: "addresses.pdf".to_string(),
    };
    let j2 = mailmerge::job::Job {
        sender_address: sender,
        addresses: vec![b, a],
        width: 162,
        height: 114,
        output: "addresses.pdf".to_string(),
    };
    let h1 = render_html(&j1);
    let h2 = render_html(&j2);
    // both documents hold both recipients' fields
    for h in [&h1, &h2] {
        assert!(h.contains("1 Main St"));
        assert!(h.contains("9 Elm St"));
    }
    // reordering the input flips the order of the rendered blocks
    assert!(h1.find("1 Main St").unwrap() < h1.find("9 Elm St").unwrap());
    assert!(h2.find("9 Elm St").unwrap() < h2.find("1 Main St").unwrap());
    // and changes nothing else: same cards, reordered
    let cards1: Vec<&str> = h1.split("<div class=\"card\"").collect();
    let cards2: Vec<&str> = h2.split("<div class=\"card\"").collect();
    assert_eq!(cards1.len(), 3);
    assert_eq!(cards1[1], cards2[2].trim_end_matches("</body></html>"));
}

#[test]
fn absent_optionals_render_nothing() {
    let j = build_job(ONE_RECIPIENT, SENDER, None, None, None).unwrap();
    let html = render_html(&j);
    assert!(!html.contains("null"));
    // exactly two <p> lines per address times four required fields
    assert_eq!(html.matches("<p>").count(), 8);
}

#[test]
fn present_optionals_render_lines() {
    let mut a = plain("1 Main St", "Springfield", "00001", "USA");
    a.name = Some("Ann Example".to_string());
    a.state = Some("IL".to_string());
    let j = mailmerge::job::Job {
        sender_address: plain("2 Oak Ave", "Shelbyville", "00002", "USA"),
        addresses: vec![a],
        width: 10,
        height: 20,
        output: "x.pdf".to_string(),
    };
    let html = render_html(&j);
    assert!(html.contains("<p>Ann Example</p>"));
    assert!(html.contains("<p>IL</p>"));
    assert!(html.contains("size: 10mm 20mm"));
}
