use hostinfo::error::DomainError;
use hostinfo::host::{get_host_info, HostFacts, HostInfo};
use hostinfo::json::{decimal_text, error_body, host_info_body, join, quote};
use hostinfo::route::{Method, RouteDescriptor};
use hostinfo::schema::{PrimitiveType, ResponseSchema};
use hostinfo::ui::{escape_html, UiMount};

#[test]
fn scalar_and_object_shapes() {
    let text = ResponseSchema::scalar(PrimitiveType::Text);
    assert!(text.is_scalar());
    assert_eq!(text.scalar_kind(), Some(PrimitiveType::Text));
    assert_eq!(text.field_count(), 0);
    assert_eq!(text.to_json(), "{\"type\":\"string\"}");
    let empty = ResponseSchema::object();
    assert!(!empty.is_scalar());
    assert_eq!(empty.field_count(), 0);
    assert_eq!(empty.to_json(), "{\"type\":\"object\",\"required\":[],\"properties\":{}}");
    assert!(!text.same_shape(&empty));
}

#[test]
fn declaring_a_field_twice_replaces_its_type_in_place() {
    let shape = ResponseSchema::object()
        .with_field("a".to_string(), PrimitiveType::Text)
        .with_field("b".to_string(), PrimitiveType::Boolean)
        .with_field("a".to_string(), PrimitiveType::Int64);
    assert_eq!(shape.field_count(), 2);
    assert_eq!(shape.field_kind(&"a".to_string()), Some(PrimitiveType::Int64));
    assert_eq!(shape.field_kind(&"b".to_string()), Some(PrimitiveType::Boolean));
    assert_eq!(shape.field_kind(&"c".to_string()), None);
    assert_eq!(
        shape.to_json(),
        "{\"type\":\"object\",\"required\":[\"a\",\"b\"],\"properties\":{\"a\":{\"type\":\"integer\",\"format\":\"int64\"},\"b\":{\"type\":\"boolean\"}}}"
    );
}

#[test]
fn a_field_on_a_scalar_makes_an_object() {
    let shape = ResponseSchema::scalar(PrimitiveType::UInt64).with_field("n".to_string(), PrimitiveType::UInt64);
    assert!(!shape.is_scalar());
    assert_eq!(shape.field_count(), 1);
    assert_eq!(shape.field_kind(&"n".to_string()), Some(PrimitiveType::UInt64));
}

#[test]
fn same_shape_is_structural() {
    let a = ResponseSchema::object()
        .with_field("x".to_string(), PrimitiveType::UInt32)
        .with_field("y".to_string(), PrimitiveType::UInt32);
    let b = ResponseSchema::object()
        .with_field("x".to_string(), PrimitiveType::UInt32)
        .with_field("y".to_string(), PrimitiveType::UInt32);
    let swapped = ResponseSchema::object()
        .with_field("y".to_string(), PrimitiveType::UInt32)
        .with_field("x".to_string(), PrimitiveType::UInt32);
    let other_type = ResponseSchema::object()
        .with_field("x".to_string(), PrimitiveType::UInt32)
        .with_field("y".to_string(), PrimitiveType::UInt64);
    assert!(a.same_shape(&b));
    assert!(a.same_shape(&a.clone()));
    assert!(!a.same_shape(&swapped));
    assert!(!a.same_shape(&other_type));
    assert!(!a.same_shape(&ResponseSchema::object().with_field("x".to_string(), PrimitiveType::UInt32)));
    assert!(ResponseSchema::scalar(PrimitiveType::Text).same_shape(&ResponseSchema::scalar(PrimitiveType::Text)));
    assert!(!ResponseSchema::scalar(PrimitiveType::Text).same_shape(&ResponseSchema::scalar(PrimitiveType::Boolean)));
}

#[test]
fn primitive_schemas() {
    assert_eq!(
        ResponseSchema::scalar(PrimitiveType::UInt32).to_json(),
        "{\"type\":\"integer\",\"format\":\"uint32\",\"minimum\":0}"
    );
    assert_eq!(
        ResponseSchema::scalar(PrimitiveType::UInt64).to_json(),
        "{\"type\":\"integer\",\"format\":\"uint64\",\"minimum\":0}"
    );
    assert_eq!(ResponseSchema::scalar(PrimitiveType::Int64).to_json(), "{\"type\":\"integer\",\"format\":\"int64\"}");
    assert_eq!(ResponseSchema::scalar(PrimitiveType::Boolean).to_json(), "{\"type\":\"boolean\"}");
}

#[test]
fn descriptor_accessors() {
    let plain = RouteDescriptor::new("/x".to_string(), Method::Patch, ResponseSchema::scalar(PrimitiveType::Text));
    assert_eq!(plain.path(), "/x");
    assert_eq!(plain.method(), Method::Patch);
    assert_eq!(plain.summary(), None);
    let told = plain.clone().with_summary("An x".to_string());
    assert_eq!(told.summary().map(|s| s.as_str()), Some("An x"));
    assert_eq!(told.path(), "/x");
    assert!(told.same_route(&plain));
    let elsewhere = RouteDescriptor::new("/y".to_string(), Method::Patch, ResponseSchema::scalar(PrimitiveType::Text));
    let otherwise = RouteDescriptor::new("/x".to_string(), Method::Get, ResponseSchema::scalar(PrimitiveType::Text));
    assert!(!plain.same_route(&elsewhere));
    assert!(!plain.same_route(&otherwise));
}

#[test]
fn method_names() {
    let all = [
        (Method::Get, "GET", "get"),
        (Method::Post, "POST", "post"),
        (Method::Put, "PUT", "put"),
        (Method::Delete, "DELETE", "delete"),
        (Method::Patch, "PATCH", "patch"),
        (Method::Head, "HEAD", "head"),
        (Method::Options, "OPTIONS", "options"),
    ];
    for (method, name, key) in all {
        assert_eq!(method.name(), name);
        assert_eq!(method.key(), key);
    }
}

#[test]
fn provider_builds_the_payload() {
    let info = get_host_info(HostFacts { hostname: "caf\u{e9}".as_bytes().to_vec(), pid: 12, uptime: Some(0) });
    assert_eq!(info, Ok(HostInfo { hostname: "caf\u{e9}".to_string(), pid: 12, uptime: 0 }));
    assert_eq!(info.unwrap().to_json(), "{\"hostname\":\"caf\u{e9}\",\"pid\":12,\"uptime\":0}");
}

#[test]
fn provider_accepts_an_empty_hostname() {
    let info = get_host_info(HostFacts { hostname: Vec::new(), pid: 1, uptime: Some(5) });
    assert_eq!(info, Ok(HostInfo { hostname: String::new(), pid: 1, uptime: 5 }));
}

#[test]
fn provider_errors() {
    let undecodable = get_host_info(HostFacts { hostname: vec![0xed, 0xa0, 0x80], pid: 1, uptime: Some(5) });
    assert_eq!(
        undecodable,
        Err(DomainError::HostnameDecodeError { message: "hostname does not parse as UTF-8".to_string() })
    );
    let error = undecodable.unwrap_err();
    assert!(!error.halts_startup());
    assert_eq!(error.message(), "hostname does not parse as UTF-8");
    let no_uptime = get_host_info(HostFacts { hostname: b"h".to_vec(), pid: 1, uptime: None });
    assert_eq!(no_uptime, Err(DomainError::UptimeUnavailableError));
    let error = no_uptime.unwrap_err();
    assert!(!error.halts_startup());
    assert_eq!(error.message(), "uptime is not available on this host");
}

#[test]
fn quote_writes_a_json_string_literal() {
    assert_eq!(quote("plain"), "\"plain\"");
    assert_eq!(quote(""), "\"\"");
    assert_eq!(quote("a\"b\\c\n"), "\"a\\\"b\\\\c\\n\"");
    assert_eq!(quote("\u{1}"), "\"\\u0001\"");
    let back: String = serde_json::from_str(&quote("t\u{e4}st\t\u{1f600}")).unwrap();
    assert_eq!(back, "t\u{e4}st\t\u{1f600}");
}

#[test]
fn decimal_text_values() {
    assert_eq!(decimal_text(0), "0");
    assert_eq!(decimal_text(7), "7");
    assert_eq!(decimal_text(10), "10");
    assert_eq!(decimal_text(4096), "4096");
    assert_eq!(decimal_text(1234567890), "1234567890");
    assert_eq!(decimal_text(u64::MAX), "18446744073709551615");
}

#[test]
fn join_puts_the_separator_between_neighbours() {
    assert_eq!(join(&Vec::new(), ","), "");
    assert_eq!(join(&vec!["a".to_string()], ","), "a");
    assert_eq!(join(&vec!["a".to_string(), "b".to_string(), "".to_string()], ", "), "a, b, ");
}

#[test]
fn small_bodies() {
    assert_eq!(host_info_body("n", 1, 2), "{\"hostname\":\"n\",\"pid\":1,\"uptime\":2}");
    assert_eq!(error_body("went \"wrong\""), "{\"error\":\"went \\\"wrong\\\"\"}");
}

#[test]
fn html_escaping() {
    assert_eq!(escape_html("../openapi.json"), "../openapi.json");
    assert_eq!(escape_html("a&b<c>\"d'"), "a&amp;b&lt;c&gt;&quot;d&#39;");
    assert_eq!(escape_html(""), "");
    assert_eq!(escape_html("\u{fc}ber/\u{1f600}"), "\u{fc}ber/\u{1f600}");
}

#[test]
fn ui_page_holds_the_escaped_url() {
    let ui = UiMount::mount("/docs/".to_string(), "/v1/openapi.json?x=\"1\"&y=<2>".to_string());
    assert_eq!(ui.base_path(), "/docs/");
    assert_eq!(ui.document_url(), "/v1/openapi.json?x=\"1\"&y=<2>");
    let page = ui.page();
    assert!(page.starts_with("<!DOCTYPE html>"));
    assert!(page.contains("data-url=\"/v1/openapi.json?x=&quot;1&quot;&amp;y=&lt;2&gt;\""));
    assert!(page.ends_with("</html>\n"));
}
