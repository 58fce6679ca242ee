use hostinfo::error::DomainError;
use hostinfo::host::HostFacts;
use hostinfo::openapi::ApiInfo;
use hostinfo::route::Method;
use hostinfo::service::{hostinfo, index, Application, ContentType, Handler, Route, Target};
use hostinfo::url::resolve_reference;

fn info() -> ApiInfo {
    ApiInfo { title: "hostinfo".to_string(), version: "0.1.0".to_string() }
}

fn facts() -> HostFacts {
    HostFacts { hostname: b"web-1".to_vec(), pid: 4242, uptime: Some(86400) }
}

#[test]
fn test_index() {
    let routes = vec![Route::new(Handler::Index, "/".to_string())];
    let app = Application::assemble(info(), routes).expect("valid routes");
    let response = app.handle(Method::Get, "/", facts());
    assert_eq!(response.status, 200);
    assert_eq!(response.body, "Hello, World!");
}

#[test]
fn test_hostinfo() {
    let routes = vec![Route::new(Handler::HostInfo, "/hostinfo".to_string())];
    let app = Application::assemble(info(), routes).expect("valid routes");
    let hostname = gethostname::gethostname().as_encoded_bytes().to_vec();
    let uptime = psutil::host::uptime().ok().map(|d| d.as_secs());
    let pid = 31337;
    let response = app.handle(Method::Get, "/hostinfo", HostFacts { hostname: hostname.clone(), pid, uptime });
    match (String::from_utf8(hostname), uptime) {
        (Ok(name), Some(seconds)) => {
            assert_eq!(response.status, 200);
            let mut payload = serde_json::Map::new();
            payload.insert("hostname".to_string(), serde_json::Value::from(name));
            payload.insert("pid".to_string(), serde_json::Value::from(pid));
            payload.insert("uptime".to_string(), serde_json::Value::from(seconds));
            let expected = serde_json::Value::Object(payload).to_string();
            println!("Current Payload: {:?}", response.body);
            println!("Expected Payload: {:?}", expected);
            assert_eq!(response.body, expected);
        }
        _ => assert_eq!(response.status, 500),
    }
}

#[test]
fn index_handler_is_constant() {
    let first = index();
    let second = index();
    assert_eq!(first, second);
    assert_eq!(first.status, 200);
    assert_eq!(first.content_type, ContentType::PlainText);
    assert_eq!(first.content_type.name(), "text/plain");
    assert_eq!(first.body, "Hello, World!");
}

#[test]
fn index_ignores_request_count_and_facts() {
    let app = Application::standard(info());
    let broken = HostFacts { hostname: vec![0xff], pid: 0, uptime: None };
    let mut bodies = Vec::new();
    for round in 0..5 {
        let given = if round % 2 == 0 { facts() } else { broken.clone() };
        let _ = app.handle(Method::Get, "/hostinfo", given.clone());
        bodies.push(app.handle(Method::Get, "/", given));
    }
    for response in bodies {
        assert_eq!(response, index());
    }
}

#[test]
fn hostinfo_reports_the_facts_exactly() {
    let response = hostinfo(facts());
    assert_eq!(response.status, 200);
    assert_eq!(response.content_type, ContentType::Json);
    assert_eq!(response.body, "{\"hostname\":\"web-1\",\"pid\":4242,\"uptime\":86400}");
}

#[test]
fn hostinfo_body_is_json_with_three_members() {
    let response = hostinfo(HostFacts {
        hostname: "h\u{f6}st \"a\\b\"\n".as_bytes().to_vec(),
        pid: u32::MAX,
        uptime: Some(u64::MAX),
    });
    assert_eq!(response.status, 200);
    let value: serde_json::Value = serde_json::from_str(&response.body).unwrap();
    let object = value.as_object().unwrap();
    assert_eq!(object.len(), 3);
    assert_eq!(object["hostname"].as_str(), Some("h\u{f6}st \"a\\b\"\n"));
    assert_eq!(object["pid"].as_u64(), Some(4294967295));
    assert_eq!(object["uptime"].as_u64(), Some(18446744073709551615));
}

#[test]
fn undecodable_hostname_gives_500_and_service_goes_on() {
    let app = Application::standard(info());
    let bad = HostFacts { hostname: vec![0x66, 0x6f, 0x80, 0x6f], pid: 7, uptime: Some(1) };
    let response = app.handle(Method::Get, "/hostinfo", bad);
    assert_eq!(response.status, 500);
    assert_eq!(response.content_type, ContentType::Json);
    assert_eq!(response.body, "{\"error\":\"hostname does not parse as UTF-8\"}");
    let value: serde_json::Value = serde_json::from_str(&response.body).unwrap();
    assert!(value.get("error").is_some());
    let after = app.handle(Method::Get, "/", facts());
    assert_eq!(after.status, 200);
    assert_eq!(after.body, "Hello, World!");
    let again = app.handle(Method::Get, "/hostinfo", facts());
    assert_eq!(again.status, 200);
}

#[test]
fn missing_uptime_gives_500() {
    let response = hostinfo(HostFacts { hostname: b"web-1".to_vec(), pid: 7, uptime: None });
    assert_eq!(response.status, 500);
    assert_eq!(response.body, "{\"error\":\"uptime is not available on this host\"}");
}

#[test]
fn hostname_error_comes_before_uptime_error() {
    let response = hostinfo(HostFacts { hostname: vec![0xc0], pid: 7, uptime: None });
    assert_eq!(response.status, 500);
    assert_eq!(response.body, "{\"error\":\"hostname does not parse as UTF-8\"}");
}

#[test]
fn resolve_finds_the_four_addresses() {
    let app = Application::standard(info());
    assert_eq!(app.resolve(Method::Get, "/"), Target::Handler(Handler::Index));
    assert_eq!(app.resolve(Method::Get, "/hostinfo"), Target::Handler(Handler::HostInfo));
    assert_eq!(app.resolve(Method::Get, "/openapi.json"), Target::Document);
    assert_eq!(app.resolve(Method::Get, "/swagger_ui/"), Target::DocumentationUi);
}

#[test]
fn files_under_the_ui_are_left_to_the_server() {
    let app = Application::standard(info());
    assert_eq!(app.resolve(Method::Get, "/swagger_ui/swagger-ui.css"), Target::UiAsset);
    assert_eq!(app.resolve(Method::Get, "/swagger_ui/a/b"), Target::UiAsset);
    assert_eq!(app.resolve(Method::Post, "/swagger_ui/swagger-ui.css"), Target::NotFound);
    assert_eq!(app.resolve(Method::Get, "/swagger_uix/file"), Target::NotFound);
    assert!(app.ui().holds("/swagger_ui/x"));
    assert!(!app.ui().holds("/swagger_ui/"));
    assert!(!app.ui().holds("/swagger_ui"));
    assert!(!app.ui().holds("/other/swagger_ui/x"));
    let response = app.respond(Target::UiAsset, facts());
    assert_eq!(response.status, 404);
}

#[test]
fn unknown_requests_are_not_found() {
    let app = Application::standard(info());
    assert_eq!(app.resolve(Method::Get, "/nothing"), Target::NotFound);
    assert_eq!(app.resolve(Method::Post, "/"), Target::NotFound);
    assert_eq!(app.resolve(Method::Post, "/openapi.json"), Target::NotFound);
    assert_eq!(app.resolve(Method::Get, "/swagger_ui"), Target::NotFound);
    assert_eq!(app.resolve(Method::Get, "/hostinfo/"), Target::NotFound);
    let response = app.handle(Method::Delete, "/hostinfo", facts());
    assert_eq!(response.status, 404);
    assert_eq!(response.content_type, ContentType::Json);
    assert_eq!(response.body, "{\"error\":\"no such route\"}");
}

#[test]
fn document_endpoint_serves_the_built_document() {
    let app = Application::standard(info());
    let response = app.handle(Method::Get, "/openapi.json", facts());
    assert_eq!(response.status, 200);
    assert_eq!(response.content_type, ContentType::Json);
    assert_eq!(response.content_type.name(), "application/json");
    assert_eq!(response.body, app.document().to_json());
    let value: serde_json::Value = serde_json::from_str(&response.body).unwrap();
    let paths = value["paths"].as_object().unwrap();
    assert_eq!(paths.len(), 2);
    assert!(paths["/"].get("get").is_some());
    assert!(paths["/hostinfo"].get("get").is_some());
}

#[test]
fn swagger_ui_references_the_document() {
    let app = Application::standard(info());
    let response = app.handle(Method::Get, "/swagger_ui/", facts());
    assert_eq!(response.status, 200);
    assert_eq!(response.content_type, ContentType::Html);
    assert_eq!(response.content_type.name(), "text/html");
    assert!(response.body.contains("data-url=\"../openapi.json\""));
    assert_eq!(app.ui().base_path(), "/swagger_ui/");
    assert_eq!(app.ui().document_url(), "../openapi.json");
    let resolved = resolve_reference(app.ui().base_path(), app.ui().document_url()).unwrap();
    assert_eq!(resolved, "/openapi.json");
    let followed = app.handle(Method::Get, &resolved, facts());
    let direct = app.handle(Method::Get, "/openapi.json", facts());
    assert_eq!(followed, direct);
    assert_eq!(followed.status, 200);
    assert_eq!(followed.body, app.document().to_json());
}

#[test]
fn served_routes_are_the_documented_routes() {
    let routes = vec![
        Route::new(Handler::HostInfo, "/about".to_string()),
        Route::new(Handler::Index, "/hello".to_string()),
    ];
    let app = Application::assemble(info(), routes).unwrap();
    for path in ["/", "/hostinfo", "/about", "/hello", "/openapi.json"] {
        let served = matches!(app.resolve(Method::Get, path), Target::Handler(_));
        let documented = app.document().schema_of(Method::Get, &path.to_string()).is_some();
        assert_eq!(served, documented, "{}", path);
    }
    assert_eq!(app.resolve(Method::Get, "/about"), Target::Handler(Handler::HostInfo));
    assert_eq!(app.resolve(Method::Get, "/hello"), Target::Handler(Handler::Index));
    assert_eq!(app.resolve(Method::Get, "/"), Target::NotFound);
}

#[test]
fn conflicting_routes_stop_the_assembly() {
    let routes = vec![
        Route::new(Handler::Index, "/".to_string()),
        Route::new(Handler::HostInfo, "/hostinfo".to_string()),
        Route::new(Handler::HostInfo, "/".to_string()),
    ];
    match Application::assemble(info(), routes) {
        Err(error) => {
            assert_eq!(
                error,
                DomainError::SchemaConflictError { path: "/".to_string(), method: Method::Get }
            );
            assert!(error.halts_startup());
            assert_eq!(error.message(), "conflicting response shapes for GET /");
        }
        Ok(_) => panic!("conflicting routes were assembled"),
    }
}

#[test]
fn a_route_mounted_twice_is_no_conflict() {
    let routes = vec![
        Route::new(Handler::Index, "/".to_string()),
        Route::new(Handler::Index, "/".to_string()),
    ];
    let app = Application::assemble(info(), routes).unwrap();
    assert_eq!(app.document().path_count(), 1);
    assert_eq!(app.document().component_count(), 1);
}

#[test]
fn route_carries_the_handlers_own_descriptor() {
    let route = Route::new(Handler::HostInfo, "/hostinfo".to_string());
    assert_eq!(route.handler(), Handler::HostInfo);
    assert_eq!(route.descriptor().path(), "/hostinfo");
    assert_eq!(route.descriptor().method(), Method::Get);
    assert_eq!(
        route.descriptor().summary().map(|s| s.as_str()),
        Some("Returns information about the host serving this page")
    );
    assert!(route.descriptor().response_schema().same_shape(&Handler::HostInfo.response_schema()));
    assert!(!route.descriptor().response_schema().same_shape(&Handler::Index.response_schema()));
    assert_eq!(Handler::Index.summary(), "Returns a greeting");
}

#[test]
fn payload_has_the_declared_fields() {
    let shape = Handler::HostInfo.response_schema();
    let response = hostinfo(facts());
    let value: serde_json::Value = serde_json::from_str(&response.body).unwrap();
    let object = value.as_object().unwrap();
    assert_eq!(object.len(), shape.field_count());
    for (name, member) in object {
        match shape.field_kind(name) {
            Some(hostinfo::schema::PrimitiveType::Text) => assert!(member.is_string()),
            Some(hostinfo::schema::PrimitiveType::UInt32) => assert!(member.as_u64().unwrap() <= u32::MAX as u64),
            Some(hostinfo::schema::PrimitiveType::UInt64) => assert!(member.is_u64()),
            other => panic!("{} is declared as {:?}", name, other),
        }
    }
    assert!(Handler::Index.response_schema().is_scalar());
    assert_eq!(index().content_type, ContentType::PlainText);
}

#[test]
fn standard_service_serves_the_standard_document() {
    let app = Application::standard(info());
    assert_eq!(app.document().path_count(), 2);
    assert_eq!(app.document().component_count(), 2);
    assert_eq!(app.document().title(), "hostinfo");
    assert_eq!(app.document().version(), "0.1.0");
    let again = Application::assemble(
        info(),
        vec![
            Route::new(Handler::Index, "/".to_string()),
            Route::new(Handler::HostInfo, "/hostinfo".to_string()),
        ],
    )
    .unwrap();
    assert_eq!(app.document().to_json(), again.document().to_json());
}
