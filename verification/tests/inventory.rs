use ops_desk::json::JsonValue;
use ops_desk::railway::{
    collect_railway_services, domain_values, is_infra_service, parse_railway_service,
    RailwayService,
};
use ops_desk::sync::{plan_railway_sync, site_upsert};

fn text(s: &str) -> JsonValue {
    JsonValue::String(s.to_string())
}

fn object(members: Vec<(&str, JsonValue)>) -> JsonValue {
    JsonValue::Object(members.into_iter().map(|(k, v)| (k.to_string(), v)).collect())
}

fn domain_list(domains: &[&str]) -> JsonValue {
    JsonValue::Array(domains.iter().map(|d| object(vec![("domain", text(d))])).collect())
}

fn service_json(id: &str, name: &str, custom: &[&str], railway: &[&str]) -> JsonValue {
    object(vec![
        ("domains", object(vec![("customDomains", domain_list(custom)), ("serviceDomains", domain_list(railway))])),
        ("serviceId", text(id)),
        ("serviceName", text(name)),
    ])
}

fn service(id: Option<&str>, name: &str, custom: &[&str], railway: &[&str]) -> RailwayService {
    RailwayService {
        service_id: id.map(|s| s.to_string()),
        service_name: name.to_string(),
        custom_domains: custom.iter().map(|d| d.to_string()).collect(),
        service_domains: railway.iter().map(|d| d.to_string()).collect(),
        deployment_status: Some("SUCCESS".to_string()),
        instance_statuses: vec!["RUNNING".to_string()],
    }
}

#[test]
fn infra_services_are_recognised() {
    assert!(is_infra_service("redis"));
    assert!(is_infra_service("  Redis\t"));
    assert!(is_infra_service("Postgres DB"));
    assert!(is_infra_service("main db  "));
    assert!(!is_infra_service("redis-cache"));
    assert!(!is_infra_service("postgres-db"));
    assert!(!is_infra_service("db"));
    assert!(!is_infra_service("QuoteMakers Web"));
}

#[test]
fn domains_list_custom_first() {
    let s = service(Some("s1"), "Web", &["www.acme.com", "acme.com"], &["web.up.railway.app"]);
    let domains = s.domains();
    assert_eq!(
        domains,
        vec![
            ("www.acme.com".to_string(), "custom"),
            ("acme.com".to_string(), "custom"),
            ("web.up.railway.app".to_string(), "railway_service"),
        ]
    );
}

#[test]
fn domain_values_pass_over_items_without_text_domain() {
    let domains = object(vec![(
        "customDomains",
        JsonValue::Array(vec![
            object(vec![("domain", text("a.com"))]),
            object(vec![("domain", JsonValue::Number("3".to_string()))]),
            object(vec![("id", text("x"))]),
            text("b.com"),
            object(vec![("domain", text("c.com"))]),
        ]),
    )]);
    assert_eq!(domain_values(&domains, "customDomains"), vec!["a.com", "c.com"]);
    assert!(domain_values(&domains, "serviceDomains").is_empty());
    assert!(domain_values(&text("a"), "customDomains").is_empty());
}

#[test]
fn service_is_read_with_deployment() {
    let value = object(vec![
        ("domains", object(vec![("serviceDomains", domain_list(&["api.up.railway.app"]))])),
        ("id", text("svc-9")),
        (
            "latestDeployment",
            object(vec![
                ("instances", JsonValue::Array(vec![
                    object(vec![("status", text("RUNNING"))]),
                    object(vec![("status", JsonValue::Null)]),
                    object(vec![("status", text("CRASHED"))]),
                ])),
                ("status", text("SUCCESS")),
            ]),
        ),
        ("serviceName", text("API")),
    ]);
    let s = parse_railway_service(&value).unwrap();
    assert_eq!(s.service_id.as_deref(), Some("svc-9"));
    assert_eq!(s.service_name, "API");
    assert!(s.custom_domains.is_empty());
    assert_eq!(s.service_domains, vec!["api.up.railway.app"]);
    assert_eq!(s.deployment_status.as_deref(), Some("SUCCESS"));
    assert_eq!(s.instance_statuses, vec!["RUNNING", "CRASHED"]);
}

#[test]
fn service_id_member_that_is_not_text_hides_id() {
    let value = object(vec![
        ("domains", object(vec![])),
        ("id", text("fallback")),
        ("serviceId", JsonValue::Null),
        ("serviceName", text("Web")),
    ]);
    let s = parse_railway_service(&value).unwrap();
    assert_eq!(s.service_id, None);
    assert_eq!(s.deployment_status, None);
    assert!(s.instance_statuses.is_empty());
}

#[test]
fn service_needs_text_name_and_domains() {
    assert!(parse_railway_service(&object(vec![("serviceName", text("Web"))])).is_none());
    assert!(parse_railway_service(&object(vec![
        ("domains", object(vec![])),
        ("serviceName", JsonValue::Bool(true)),
    ]))
    .is_none());
    assert!(parse_railway_service(&JsonValue::Array(vec![])).is_none());
}

#[test]
fn services_are_collected_in_document_order() {
    let doc = object(vec![
        ("name", text("gallant-elegance")),
        (
            "services",
            object(vec![(
                "edges",
                JsonValue::Array(vec![
                    object(vec![("node", service_json("s1", "Web", &["acme.com"], &[]))]),
                    object(vec![("node", service_json("s2", "Redis", &[], &[]))]),
                ]),
            )]),
        ),
    ]);
    let mut found = Vec::new();
    collect_railway_services(&doc, &mut found);
    let names: Vec<&str> = found.iter().map(|s| s.service_name.as_str()).collect();
    assert_eq!(names, vec!["Web", "Redis"]);
}

#[test]
fn nested_service_comes_after_outer_service() {
    let inner = service_json("in", "Inner", &[], &["inner.app"]);
    let outer = object(vec![
        ("domains", object(vec![])),
        ("extra", inner),
        ("serviceName", text("Outer")),
    ]);
    let mut found = vec![service(None, "Earlier", &[], &[])];
    collect_railway_services(&JsonValue::Array(vec![outer, JsonValue::Null]), &mut found);
    let names: Vec<&str> = found.iter().map(|s| s.service_name.as_str()).collect();
    assert_eq!(names, vec!["Earlier", "Outer", "Inner"]);
}

#[test]
fn object_without_domains_member_is_no_service() {
    let mut found = Vec::new();
    collect_railway_services(&object(vec![("serviceName", text("Web"))]), &mut found);
    assert!(found.is_empty());
}

#[test]
fn upsert_for_custom_domain() {
    let s = service(Some("s1"), "Acme", &["acme.com"], &[]);
    let row = site_upsert(&s, "acme.com/", "custom");
    assert_eq!(row.name, "Acme");
    assert_eq!(row.base_url, "https://acme.com");
    assert_eq!(row.critical_css_url, "https://acme.com/static/assets/css/main.css");
    assert_eq!(row.external_service_id.as_deref(), Some("s1"));
    assert_eq!(row.service_name, "Acme");
    assert_eq!(row.domain_type, "custom");
    assert_eq!(row.domain, "acme.com/");
}

#[test]
fn upsert_for_railway_domain() {
    let s = service(None, "Acme", &[], &["acme.up.railway.app"]);
    let row = site_upsert(&s, "acme.up.railway.app", "railway_service");
    assert_eq!(row.name, "Acme (Railway)");
    assert_eq!(row.base_url, "https://acme.up.railway.app");
    assert_eq!(row.external_service_id, None);
}

#[test]
fn sync_plan_dedups_and_skips() {
    let services = vec![
        service(Some("s1"), "Acme", &["acme.com"], &["acme.up.railway.app"]),
        service(Some("s1"), "Acme again", &["other.com"], &[]),
        service(Some("s2"), "Postgres DB", &[], &["pg.up.railway.app"]),
        service(Some("s3"), "Worker", &[], &[]),
        service(None, "Blog", &["acme.com", "blog.acme.com"], &[]),
        service(Some("s4"), "Redis", &[], &[]),
    ];
    let plan = plan_railway_sync(services);
    let rows: Vec<(&str, &str, &str)> = plan
        .upserts
        .iter()
        .map(|r| (r.domain.as_str(), r.name.as_str(), r.domain_type))
        .collect();
    assert_eq!(
        rows,
        vec![
            ("acme.com", "Acme", "custom"),
            ("acme.up.railway.app", "Acme (Railway)", "railway_service"),
            ("blog.acme.com", "Blog", "custom"),
        ]
    );
    assert_eq!(plan.domains_seen, 3);
    assert_eq!(plan.services_without_domains.len(), 1);
    let skipped = &plan.services_without_domains[0];
    assert_eq!(skipped.service_name, "Worker");
    assert_eq!(skipped.deployment_status.as_deref(), Some("SUCCESS"));
    assert_eq!(skipped.instance_statuses, vec!["RUNNING"]);
}

#[test]
fn sync_law_rows_match_domains_seen() {
    let services = vec![
        service(Some("a"), "A", &["x.com", "x.com"], &["a.app"]),
        service(Some("b"), "B", &["a.app"], &["b.app"]),
    ];
    let plan = plan_railway_sync(services);
    assert_eq!(plan.upserts.len(), plan.domains_seen);
    assert_eq!(plan.domains_seen, 3);
}

#[test]
fn sync_key_falls_back_to_name() {
    let services = vec![
        service(None, "Web", &["one.com"], &[]),
        service(None, "Web", &["two.com"], &[]),
        service(Some("Web"), "Other", &["three.com"], &[]),
    ];
    let plan = plan_railway_sync(services);
    let domains: Vec<&str> = plan.upserts.iter().map(|r| r.domain.as_str()).collect();
    assert_eq!(domains, vec!["one.com"]);
}

#[test]
fn sync_of_nothing_is_empty() {
    let plan = plan_railway_sync(Vec::new());
    assert!(plan.upserts.is_empty());
    assert_eq!(plan.domains_seen, 0);
    assert!(plan.services_without_domains.is_empty());
}

#[test]
fn json_lookups() {
    let value = object(vec![("a", text("first")), ("a", text("second")), ("n", JsonValue::Number("1.5".to_string()))]);
    assert_eq!(value.get("a").and_then(|v| v.as_str()), Some("first"));
    assert!(value.contains_key("n"));
    assert!(!value.contains_key("b"));
    assert!(value.get("n").unwrap().as_str().is_none());
    assert!(text("x").get("a").is_none());
    assert_eq!(JsonValue::Array(vec![JsonValue::Null]).as_array().map(|items| items.len()), Some(1));
    assert!(JsonValue::Bool(false).as_array().is_none());
}

#[test]
fn infra_name_trims_unicode_white_space() {
    assert!(is_infra_service("\u{2003}REDIS\u{3000}"));
}

#[test]
fn status_output_is_parsed_into_services() {
    let stdout = br#"{"name":"gallant-elegance","services":{"edges":[
        {"node":{"serviceName":"Web","serviceId":"s1","domains":{"customDomains":[{"domain":"acme.com"}],"serviceDomains":[{"domain":"web.up.railway.app"}]},
                 "latestDeployment":{"status":"SUCCESS","instances":[{"status":"RUNNING"}]}}},
        {"node":{"serviceName":"Redis","id":"s2","domains":{}}}]}}"#;
    let services = ops_desk::railway::services_from_status_output(stdout).ok().unwrap();
    assert_eq!(services.len(), 2);
    assert_eq!(services[0].service_name, "Web");
    assert_eq!(services[0].service_id.as_deref(), Some("s1"));
    assert_eq!(services[0].custom_domains, vec!["acme.com"]);
    assert_eq!(services[0].service_domains, vec!["web.up.railway.app"]);
    assert_eq!(services[0].instance_statuses, vec!["RUNNING"]);
    assert_eq!(services[1].service_name, "Redis");
    assert_eq!(services[1].service_id.as_deref(), Some("s2"));
}

#[test]
fn status_output_that_is_not_json_is_an_error() {
    let stdout = b"not json";
    let expected = serde_json::from_slice::<serde_json::Value>(stdout).unwrap_err().to_string();
    match ops_desk::railway::services_from_status_output(stdout) {
        Ok(_) => panic!("parsed"),
        Err(error) => assert_eq!(error.text, expected),
    }
}

#[test]
fn parsed_document_keeps_numbers_and_members() {
    let document = ops_desk::json::parse_document(br#"{"b":[1.5,true,null],"a":"x"}"#).ok().unwrap();
    assert_eq!(document.get("a").and_then(|v| v.as_str()), Some("x"));
    match document.get("b").and_then(|v| v.as_array()) {
        Some(items) => {
            assert!(matches!(&items[0], JsonValue::Number(text) if text == "1.5"));
            assert!(matches!(items[1], JsonValue::Bool(true)));
            assert!(matches!(items[2], JsonValue::Null));
        }
        None => panic!("no array"),
    }
}
