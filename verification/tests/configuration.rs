use docks::config::{load_config, resolve_config, servers, to_publish, ConfigError};
use docks::document::{table_get, DocEntry, DocValue};

fn entry(key: &str, value: DocValue) -> DocEntry {
    DocEntry { key: key.to_string(), value }
}

fn s(v: &str) -> DocValue {
    DocValue::Str(v.to_string())
}

fn names(xs: &[&str]) -> DocValue {
    DocValue::Arr(xs.iter().map(|x| s(x)).collect())
}

fn server_section(user: &str, ip: &str, port: &str, containers: &[&str]) -> DocValue {
    DocValue::Table(vec![
        entry("username", s(user)),
        entry("ip", s(ip)),
        entry("port", s(port)),
        entry("containers", names(containers)),
    ])
}

#[test]
fn table_get_finds_first_match() {
    let t = vec![entry("a", s("one")), entry("b", s("two")), entry("a", s("three"))];
    match table_get(&t, "a") {
        Some(DocValue::Str(v)) => assert_eq!(v, "one"),
        _ => panic!("expected the first entry under the key"),
    }
    assert!(table_get(&t, "c").is_none());
}

#[test]
fn servers_lists_every_section_but_local() {
    let doc = DocValue::Table(vec![
        entry("local", DocValue::Table(vec![entry("containers", names(&["db"]))])),
        entry("edge", server_section("root", "10.0.0.7", "22", &["api"])),
        entry("core", server_section("admin", "10.0.0.8", "2222", &["web"])),
    ]);
    assert_eq!(servers(&doc).unwrap(), vec!["edge".to_string(), "core".to_string()]);
}

#[test]
fn servers_rejects_a_non_table_document() {
    assert_eq!(servers(&s("oops")).unwrap_err(), ConfigError::NotATable);
}

#[test]
fn resolve_reads_local_and_servers_in_order() {
    let doc = DocValue::Table(vec![
        entry("local", DocValue::Table(vec![entry("containers", names(&["db", "cache"]))])),
        entry("edge", server_section("root", "10.0.0.7", "22", &["api", "web"])),
        entry("core", server_section("admin", "10.0.0.8", "2222", &["queue"])),
    ]);
    let c = resolve_config(&doc).unwrap();
    assert_eq!(c.local_services, vec!["db".to_string(), "cache".to_string()]);
    assert_eq!(c.servers.len(), 2);
    assert_eq!(c.servers[0].name, "edge");
    assert_eq!(c.servers[0].username, "root");
    assert_eq!(c.servers[0].ip, "10.0.0.7");
    assert_eq!(c.servers[0].port, "22");
    assert_eq!(c.servers[0].services, vec!["api".to_string(), "web".to_string()]);
    assert_eq!(c.servers[1].name, "core");
    assert_eq!(c.servers[1].services, vec!["queue".to_string()]);
}

#[test]
fn resolve_without_local_section_has_no_local_services() {
    let doc = DocValue::Table(vec![entry("edge", server_section("root", "10.0.0.7", "22", &[]))]);
    let c = resolve_config(&doc).unwrap();
    assert!(c.local_services.is_empty());
    assert_eq!(c.servers.len(), 1);
    assert!(c.servers[0].services.is_empty());
}

#[test]
fn resolve_rejects_non_table() {
    assert_eq!(resolve_config(&names(&["x"])).unwrap_err(), ConfigError::NotATable);
}

#[test]
fn resolve_rejects_bad_local_section() {
    let no_containers = DocValue::Table(vec![entry("local", DocValue::Table(vec![]))]);
    assert_eq!(resolve_config(&no_containers).unwrap_err(), ConfigError::BadLocalSection);
    let non_string_service = DocValue::Table(vec![entry(
        "local",
        DocValue::Table(vec![entry("containers", DocValue::Arr(vec![DocValue::Int(3)]))]),
    )]);
    assert_eq!(resolve_config(&non_string_service).unwrap_err(), ConfigError::BadLocalSection);
}

#[test]
fn resolve_names_the_first_bad_server_entry() {
    let doc = DocValue::Table(vec![
        entry("edge", server_section("root", "10.0.0.7", "22", &["api"])),
        entry("broken", DocValue::Table(vec![entry("username", s("root"))])),
    ]);
    assert_eq!(resolve_config(&doc).unwrap_err(), ConfigError::BadServerEntry { index: 1 });
}

#[test]
fn resolve_rejects_integer_port() {
    let doc = DocValue::Table(vec![entry(
        "edge",
        DocValue::Table(vec![
            entry("username", s("root")),
            entry("ip", s("10.0.0.7")),
            entry("port", DocValue::Int(22)),
            entry("containers", names(&["api"])),
        ]),
    )]);
    assert_eq!(resolve_config(&doc).unwrap_err(), ConfigError::BadServerEntry { index: 0 });
}

#[test]
fn to_publish_reads_hub_images() {
    let doc = DocValue::Table(vec![entry(
        "hub",
        DocValue::Table(vec![entry(
            "images",
            DocValue::Arr(vec![
                DocValue::Arr(vec![s("app"), names(&["latest", "beta"])]),
                DocValue::Arr(vec![s("tool"), names(&["stable"])]),
            ]),
        )]),
    )]);
    let entries = to_publish(&doc);
    assert_eq!(entries.len(), 2);
    assert_eq!(entries[0].image, "app");
    assert_eq!(entries[0].tags, vec!["latest".to_string(), "beta".to_string()]);
    assert_eq!(entries[1].image, "tool");
    assert_eq!(entries[1].tags, vec!["stable".to_string()]);
}

#[test]
fn to_publish_keeps_the_last_declaration_of_an_image() {
    let doc = DocValue::Table(vec![entry(
        "hub",
        DocValue::Table(vec![entry(
            "images",
            DocValue::Arr(vec![
                DocValue::Arr(vec![s("app"), names(&["latest"])]),
                DocValue::Arr(vec![s("tool"), names(&["stable"])]),
                DocValue::Arr(vec![s("app"), names(&["prod"])]),
            ]),
        )]),
    )]);
    let entries = to_publish(&doc);
    assert_eq!(entries.len(), 2);
    assert_eq!(entries[0].image, "tool");
    assert_eq!(entries[1].image, "app");
    assert_eq!(entries[1].tags, vec!["prod".to_string()]);
}

#[test]
fn to_publish_skips_ill_shaped_items_and_non_string_tags() {
    let doc = DocValue::Table(vec![entry(
        "hub",
        DocValue::Table(vec![entry(
            "images",
            DocValue::Arr(vec![
                DocValue::Arr(vec![s("lonely")]),
                DocValue::Int(9),
                DocValue::Arr(vec![s("app"), DocValue::Arr(vec![s("ok"), DocValue::Int(1)])]),
            ]),
        )]),
    )]);
    let entries = to_publish(&doc);
    assert_eq!(entries.len(), 1);
    assert_eq!(entries[0].image, "app");
    assert_eq!(entries[0].tags, vec!["ok".to_string()]);
}

#[test]
fn to_publish_of_a_document_without_hub_is_empty() {
    let doc = DocValue::Table(vec![entry("edge", server_section("root", "1.2.3.4", "22", &[]))]);
    assert!(to_publish(&doc).is_empty());
}

#[test]
fn load_config_parses_real_toml() {
    let text = "[local]\ncontainers = [\"db\"]\n\n[edge]\nusername = \"root\"\nip = \"10.0.0.7\"\nport = \"22\"\ncontainers = [\"api\", \"web\"]\n";
    let c = load_config(text).unwrap();
    assert_eq!(c.local_services, vec!["db".to_string()]);
    assert_eq!(c.servers.len(), 1);
    assert_eq!(c.servers[0].name, "edge");
    assert_eq!(c.servers[0].username, "root");
    assert_eq!(c.servers[0].ip, "10.0.0.7");
    assert_eq!(c.servers[0].port, "22");
    assert_eq!(c.servers[0].services, vec!["api".to_string(), "web".to_string()]);
}

#[test]
fn load_config_rejects_invalid_toml() {
    assert_eq!(load_config("not = [valid").unwrap_err(), ConfigError::Unparsable);
}

#[test]
fn load_config_reports_resolution_errors() {
    let text = "[edge]\nusername = \"root\"\nip = \"10.0.0.7\"\nport = 22\ncontainers = [\"api\"]\n";
    assert_eq!(load_config(text).unwrap_err(), ConfigError::BadServerEntry { index: 0 });
}
