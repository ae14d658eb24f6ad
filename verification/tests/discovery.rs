use kftray_portforward::discovery::{
    as_port, create_default_configs, find_annotation, find_port, format_entry, namespace_configs,
    parse_configs, parse_entry, retrieve_service_configs, ClusterListing, NamespaceListing,
    ServiceInfo,
};
use kftray_portforward::model::Config;

fn candidate(service: &str, alias: &str, local: u16, remote: u16) -> Config {
    let mut config = Config::empty();
    config.context = "dev".to_string();
    config.namespace = "shop".to_string();
    config.kubeconfig = Some("/home/u/.kube/config".to_string());
    config.service = Some(service.to_string());
    config.alias = Some(alias.to_string());
    config.local_port = Some(local);
    config.remote_port = Some(remote);
    config.protocol = "tcp".to_string();
    config.workload_type = Some("service".to_string());
    config
}

fn kubeconfig() -> Option<String> {
    Some("/home/u/.kube/config".to_string())
}

#[test]
fn annotation_parse() {
    let ports = vec![("adminport".to_string(), 9443)];
    let configs = parse_configs(
        "web-8080-80,admin-9090-adminport",
        "dev",
        "shop",
        "store",
        &ports,
        kubeconfig(),
    );
    assert_eq!(
        configs,
        vec![candidate("store", "web", 8080, 80), candidate("store", "admin", 9090, 9443)]
    );
}

#[test]
fn annotation_named_port_that_is_unknown_is_dropped() {
    let ports = vec![("adminport".to_string(), 9443)];
    let configs =
        parse_configs("web-8080-http,admin-9090-adminport", "dev", "shop", "store", &ports, None);
    assert_eq!(configs.len(), 1);
    assert_eq!(configs[0].alias, Some("admin".to_string()));
    assert_eq!(configs[0].remote_port, Some(9443));
    assert_eq!(configs[0].kubeconfig, None);
}

#[test]
fn annotation_malformed_entries_are_skipped() {
    let ports: Vec<(String, i32)> = Vec::new();
    let text = "web-8080,a-b-c-d,web-x-80,web-70000-80,-1-2,,ok-1-2,neg--5-80";
    let configs = parse_configs(text, "dev", "shop", "store", &ports, kubeconfig());
    assert_eq!(
        configs,
        vec![candidate("store", "", 1, 2), candidate("store", "ok", 1, 2)]
    );
}

#[test]
fn annotation_entries_are_trimmed() {
    let ports: Vec<(String, i32)> = Vec::new();
    let configs =
        parse_configs("  web-8080-80 ,\tapi-1-2\n", "dev", "shop", "store", &ports, kubeconfig());
    assert_eq!(
        configs,
        vec![candidate("store", "web", 8080, 80), candidate("store", "api", 1, 2)]
    );
}

#[test]
fn annotation_inner_space_is_not_trimmed() {
    let ports: Vec<(String, i32)> = Vec::new();
    let configs = parse_configs("web- 8080-80", "dev", "shop", "store", &ports, None);
    assert!(configs.is_empty());
}

#[test]
fn annotation_accepts_plus_sign_and_leading_zeros() {
    let ports: Vec<(String, i32)> = Vec::new();
    let configs = parse_configs("web-+08080-0080", "dev", "shop", "store", &ports, kubeconfig());
    assert_eq!(configs, vec![candidate("store", "web", 8080, 80)]);
}

#[test]
fn annotation_target_port_out_of_range_is_dropped() {
    let none: Vec<(String, i32)> = Vec::new();
    let configs = parse_configs("web-8080-70000", "dev", "shop", "store", &none, kubeconfig());
    assert_eq!(configs, Vec::<Config>::new());

    let ports = vec![
        ("big".to_string(), 65536 + 443),
        ("negative".to_string(), -1),
        ("ok".to_string(), 8443),
    ];
    let text = "a-1-70000,b-2-big,c-3-negative,d-4-65535,e-5-ok,f-6-65536,g-7-0";
    let configs = parse_configs(text, "dev", "shop", "store", &ports, kubeconfig());
    assert_eq!(
        configs,
        vec![
            candidate("store", "d", 4, 65535),
            candidate("store", "e", 5, 8443),
            candidate("store", "g", 7, 0),
        ]
    );
}

#[test]
fn entry_reads_alias_and_ports() {
    let entry = |s: &str| -> Vec<char> { s.chars().collect() };
    let ports = vec![("adminport".to_string(), 9443), ("huge".to_string(), 100000)];
    assert_eq!(parse_entry(&entry("web-8080-80"), &ports), Some(("web".to_string(), 8080, 80)));
    assert_eq!(
        parse_entry(&entry("admin-9090-adminport"), &ports),
        Some(("admin".to_string(), 9090, 9443))
    );
    assert_eq!(parse_entry(&entry("-0-0"), &ports), Some((String::new(), 0, 0)));
    assert_eq!(parse_entry(&entry("web-8080-65535"), &ports), Some(("web".to_string(), 8080, 65535)));
    assert_eq!(parse_entry(&entry("web-8080-65536"), &ports), None);
    assert_eq!(parse_entry(&entry("web-8080-70000"), &ports), None);
    assert_eq!(parse_entry(&entry("web-8080-huge"), &ports), None);
    assert_eq!(parse_entry(&entry("web-8080-unknown"), &ports), None);
    assert_eq!(parse_entry(&entry("web-65536-80"), &ports), None);
    assert_eq!(parse_entry(&entry("web-8080"), &ports), None);
    assert_eq!(parse_entry(&entry("web-8080-80-1"), &ports), None);
    assert_eq!(parse_entry(&entry(" web-8080-80"), &ports), Some((" web".to_string(), 8080, 80)));
    assert_eq!(parse_entry(&entry("web-8080-80 "), &ports), None);
    assert_eq!(parse_entry(&entry(""), &ports), None);
    assert_eq!(as_port(0), Some(0));
    assert_eq!(as_port(65535), Some(65535));
    assert_eq!(as_port(65536), None);
    assert_eq!(as_port(-1), None);
    assert_eq!(as_port(i32::MAX), None);
}

#[test]
fn entry_format_then_parse_and_back() {
    let entry = format_entry("web", 8080, 80);
    assert_eq!(entry, "web-8080-80");
    let ports: Vec<(String, i32)> = Vec::new();
    let configs = parse_configs(&entry, "dev", "shop", "store", &ports, kubeconfig());
    assert_eq!(configs, vec![candidate("store", "web", 8080, 80)]);
    let again = format_entry(
        configs[0].alias.as_deref().unwrap(),
        configs[0].local_port.unwrap(),
        configs[0].remote_port.unwrap(),
    );
    assert_eq!(again, entry);
    assert_eq!(format_entry("", 0, 65535), "-0-65535");
}

#[test]
fn default_configs_one_per_port() {
    let ports = vec![("http".to_string(), 80), ("https".to_string(), 443)];
    let configs = create_default_configs("dev", "shop", "store", &ports, kubeconfig());
    assert_eq!(
        configs,
        vec![candidate("store", "store", 80, 80), candidate("store", "store", 443, 443)]
    );
    let none = create_default_configs("dev", "shop", "store", &Vec::new(), None);
    assert!(none.is_empty());
}

#[test]
fn default_configs_leave_out_numbers_that_are_no_ports() {
    let ports = vec![
        ("a".to_string(), 70000),
        ("b".to_string(), 65535),
        ("c".to_string(), -80),
        ("d".to_string(), 0),
    ];
    let configs = create_default_configs("dev", "shop", "store", &ports, kubeconfig());
    assert_eq!(
        configs,
        vec![candidate("store", "store", 65535, 65535), candidate("store", "store", 0, 0)]
    );
}

#[test]
fn port_and_annotation_lookup_take_the_first_match() {
    let ports = vec![("a".to_string(), 1), ("b".to_string(), 2), ("a".to_string(), 3)];
    assert_eq!(find_port(&ports, "a"), Some(1));
    assert_eq!(find_port(&ports, "b"), Some(2));
    assert_eq!(find_port(&ports, "c"), None);
    let annotations = vec![
        ("x".to_string(), "1".to_string()),
        ("kftray.app/configs".to_string(), "web-1-2".to_string()),
    ];
    assert_eq!(find_annotation(&annotations, "kftray.app/configs"), Some("web-1-2".to_string()));
    assert_eq!(find_annotation(&annotations, "kftray.app/config"), None);
}

fn annotated() -> ServiceInfo {
    ServiceInfo {
        name: "store".to_string(),
        annotations: vec![("kftray.app/configs".to_string(), "web-8080-http".to_string())],
        ports: vec![("http".to_string(), 80)],
    }
}

fn plain() -> ServiceInfo {
    ServiceInfo {
        name: "cart".to_string(),
        annotations: vec![("other".to_string(), "x".to_string())],
        ports: vec![("grpc".to_string(), 9000)],
    }
}

#[test]
fn namespace_configs_by_annotation_or_ports() {
    let configs = namespace_configs(&vec![annotated(), plain()], "dev", "shop", &kubeconfig());
    assert_eq!(
        configs,
        vec![candidate("store", "web", 8080, 80), candidate("cart", "cart", 9000, 9000)]
    );
}

#[test]
fn retrieve_collects_namespaces_and_drops_failed_ones() {
    let listing = ClusterListing::Listed(vec![
        NamespaceListing { namespace: "shop".to_string(), services: Ok(vec![annotated()]) },
        NamespaceListing {
            namespace: "broken".to_string(),
            services: Err("forbidden".to_string()),
        },
        NamespaceListing { namespace: "shop".to_string(), services: Ok(vec![plain()]) },
    ]);
    let configs = retrieve_service_configs("dev", kubeconfig(), listing);
    assert_eq!(
        configs,
        Ok(vec![candidate("store", "web", 8080, 80), candidate("cart", "cart", 9000, 9000)])
    );
}

#[test]
fn retrieve_uses_each_namespace_name() {
    let listing = ClusterListing::Listed(vec![NamespaceListing {
        namespace: "other".to_string(),
        services: Ok(vec![plain()]),
    }]);
    let configs = retrieve_service_configs("dev", kubeconfig(), listing).unwrap();
    assert_eq!(configs.len(), 1);
    assert_eq!(configs[0].namespace, "other");
    assert_eq!(configs[0].context, "dev");
}

#[test]
fn retrieve_fails_without_client_or_namespaces() {
    assert_eq!(
        retrieve_service_configs("dev", None, ClusterListing::ClientFailed("bad".to_string())),
        Err("bad".to_string())
    );
    assert_eq!(
        retrieve_service_configs("dev", None, ClusterListing::NoClient),
        Err("Client not created".to_string())
    );
    assert_eq!(
        retrieve_service_configs("dev", None, ClusterListing::NamespacesFailed("no".to_string())),
        Err("no".to_string())
    );
    assert_eq!(
        retrieve_service_configs("dev", None, ClusterListing::Listed(Vec::new())),
        Ok(Vec::new())
    );
}
