use std::sync::Arc;

use ops_flow::errors::IntegrationError;
use ops_flow::http::ApiResponse;
use ops_flow::keycloak::KeycloakAdapter;
use ops_flow::kubernetes::{
    choose_kubeconfig, expand_home, pod_failure, pod_from, service_from, ContainerState, PodObject,
    ServiceObject, ServicePortObject, TargetPort,
};
use ops_flow::registry::{clear_cache, credentials_key, get_adapter, init_registry, Registry};
use ops_flow::sonarqube::SonarQubeAdapter;
use ops_flow::types::{Integration, IntegrationCredentials, IntegrationType};

fn ok(body: &str) -> Result<ApiResponse, IntegrationError> {
    Ok(ApiResponse { status: 200, body: body.to_string() })
}

#[test]
fn test_kubeconfig_path_expansion() {
    let path = "~/.kube/config";
    assert!(path.starts_with('~'));
    assert_eq!(expand_home(path, Some("/home/dev")).ok(), Some("/home/dev/.kube/config".to_string()));
}

#[test]
fn test_init_registry() {
    let mut registry = Registry::new();
    let registry1 = init_registry(&mut registry);
    let registry2 = init_registry(&mut registry);
    assert!(Arc::ptr_eq(&registry1, &registry2));
}

#[test]
fn test_clear_cache() {
    clear_cache();
}

#[test]
fn keycloak_refusal_gives_empty_lists() {
    let adapter = KeycloakAdapter::new("https://id.example.com".to_string(), "u".to_string(), "p".to_string());
    let forbidden = ApiResponse { status: 403, body: "forbidden".to_string() };
    assert_eq!(adapter.read_realms(Ok(forbidden.clone())).ok(), Some(Vec::new()));
    assert_eq!(adapter.read_clients(Ok(forbidden)).ok(), Some(Vec::new()));
    let forbidden_error = Err(IntegrationError::AuthError { message: "Access denied".to_string() });
    assert_eq!(adapter.read_realms(forbidden_error).ok(), Some(Vec::new()));
    assert_eq!(adapter.read_clients(Err(IntegrationError::NotFound)).ok(), Some(Vec::new()));
    assert_eq!(
        adapter.read_realms(Ok(ApiResponse { status: 404, body: String::new() })).ok(),
        Some(Vec::new())
    );
    let broken = adapter.read_realms(Ok(ApiResponse { status: 500, body: "boom".to_string() }));
    assert_eq!(
        broken.err(),
        Some(IntegrationError::ApiError { status: 500, message: "boom".to_string() })
    );
}

#[test]
fn keycloak_unauthorized_surfaces() {
    let adapter = KeycloakAdapter::new("https://id.example.com".to_string(), "u".to_string(), "p".to_string());
    let unauthorized = adapter.read_realms(Ok(ApiResponse { status: 401, body: "no".to_string() }));
    assert_eq!(unauthorized.err(), Some(IntegrationError::AuthError { message: "no".to_string() }));
    let refused = IntegrationError::AuthError { message: "Authentication failed".to_string() };
    assert_eq!(adapter.read_clients(Err(refused.clone())).err(), Some(refused));
    let timeout = IntegrationError::NetworkError { message: "Request timed out".to_string() };
    assert_eq!(adapter.read_realms(Err(timeout.clone())).err(), Some(timeout));
}

#[test]
fn keycloak_connection_test_maps_statuses() {
    let adapter = KeycloakAdapter::new("https://id.example.com".to_string(), "u".to_string(), "p".to_string());
    assert_eq!(
        adapter.connection_request().url,
        "https://id.example.com/realms/master/.well-known/openid-configuration"
    );
    assert!(adapter.check_connection(Ok(ApiResponse { status: 200, body: "{}".to_string() })).is_ok());
    assert_eq!(
        adapter.check_connection(Ok(ApiResponse { status: 404, body: "gone".to_string() })).err(),
        Some(IntegrationError::NotFound)
    );
    assert!(matches!(
        adapter.check_connection(Ok(ApiResponse { status: 200, body: "<html>".to_string() })),
        Err(IntegrationError::ConfigError { .. })
    ));
}

#[test]
fn keycloak_reads_realms_and_clients() {
    let adapter = KeycloakAdapter::new("https://id.example.com/".to_string(), "u".to_string(), "p".to_string());
    let realms = adapter
        .read_realms(ok(r#"[{"realm": "master"}, {"realm": "dev", "enabled": false}]"#))
        .ok()
        .unwrap();
    assert_eq!(realms.len(), 2);
    assert!(realms[0].enabled);
    assert!(!realms[1].enabled);
    assert_eq!(
        adapter.clients_request("my realm").url,
        "https://id.example.com/admin/realms/my%20realm/clients"
    );
    let clients = adapter
        .read_clients(ok(r#"[{"clientId": "web"}, {"clientId": "api", "name": "API"}]"#))
        .ok()
        .unwrap();
    assert_eq!(clients[0].name, "web");
    assert_eq!(clients[1].name, "API");
    let bad = adapter.read_realms(ok(r#"[{"enabled": true}]"#));
    assert_eq!(
        bad.err(),
        Some(IntegrationError::ConfigError { message: "Invalid realm format: missing 'realm'".to_string() })
    );
}

#[test]
fn sonarqube_reads_projects_and_folds_measures() {
    let adapter = SonarQubeAdapter::new("https://q.example.com".to_string(), "tok".to_string());
    let request = adapter.metrics_request("my:proj");
    assert_eq!(
        request.url,
        "https://q.example.com/api/measures/component?component=my%3Aproj&metricKeys=coverage,bugs,vulnerabilities,code_smells,sqale_index"
    );
    let projects = adapter
        .read_projects(ok(r#"{"components": [{"key": "a", "name": "A"}, {"key": "b", "name": "B", "qualifier": "APP"}]}"#))
        .ok()
        .unwrap();
    assert_eq!(projects[0].qualifier, "TRK");
    assert_eq!(projects[1].qualifier, "APP");
    let no_name = adapter.read_projects(ok(r#"{"components": [{"key": "a"}]}"#));
    assert_eq!(
        no_name.err(),
        Some(IntegrationError::ConfigError { message: "Invalid project format: missing 'name'".to_string() })
    );
    let metrics = adapter
        .read_metrics(ok(r#"{"component": {"measures": [
            {"metric": "coverage", "value": "81.5"},
            {"metric": "bugs", "value": "3"},
            {"metric": "code_smells", "value": "many"},
            {"metric": "sqale_index", "value": "12345678901234"},
            {"metric": "ncloc", "value": "900"}
        ]}}"#))
        .ok()
        .unwrap();
    assert_eq!(metrics.coverage, Some("81.5".to_string()));
    assert_eq!(metrics.bugs, 3);
    assert_eq!(metrics.vulnerabilities, 0);
    assert_eq!(metrics.code_smells, 0);
    assert_eq!(metrics.technical_debt, Some("12345678901234".to_string()));
    let none = adapter.read_metrics(ok(r#"{"component": {"measures": []}}"#)).ok().unwrap();
    assert_eq!(none.coverage, None);
    assert_eq!(
        adapter.read_metrics(ok("{}")).err(),
        Some(IntegrationError::ConfigError {
            message: "Invalid response format: missing 'measures' array".to_string()
        })
    );
}

#[test]
fn kubernetes_records() {
    let pod = pod_from(
        PodObject {
            name: Some("web-1".to_string()),
            namespace: None,
            phase: None,
            container_states: vec![
                ContainerState { waiting: false, terminated: false },
                ContainerState { waiting: false, terminated: true },
                ContainerState { waiting: true, terminated: false },
            ],
            containers: vec!["web".to_string()],
            node_name: Some("node-a".to_string()),
        },
        "prod",
    );
    assert_eq!(pod.status, "Terminated");
    assert_eq!(pod.namespace, "prod");
    let unknown = pod_from(
        PodObject {
            name: None,
            namespace: Some("dev".to_string()),
            phase: None,
            container_states: Vec::new(),
            containers: Vec::new(),
            node_name: None,
        },
        "prod",
    );
    assert_eq!(unknown.status, "Unknown");
    assert_eq!(unknown.name, "");
    assert_eq!(unknown.namespace, "dev");
    let service = service_from(
        ServiceObject {
            name: Some("api".to_string()),
            namespace: None,
            service_type: None,
            ports: vec![
                ServicePortObject {
                    name: Some("http".to_string()),
                    port: 80,
                    target_port: Some(TargetPort::Number(8080)),
                    protocol: None,
                },
                ServicePortObject {
                    name: None,
                    port: 443,
                    target_port: Some(TargetPort::Name("https".to_string())),
                    protocol: Some("UDP".to_string()),
                },
            ],
            ingress_count: Some(2),
        },
        "prod",
    );
    assert_eq!(service.service_type, "ClusterIP");
    assert_eq!(service.ports[0].target_port, Some("8080".to_string()));
    assert_eq!(service.ports[0].protocol, "TCP");
    assert_eq!(service.ports[1].target_port, Some("https".to_string()));
    assert_eq!(service.ports[1].protocol, "UDP");
    assert_eq!(service.endpoint_count, Some(2));
    assert_eq!(pod_failure("pods \"x\" not found: NotFound"), IntegrationError::NotFound);
    assert_eq!(
        pod_failure("connection reset"),
        IntegrationError::NetworkError { message: "Failed to get pod: connection reset".to_string() }
    );
}

#[test]
fn kubeconfig_choice_and_expansion() {
    let mut creds = IntegrationCredentials { token: None, username: None, password: None, custom: Vec::new() };
    assert_eq!(
        choose_kubeconfig(&creds, Some("/home/dev"), true, true).ok(),
        Some("/home/dev/.kube/microk8s-config".to_string())
    );
    assert_eq!(
        choose_kubeconfig(&creds, Some("/home/dev"), false, true).ok(),
        Some("/home/dev/.kube/config".to_string())
    );
    assert!(matches!(
        choose_kubeconfig(&creds, None, true, true),
        Err(IntegrationError::ConfigError { .. })
    ));
    creds.custom.push(("kubeconfig_path".to_string(), "~/cfg".to_string()));
    assert_eq!(choose_kubeconfig(&creds, None, false, false).ok(), Some("~/cfg".to_string()));
    assert_eq!(expand_home("/etc/kube", None).ok(), Some("/etc/kube".to_string()));
    assert_eq!(expand_home("~", Some("/root/")).ok(), Some("/root/".to_string()));
    assert_eq!(expand_home("~//x", Some("/home/dev")).ok(), Some("/x".to_string()));
    assert_eq!(expand_home("~x", Some("/home/dev")).ok(), Some("/home/dev/x".to_string()));
    assert_eq!(
        expand_home("~/x", None).err(),
        Some(IntegrationError::ConfigError { message: "Failed to determine home directory".to_string() })
    );
}

#[test]
fn registry_loads_credentials_then_builds() {
    let integration = Integration {
        id: "gl".to_string(),
        integration_type: IntegrationType::GitLab,
        name: "GitLab Main".to_string(),
        base_url: "https://gitlab.com/".to_string(),
        credentials_ref: Some("gitlab-main-creds".to_string()),
    };
    assert_eq!(credentials_key(&integration), "gitlab-main-creds");
    let missing = get_adapter(&integration, Ok(None));
    assert_eq!(
        missing.err(),
        Some(IntegrationError::ConfigError {
            message: "No credentials found for integration 'GitLab Main'. Please configure credentials first."
                .to_string()
        })
    );
    let failed = get_adapter(&integration, Err("locked".to_string()));
    assert_eq!(
        failed.err(),
        Some(IntegrationError::ConfigError { message: "Failed to load credentials: locked".to_string() })
    );
    let creds = IntegrationCredentials {
        token: Some("tok".to_string()),
        username: None,
        password: None,
        custom: Vec::new(),
    };
    assert!(get_adapter(&integration, Ok(Some(creds))).is_ok());
}

#[test]
fn i32_parse_matches_std() {
    let cases = [
        "0", "42", "-42", "+7", "", "-", "+", "12a", " 1", "2147483647", "2147483648",
        "-2147483648", "-2147483649", "00012", "99999999999999999999", "-0", "+-1", "٣",
    ];
    for text in cases {
        assert_eq!(ops_flow::sonarqube::parse_i32(text), text.parse::<i32>().ok(), "{text:?}");
    }
}
