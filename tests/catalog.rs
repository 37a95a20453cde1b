use ops_flow::catalog::{check_kind, find_integration, flow_file_stem, order_newest_first, text_less};
use ops_flow::types::{FlowMetadata, Integration, IntegrationType};

fn integration(id: &str, kind: IntegrationType) -> Integration {
    Integration {
        id: id.to_string(),
        integration_type: kind,
        name: format!("{id} name"),
        base_url: "https://example.com".to_string(),
        credentials_ref: None,
    }
}

fn flow(id: &str, updated_at: &str) -> FlowMetadata {
    FlowMetadata {
        id: id.to_string(),
        name: id.to_uppercase(),
        created_at: "2024-01-01T00:00:00Z".to_string(),
        updated_at: updated_at.to_string(),
    }
}

#[test]
fn integrations_are_found_by_id() {
    let list = vec![
        integration("a", IntegrationType::GitLab),
        integration("b", IntegrationType::Jenkins),
        integration("b", IntegrationType::Keycloak),
    ];
    assert_eq!(find_integration(&list, "b"), Some(1));
    assert_eq!(find_integration(&list, "a"), Some(0));
    assert_eq!(find_integration(&list, "z"), None);
    assert_eq!(find_integration(&Vec::new(), "a"), None);
}

#[test]
fn kinds_are_checked() {
    let gitlab = integration("gl-1", IntegrationType::GitLab);
    assert_eq!(check_kind(&gitlab, IntegrationType::GitLab), Ok(()));
    assert_eq!(
        check_kind(&gitlab, IntegrationType::Kubernetes),
        Err("Integration gl-1 is not a Kubernetes integration".to_string())
    );
}

#[test]
fn flow_ids_keep_only_safe_characters() {
    assert_eq!(flow_file_stem("flow-1_a"), Ok("flow-1_a".to_string()));
    assert_eq!(flow_file_stem("../../etc/passwd"), Ok("etcpasswd".to_string()));
    assert_eq!(flow_file_stem("日本"), Ok("日本".to_string()));
    assert_eq!(flow_file_stem("../"), Err("Flow ID cannot be empty".to_string()));
    assert_eq!(flow_file_stem(""), Err("Flow ID cannot be empty".to_string()));
}

#[test]
fn text_order_matches_str_order() {
    let words = ["", "a", "ab", "b", "B", "2024-01-02", "2024-01-10", "é", "z"];
    for x in words {
        for y in words {
            assert_eq!(text_less(x, y), x < y, "{x:?} < {y:?}");
        }
    }
}

#[test]
fn flows_are_ordered_newest_first() {
    let flows = vec![
        flow("old", "2024-01-01T10:00:00Z"),
        flow("new", "2024-03-01T10:00:00Z"),
        flow("mid", "2024-02-01T10:00:00Z"),
        flow("mid2", "2024-02-01T10:00:00Z"),
    ];
    let ordered = order_newest_first(flows);
    let ids: Vec<&str> = ordered.iter().map(|f| f.id.as_str()).collect();
    assert_eq!(ids, vec!["new", "mid", "mid2", "old"]);
    assert!(order_newest_first(Vec::new()).is_empty());
}
