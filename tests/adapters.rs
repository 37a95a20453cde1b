use ops_flow::adapter::{create_adapter, Adapter, IntegrationAdapter};
use ops_flow::errors::IntegrationError;
use ops_flow::gitlab::GitLabAdapter;
use ops_flow::http::{ApiResponse, Auth, Method};
use ops_flow::jenkins::{status_of, JenkinsAdapter, JenkinsBuildStatus, JobListing};
use ops_flow::keycloak::KeycloakAdapter;
use ops_flow::sonarqube::SonarQubeAdapter;
use ops_flow::types::{Integration, IntegrationCredentials, IntegrationType};

fn ok(body: &str) -> Result<ApiResponse, IntegrationError> {
    Ok(ApiResponse { status: 200, body: body.to_string() })
}

fn integration(kind: IntegrationType, base_url: &str) -> Integration {
    Integration {
        id: "integration-1".to_string(),
        integration_type: kind,
        name: "Main".to_string(),
        base_url: base_url.to_string(),
        credentials_ref: None,
    }
}

fn credentials(token: Option<&str>, username: Option<&str>, password: Option<&str>) -> IntegrationCredentials {
    IntegrationCredentials {
        token: token.map(|t| t.to_string()),
        username: username.map(|u| u.to_string()),
        password: password.map(|p| p.to_string()),
        custom: Vec::new(),
    }
}

#[test]
fn mod_test_api_url() {
    let adapter = GitLabAdapter::new("https://gitlab.com".to_string(), "test-token".to_string());
    assert_eq!(adapter.api_url("/projects"), "https://gitlab.com/api/v4/projects");
}

#[test]
fn mod_test_api_url_trailing_slash() {
    let adapter = GitLabAdapter::new("https://gitlab.com/".to_string(), "test-token".to_string());
    assert_eq!(adapter.api_url("/projects"), "https://gitlab.com/api/v4/projects");
}

#[test]
fn jenkins_test_api_url() {
    let adapter = JenkinsAdapter::new(
        "https://jenkins.example.com".to_string(),
        "user".to_string(),
        "token".to_string(),
    );
    assert_eq!(adapter.api_url("/api/json"), "https://jenkins.example.com/api/json");
}

#[test]
fn jenkins_test_api_url_trailing_slash() {
    let adapter = JenkinsAdapter::new(
        "https://jenkins.example.com/".to_string(),
        "user".to_string(),
        "token".to_string(),
    );
    assert_eq!(adapter.api_url("/api/json"), "https://jenkins.example.com/api/json");
}

#[test]
fn keycloak_test_api_url() {
    let adapter = KeycloakAdapter::new(
        "https://keycloak.example.com".to_string(),
        "admin".to_string(),
        "password".to_string(),
    );
    assert_eq!(adapter.api_url("/admin/realms"), "https://keycloak.example.com/admin/realms");
}

#[test]
fn keycloak_test_api_url_trailing_slash() {
    let adapter = KeycloakAdapter::new(
        "https://keycloak.example.com/".to_string(),
        "admin".to_string(),
        "password".to_string(),
    );
    assert_eq!(adapter.api_url("/admin/realms"), "https://keycloak.example.com/admin/realms");
}

#[test]
fn sonarqube_test_api_url() {
    let adapter = SonarQubeAdapter::new(
        "https://sonarqube.example.com".to_string(),
        "test-token".to_string(),
    );
    assert_eq!(
        adapter.api_url("/projects/search"),
        "https://sonarqube.example.com/api/projects/search"
    );
}

#[test]
fn sonarqube_test_api_url_trailing_slash() {
    let adapter = SonarQubeAdapter::new(
        "https://sonarqube.example.com/".to_string(),
        "test-token".to_string(),
    );
    assert_eq!(
        adapter.api_url("/projects/search"),
        "https://sonarqube.example.com/api/projects/search"
    );
}

#[test]
fn normalised_base_is_the_same_with_or_without_slash() {
    let a = GitLabAdapter::new("https://x.com/".to_string(), "t".to_string());
    let b = GitLabAdapter::new("https://x.com".to_string(), "t".to_string());
    let c = GitLabAdapter::new("https://x.com//".to_string(), "t".to_string());
    assert_eq!(a.get_base_url(), "https://x.com");
    assert_eq!(a.get_base_url(), b.get_base_url());
    assert_eq!(c.get_base_url(), b.get_base_url());
    let url = a.api_url("/projects");
    assert!(!url["https://".len()..].contains("//"));
}

#[test]
fn jenkins_factory_uses_token_as_password() {
    let made = create_adapter(
        &integration(IntegrationType::Jenkins, "https://ci.example.com/"),
        &credentials(Some("t"), Some("bob"), None),
    );
    match made {
        Ok(Adapter::Jenkins(a)) => {
            let request = a.connection_request();
            assert_eq!(
                request.auth,
                Auth::Basic { username: "bob".to_string(), password: "t".to_string() }
            );
            assert_eq!(request.url, "https://ci.example.com/api/json?tree=nodeName");
        }
        _ => panic!("expected a Jenkins adapter"),
    }
}

#[test]
fn gitlab_factory_needs_a_token() {
    let made = create_adapter(
        &integration(IntegrationType::GitLab, "https://gitlab.com"),
        &credentials(None, Some("bob"), Some("secret")),
    );
    match made {
        Err(IntegrationError::ConfigError { message }) => {
            assert!(message.contains("Personal Access Token"));
        }
        _ => panic!("expected a configuration error"),
    }
}

#[test]
fn factory_errors_and_choices() {
    let keycloak = create_adapter(
        &integration(IntegrationType::Keycloak, "https://id.example.com"),
        &credentials(Some("tok"), None, Some("pw")),
    );
    assert_eq!(
        keycloak.err(),
        Some(IntegrationError::ConfigError { message: "Keycloak integration requires a username".to_string() })
    );
    let jenkins = create_adapter(
        &integration(IntegrationType::Jenkins, "https://ci.example.com"),
        &credentials(None, Some("bob"), Some("")),
    );
    assert_eq!(
        jenkins.err(),
        Some(IntegrationError::ConfigError { message: "Jenkins integration requires a password or token".to_string() })
    );
    let sonar = create_adapter(
        &integration(IntegrationType::SonarQube, "https://q.example.com"),
        &credentials(None, None, None),
    );
    assert_eq!(
        sonar.err(),
        Some(IntegrationError::ConfigError { message: "SonarQube integration requires a token".to_string() })
    );
    let cluster = create_adapter(
        &integration(IntegrationType::Kubernetes, ""),
        &credentials(None, None, None),
    );
    assert!(matches!(cluster, Err(IntegrationError::ConfigError { .. })));
    let keycloak = create_adapter(
        &integration(IntegrationType::Keycloak, "https://id.example.com/"),
        &credentials(Some("tok"), Some("admin"), Some("pw")),
    )
    .ok()
    .unwrap();
    assert_eq!(keycloak.get_name(), "Keycloak");
    assert_eq!(keycloak.get_integration_type(), IntegrationType::Keycloak);
    assert_eq!(keycloak.get_base_url(), "https://id.example.com");
    let request = keycloak.connection_request();
    assert_eq!(request.auth, Auth::Basic { username: "admin".to_string(), password: "pw".to_string() });
}

#[test]
fn gitlab_reads_projects_and_rejects_html() {
    let adapter = GitLabAdapter::new("https://gitlab.example.com/".to_string(), "tok".to_string());
    let request = adapter.projects_request();
    assert_eq!(request.method, Method::Get);
    assert_eq!(request.url, "https://gitlab.example.com/api/v4/projects?per_page=100");
    assert_eq!(
        request.auth,
        Auth::Header { name: "PRIVATE-TOKEN".to_string(), value: "tok".to_string() }
    );
    let projects = adapter
        .read_projects(ok(r#"[{"id": 7, "name": "api", "path": "team/api", "web_url": "https://g/team/api", "extra": 1}]"#))
        .ok()
        .unwrap();
    assert_eq!(projects.len(), 1);
    assert_eq!(projects[0].id, 7);
    assert_eq!(projects[0].path, "team/api");
    let html = adapter.read_projects(ok("  <!DOCTYPE html><html></html>"));
    match html {
        Err(IntegrationError::ConfigError { message }) => {
            assert!(message.contains("returned HTML instead of JSON"));
            assert!(message.contains("https://gitlab.example.com/api/v4/projects?per_page=100"));
        }
        _ => panic!("expected a configuration error"),
    }
    let empty = adapter.read_projects(ok("   "));
    assert!(matches!(empty, Err(IntegrationError::ConfigError { .. })));
    let refused = adapter.read_projects(Ok(ApiResponse { status: 401, body: "{\"message\":\"401\"}".to_string() }));
    assert!(matches!(refused, Err(IntegrationError::AuthError { .. })));
    let broken = adapter.read_projects(ok("{not json"));
    match broken {
        Err(IntegrationError::ConfigError { message }) => {
            assert!(message.starts_with("Failed to parse response: error decoding response body: "));
        }
        _ => panic!("expected a configuration error"),
    }
    let passed = adapter.read_projects(Err(IntegrationError::NotFound));
    assert_eq!(passed.err(), Some(IntegrationError::NotFound));
}

#[test]
fn gitlab_trigger_and_webhooks() {
    let adapter = GitLabAdapter::new("https://gitlab.com".to_string(), "tok".to_string());
    let request = adapter.trigger_pipeline_request(42, "feature \"x\"");
    assert_eq!(request.method, Method::Post);
    assert_eq!(request.url, "https://gitlab.com/api/v4/projects/42/trigger/pipeline");
    assert_eq!(request.json_body, Some("{\"ref\":\"feature \\\"x\\\"\"}".to_string()));
    let pipeline = adapter
        .read_triggered_pipeline(42, ok(r#"{"id": 9, "status": "pending", "ref": "main", "created_at": "2024-01-01T00:00:00Z"}"#))
        .ok()
        .unwrap();
    assert_eq!(pipeline.git_ref, "main");
    let hooks = adapter
        .read_webhooks(42, ok(r#"[{"id": 1, "url": "https://h", "events": ["push", "tag"]}]"#))
        .ok()
        .unwrap();
    assert_eq!(hooks[0].events, vec!["push".to_string(), "tag".to_string()]);
    assert_eq!(
        adapter.pipelines_request(3).url,
        "https://gitlab.com/api/v4/projects/3/pipelines?per_page=100"
    );
    assert!(adapter.check_connection(ok("{\"id\": 1}")).is_ok());
}

#[test]
fn jenkins_build_status_mapping() {
    assert_eq!(status_of(Some("SUCCESS"), None), JenkinsBuildStatus::Success);
    assert_eq!(status_of(Some("FAILURE"), None), JenkinsBuildStatus::Failure);
    assert_eq!(status_of(Some("UNSTABLE"), None), JenkinsBuildStatus::Unstable);
    assert_eq!(status_of(Some("ABORTED"), None), JenkinsBuildStatus::Aborted);
    assert_eq!(status_of(Some("NOT_BUILT"), None), JenkinsBuildStatus::NotBuilt);
    assert_eq!(status_of(None, None), JenkinsBuildStatus::Building);
    assert_eq!(status_of(None, Some(true)), JenkinsBuildStatus::Building);
    assert_eq!(status_of(None, Some(false)), JenkinsBuildStatus::Pending);
    // An unknown result silently counts as not built.
    assert_eq!(status_of(Some("WEIRD"), Some(true)), JenkinsBuildStatus::NotBuilt);
}

#[test]
fn jenkins_traversal_descends_into_folders() {
    let adapter = JenkinsAdapter::new("https://ci.example.com".to_string(), "u".to_string(), "p".to_string());
    let mut listing = JobListing::new();
    let answers = [
        r#"{"jobs": [
            {"name": "folderA", "url": "https://ci/job/folderA/", "_class": "com.cloudbees.hudson.plugins.folder.Folder"},
            {"name": "top", "url": "https://ci/job/top/", "color": "blue", "_class": "hudson.model.FreeStyleProject"}
        ]}"#,
        r#"{"jobs": [
            {"name": "folder B", "url": "https://ci/job/folderA/job/folder%20B/", "color": "folder"},
            {"url": "https://ci/nameless"}
        ]}"#,
        r#"{"jobs": [
            {"name": "jobName", "url": "https://ci/deep/", "color": "red"}
        ]}"#,
    ];
    let mut urls = Vec::new();
    let mut k = 0;
    while let Some(folder) = listing.next_folder() {
        urls.push(adapter.folder_request(folder).url);
        let body = answers[k];
        k += 1;
        listing.absorb(ok(body));
    }
    assert_eq!(k, 3);
    assert_eq!(urls[0], "https://ci.example.com/api/json?tree=jobs[name,url,color,_class]");
    assert_eq!(urls[1], "https://ci.example.com/job/folderA/api/json?tree=jobs[name,url,color,_class]");
    assert_eq!(
        urls[2],
        "https://ci.example.com/job/folderA/job/folder%20B/api/json?tree=jobs[name,url,color,_class]"
    );
    let jobs = listing.into_jobs().ok().unwrap();
    let names: Vec<&str> = jobs.iter().map(|j| j.name.as_str()).collect();
    assert_eq!(names, vec!["top", "folderA/folder B/jobName"]);
    assert!(jobs.iter().all(|j| j.color != "folder"));
}

#[test]
fn jenkins_traversal_skips_a_failed_folder() {
    let mut listing = JobListing::new();
    listing.absorb(ok(r#"{"jobs": [{"name": "f", "url": "u", "_class": "x.Folder"}, {"name": "j", "url": "v"}]}"#));
    listing.absorb(Err(IntegrationError::AuthError { message: "denied".to_string() }));
    assert!(listing.next_folder().is_none());
    let jobs = listing.into_jobs().ok().unwrap();
    assert_eq!(jobs.len(), 1);
    assert_eq!(jobs[0].name, "j");
    assert_eq!(jobs[0].color, "notbuilt");
}

#[test]
fn jenkins_builds_and_details() {
    let adapter = JenkinsAdapter::new("https://ci.example.com/".to_string(), "u".to_string(), "p".to_string());
    assert_eq!(
        adapter.builds_request("my job").url,
        "https://ci.example.com/job/my%20job/api/json?tree=builds[number,result,timestamp,url,duration]"
    );
    assert_eq!(
        adapter.build_details_request("app", 12).url,
        "https://ci.example.com/job/app/12/api/json"
    );
    let builds = adapter
        .read_builds(ok(r#"{"builds": [
            {"number": 2, "result": null, "timestamp": 1700000000000, "url": "https://ci/2"},
            {"number": 1, "result": "SUCCESS", "timestamp": 1690000000000, "url": "https://ci/1", "duration": 5300}
        ]}"#))
        .ok()
        .unwrap();
    assert_eq!(builds.len(), 2);
    assert_eq!(builds[0].status, JenkinsBuildStatus::Building);
    assert_eq!(builds[0].timestamp, "1700000000000");
    assert_eq!(builds[0].duration, None);
    assert_eq!(builds[1].status, JenkinsBuildStatus::Success);
    assert_eq!(builds[1].duration, Some("5300".to_string()));
    let missing = adapter.read_builds(ok(r#"{"builds": [{"number": 3, "timestamp": 1}]}"#));
    assert_eq!(
        missing.err(),
        Some(IntegrationError::ConfigError { message: "Invalid build format: missing 'url'".to_string() })
    );
    let no_array = adapter.read_builds(ok("{}"));
    assert_eq!(
        no_array.err(),
        Some(IntegrationError::ConfigError {
            message: "Invalid response format: missing 'builds' array".to_string()
        })
    );
    let pending = adapter
        .read_build_details(ok(r#"{"number": 5, "result": null, "building": false, "timestamp": -1, "url": "https://ci/5"}"#))
        .ok()
        .unwrap();
    assert_eq!(pending.status, JenkinsBuildStatus::Pending);
    assert_eq!(pending.timestamp, "-1");
    let running = adapter
        .read_build_details(ok(r#"{"number": 6, "building": true, "timestamp": 7, "url": "https://ci/6"}"#))
        .ok()
        .unwrap();
    assert_eq!(running.status, JenkinsBuildStatus::Building);
}

#[test]
fn jenkins_trigger_endpoints() {
    let adapter = JenkinsAdapter::new("https://ci.example.com".to_string(), "u".to_string(), "p".to_string());
    assert_eq!(adapter.trigger_build_request("app", None).url, "https://ci.example.com/job/app/build");
    assert_eq!(
        adapter.trigger_build_request("app", Some(Vec::new())).url,
        "https://ci.example.com/job/app/build"
    );
    let params = vec![
        ("BRANCH".to_string(), "main".to_string()),
        ("NOTE".to_string(), "a b&c".to_string()),
    ];
    let request = adapter.trigger_build_request("app", Some(params));
    assert_eq!(request.method, Method::Post);
    assert_eq!(
        request.url,
        "https://ci.example.com/job/app/buildWithParameters?BRANCH=main&NOTE=a%20b%26c"
    );
    assert!(adapter.read_trigger(Ok(ApiResponse { status: 201, body: String::new() })).is_ok());
    assert_eq!(
        adapter.read_trigger(Ok(ApiResponse { status: 404, body: String::new() })).err(),
        Some(IntegrationError::NotFound)
    );
}

#[test]
fn jenkins_traversal_surfaces_a_failed_root() {
    let refused = IntegrationError::AuthError { message: "Authentication failed".to_string() };
    let mut listing = JobListing::new();
    listing.absorb(Err(refused.clone()));
    assert!(listing.next_folder().is_none());
    assert_eq!(listing.into_jobs().err(), Some(refused));
    let mut malformed = JobListing::new();
    malformed.absorb(ok("{}"));
    assert_eq!(
        malformed.into_jobs().err(),
        Some(IntegrationError::ConfigError { message: "Invalid response format: missing 'jobs' array".to_string() })
    );
    let mut answered = JobListing::new();
    answered.absorb(Ok(ApiResponse { status: 401, body: "bad credentials".to_string() }));
    assert_eq!(
        answered.into_jobs().err(),
        Some(IntegrationError::AuthError { message: "bad credentials".to_string() })
    );
}

#[test]
fn jenkins_nested_folders_give_full_paths() {
    let adapter = JenkinsAdapter::new("https://ci.example.com/".to_string(), "u".to_string(), "p".to_string());
    let answers = [
        r#"{"jobs": [{"name": "folderA", "url": "https://ci/a/", "_class": "com.cloudbees.hudson.plugins.folder.Folder"}]}"#,
        r#"{"jobs": [{"name": "folderB", "url": "https://ci/b/", "_class": "com.cloudbees.hudson.plugins.folder.Folder"}]}"#,
        r#"{"jobs": [{"name": "jobName", "url": "https://ci/j/", "color": "blue", "_class": "hudson.model.FreeStyleProject"}]}"#,
    ];
    let mut listing = JobListing::new();
    let mut urls = Vec::new();
    let mut k = 0;
    while let Some(folder) = listing.next_folder() {
        urls.push(adapter.folder_request(folder).url);
        listing.absorb(ok(answers[k]));
        k += 1;
    }
    assert_eq!(
        urls[2],
        "https://ci.example.com/job/folderA/job/folderB/api/json?tree=jobs[name,url,color,_class]"
    );
    let jobs = listing.into_jobs().ok().unwrap();
    assert_eq!(jobs.len(), 1);
    assert_eq!(jobs[0].name, "folderA/folderB/jobName");
    assert_eq!(jobs[0].url, "https://ci/j/");
    assert_eq!(jobs[0].color, "blue");
}

#[test]
fn trigger_body_quotes_like_serde_json() {
    let adapter = GitLabAdapter::new("https://gitlab.com".to_string(), "tok".to_string());
    let git_ref = "a\"b\\c\n\t\u{1}\u{1f}é/\u{7f}";
    let request = adapter.trigger_pipeline_request(1, git_ref);
    let expected = format!("{{\"ref\":{}}}", serde_json::to_string(git_ref).unwrap());
    assert_eq!(request.json_body, Some(expected));
    assert_eq!(
        request.json_body,
        Some("{\"ref\":\"a\\\"b\\\\c\\n\\t\\u0001\\u001fé/\u{7f}\"}".to_string())
    );
}
