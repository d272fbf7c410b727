use devcontainer_mcp_core::auth::aws::{self, AwsAuth};
use devcontainer_mcp_core::auth::azure::{self, AzureAuth};
use devcontainer_mcp_core::auth::gcloud::{self, GcloudAuth};
use devcontainer_mcp_core::auth::github::{self, GitHubAuth};
use devcontainer_mcp_core::auth::kubernetes::{self, KubernetesAuth};
use devcontainer_mcp_core::auth::{
    check_handle_provider, is_served_provider, provider_by_name, provider_from_handle, take_active, take_by_login,
    AuthAccount, ProviderKind,
};
use devcontainer_mcp_core::error::Error;
use devcontainer_mcp_core::json::JsonValue;

fn s(v: &str) -> JsonValue {
    JsonValue::String(v.to_string())
}

fn obj(members: Vec<(&str, JsonValue)>) -> JsonValue {
    JsonValue::Object(members.into_iter().map(|(k, v)| (k.to_string(), v)).collect())
}

fn meta_text(a: &AuthAccount, key: &str) -> Option<String> {
    match &a.metadata {
        JsonValue::Object(entries) => entries.iter().find(|(k, _)| k == key).and_then(|(_, v)| match v {
            JsonValue::String(t) => Some(t.clone()),
            _ => None,
        }),
        _ => None,
    }
}

fn gh_status_doc() -> JsonValue {
    obj(vec![(
        "hosts",
        obj(vec![(
            "github.com",
            JsonValue::Array(vec![
                obj(vec![
                    ("state", s("success")),
                    ("login", s("octocat")),
                    ("active", JsonValue::Bool(true)),
                    ("scopes", s("repo, codespace")),
                ]),
                obj(vec![("state", s("error")), ("login", s("broken"))]),
                obj(vec![("state", s("success"))]),
            ]),
        )]),
    )])
}

#[test]
fn provider_names() {
    assert_eq!(GitHubAuth.name(), "github");
    assert_eq!(AwsAuth.name(), "aws");
    assert_eq!(AzureAuth.name(), "azure");
    assert_eq!(GcloudAuth.name(), "gcloud");
    assert_eq!(KubernetesAuth.name(), "kubernetes");
}

#[test]
fn provider_from_handle_takes_text_before_first_dash() {
    assert_eq!(provider_from_handle("github-aniongithub"), Some("github"));
    assert_eq!(provider_from_handle("azure-1234-5678"), Some("azure"));
    assert_eq!(provider_from_handle("nodash"), Some("nodash"));
    assert_eq!(provider_from_handle(""), Some(""));
}

#[test]
fn the_five_providers_are_served_by_name() {
    assert_eq!(provider_by_name("github"), Some(ProviderKind::GitHub));
    assert_eq!(provider_by_name("aws"), Some(ProviderKind::Aws));
    assert_eq!(provider_by_name("azure"), Some(ProviderKind::Azure));
    assert_eq!(provider_by_name("gcloud"), Some(ProviderKind::Gcloud));
    assert_eq!(provider_by_name("kubernetes"), Some(ProviderKind::Kubernetes));
    assert_eq!(provider_by_name("k8s"), None);
    assert!(is_served_provider("aws"));
    assert!(!is_served_provider("gitlab"));
    assert_eq!(check_handle_provider("github-octocat").unwrap(), ProviderKind::GitHub);
    assert_eq!(check_handle_provider("aws-prod").unwrap(), ProviderKind::Aws);
    match check_handle_provider("gitlab-me") {
        Err(Error::Io(m)) => assert_eq!(m, "Unknown auth provider: gitlab"),
        other => panic!("unexpected {other:?}"),
    }
}

#[test]
fn github_status_lists_successful_accounts() {
    let accounts = github::accounts_from_status(&gh_status_doc());
    assert_eq!(accounts.len(), 2);
    assert_eq!(accounts[0].id, "github-octocat");
    assert_eq!(accounts[0].login, "octocat");
    assert!(accounts[0].active);
    assert_eq!(meta_text(&accounts[0], "scopes").as_deref(), Some("repo, codespace"));
    assert_eq!(accounts[1].id, "github-unknown");
    assert!(!accounts[1].active);
    assert_eq!(meta_text(&accounts[1], "scopes").as_deref(), Some(""));
    assert!(github::accounts_from_status(&JsonValue::Null).is_empty());
}

#[test]
fn github_status_handles_resolve_to_their_login() {
    for a in github::accounts_from_status(&gh_status_doc()) {
        assert_eq!(github::login_of_handle(&a.id), a.login);
        assert_eq!(provider_from_handle(&a.id), Some("github"));
    }
}

#[test]
fn github_login_refreshes_the_active_account() {
    let (args, refresh) = github::login_args(Some("octocat"), Some("codespace"));
    assert!(refresh);
    assert_eq!(args, vec!["auth", "refresh", "-h", "github.com", "--user", "octocat", "-s", "codespace"]);
    let (args, refresh) = github::login_args(None, None);
    assert!(!refresh);
    assert_eq!(args, vec!["auth", "login", "-h", "github.com", "-p", "https", "-w"]);
}

#[test]
fn github_login_outcomes() {
    let r = github::login_outcome(true, true, "code copied to clipboard", Some("github-octocat".to_string()));
    assert_eq!(r.id.as_deref(), Some("github-octocat"));
    assert_eq!(r.action, "success");
    assert_eq!(r.message, "Scopes refreshed.");
    assert!(r.browser_opened);
    assert!(r.code_copied);
    let r = github::login_outcome(true, false, "done", None);
    assert_eq!(r.action, "success");
    assert_eq!(r.message, "Authentication complete.");
    assert!(!r.code_copied);
    let r = github::login_outcome(false, false, "  denied\n", None);
    assert_eq!(r.action, "error");
    assert_eq!(r.message, "Authentication failed: denied");
    assert!(!r.browser_opened);
}

#[test]
fn github_token_env() {
    let (k, v) = github::token_env("octocat", "gho_abc\n").unwrap();
    assert_eq!(k, "GH_TOKEN");
    assert_eq!(v, "gho_abc");
    match github::token_env("octocat", "  \n") {
        Err(Error::Io(m)) => assert_eq!(m, "Could not get token for GitHub account: octocat"),
        other => panic!("unexpected {other:?}"),
    }
    let env = github::no_token_env();
    assert_eq!(env, vec![("GH_TOKEN".to_string(), String::new())]);
}

#[test]
fn github_switch_token_and_logout() {
    assert_eq!(github::login_of_handle("github-octocat"), "octocat");
    assert_eq!(github::login_of_handle("octocat"), "octocat");
    assert_eq!(github::switch_args("octocat"), vec!["auth", "switch", "--user", "octocat"]);
    assert_eq!(github::token_args("octocat"), vec!["auth", "token", "-h", "github.com", "--user", "octocat"]);
    assert_eq!(github::logout_args("octocat"), vec!["auth", "logout", "-h", "github.com", "--user", "octocat"]);
    assert_eq!(github::logout_message("octocat", 0, ""), "Logged out GitHub account: octocat");
    assert_eq!(github::logout_message("octocat", 1, " nope \n"), "Logout failed: nope");
}

#[test]
fn take_active_and_by_login() {
    let accounts = github::accounts_from_status(&gh_status_doc());
    let active = take_active(accounts).unwrap();
    assert_eq!(active.login, "octocat");
    let accounts = github::accounts_from_status(&gh_status_doc());
    let by_login = take_by_login(accounts, "unknown").unwrap();
    assert_eq!(by_login.id, "github-unknown");
    let accounts = github::accounts_from_status(&gh_status_doc());
    assert!(take_by_login(accounts, "nobody").is_none());
    assert!(take_active(Vec::new()).is_none());
}

#[test]
fn aws_status_accounts() {
    let identity = obj(vec![
        ("Account", s("123456789012")),
        ("Arn", s("arn:aws:iam::123456789012:user/dev")),
        ("UserId", s("AIDA")),
    ]);
    let accounts = aws::status_accounts(0, Some(&identity), Some((0, "default\n  prod  \n\nstaging\n")));
    assert_eq!(accounts.len(), 3);
    assert_eq!(accounts[0].id, "aws-default");
    assert_eq!(accounts[0].login, "arn:aws:iam::123456789012:user/dev");
    assert!(accounts[0].active);
    assert_eq!(meta_text(&accounts[0], "profile").as_deref(), Some("default"));
    assert_eq!(meta_text(&accounts[0], "account").as_deref(), Some("123456789012"));
    assert_eq!(meta_text(&accounts[0], "user_id").as_deref(), Some("AIDA"));
    assert_eq!(accounts[1].id, "aws-prod");
    assert_eq!(accounts[1].login, "prod");
    assert!(!accounts[1].active);
    assert_eq!(accounts[2].id, "aws-staging");
    let only_profiles = aws::status_accounts(255, Some(&identity), Some((0, "dev\n")));
    assert_eq!(only_profiles.len(), 1);
    assert_eq!(only_profiles[0].id, "aws-dev");
    assert!(aws::status_accounts(0, None, Some((1, "dev\n"))).is_empty());
}

#[test]
fn aws_login_verify_and_env() {
    assert_eq!(aws::login_profile(None), "default");
    assert_eq!(aws::login_profile(Some("prod")), "prod");
    assert_eq!(aws::login_args("prod"), vec!["sso", "login", "--profile", "prod"]);
    let r = aws::login_outcome(true, "prod", "opening the browser");
    assert_eq!(r.id.as_deref(), Some("aws-prod"));
    assert_eq!(r.message, "AWS SSO login complete for profile 'prod'.");
    assert!(r.browser_opened);
    let r = aws::login_outcome(false, "prod", " expired ");
    assert_eq!(r.message, "AWS login failed: expired");
    assert_eq!(
        aws::verify_args("prod"),
        vec!["sts", "get-caller-identity", "--profile", "prod", "--output", "json"]
    );
    let doc = obj(vec![("Arn", s("arn:x"))]);
    let a = aws::verify_outcome("aws-default", 0, Some(doc)).unwrap();
    assert_eq!(a.id, "aws-default");
    assert_eq!(a.login, "arn:x");
    assert!(a.active);
    assert!(aws::verify_outcome("aws-prod", 1, Some(JsonValue::Null)).is_none());
    assert!(aws::verify_outcome("aws-prod", 0, None).is_none());
    let (k, v) = aws::resolve_env("aws-prod");
    assert_eq!((k.as_str(), v.as_str()), ("AWS_PROFILE", "prod"));
}

#[test]
fn azure_accounts_and_flows() {
    let doc = JsonValue::Array(vec![
        obj(vec![
            ("name", s("Pay-As-You-Go")),
            ("id", s("sub-1")),
            ("user", obj(vec![("name", s("me@example.com"))])),
            ("isDefault", JsonValue::Bool(true)),
            ("state", s("Enabled")),
        ]),
        obj(vec![]),
    ]);
    let accounts = azure::accounts_from_list(&doc);
    assert_eq!(accounts.len(), 2);
    assert_eq!(accounts[0].id, "azure-sub-1");
    assert_eq!(accounts[0].login, "Pay-As-You-Go (me@example.com)");
    assert!(accounts[0].active);
    assert_eq!(meta_text(&accounts[0], "subscription_id").as_deref(), Some("sub-1"));
    assert_eq!(meta_text(&accounts[0], "state").as_deref(), Some("Enabled"));
    assert_eq!(accounts[1].id, "azure-");
    assert_eq!(accounts[1].login, "unknown ()");
    assert!(!accounts[1].active);
    assert_eq!(azure::subscription_of_handle(&accounts[0].id), "sub-1");
    let r = azure::login_outcome(true, "To sign in, open the page", Some("azure-sub-1".to_string()));
    assert_eq!(r.message, "Azure authentication complete.");
    assert!(r.browser_opened);
    let r = azure::login_outcome(false, "bad\n", None);
    assert_eq!(r.message, "Azure authentication failed: bad");
    assert_eq!(azure::select_args("sub-1"), vec!["account", "set", "--subscription", "sub-1"]);
    assert_eq!(azure::resolve_env("azure-sub-1"), ("AZURE_SUBSCRIPTION_ID".to_string(), "sub-1".to_string()));
    assert_eq!(azure::logout_message(0, ""), "Logged out of Azure.");
    assert_eq!(azure::logout_message(2, " oops"), "Azure logout failed: oops");
}

#[test]
fn gcloud_accounts_and_flows() {
    let doc = JsonValue::Array(vec![
        obj(vec![("account", s("me@example.com")), ("status", s("ACTIVE"))]),
        obj(vec![("account", s("ci@example.com")), ("status", s(""))]),
    ]);
    let accounts = gcloud::accounts_from_list(&doc);
    assert_eq!(accounts.len(), 2);
    assert_eq!(accounts[0].id, "gcloud-me@example.com");
    assert!(accounts[0].active);
    assert!(!accounts[1].active);
    assert_eq!(meta_text(&accounts[0], "status").as_deref(), Some("ACTIVE"));
    assert_eq!(gcloud::account_of_handle("gcloud-ci@example.com"), "ci@example.com");
    let r = gcloud::login_outcome(true, "", None);
    assert_eq!(r.message, "Google Cloud authentication complete.");
    assert!(!r.browser_opened);
    let r = gcloud::login_outcome(false, " no ", None);
    assert_eq!(r.message, "Google Cloud authentication failed: no");
    assert_eq!(
        gcloud::resolve_env("gcloud-me@example.com"),
        ("CLOUDSDK_CORE_ACCOUNT".to_string(), "me@example.com".to_string())
    );
}

#[test]
fn kubernetes_contexts_and_flows() {
    let current = kubernetes::current_context_of(Some("kind-dev\n"));
    assert_eq!(current, "kind-dev");
    assert_eq!(kubernetes::current_context_of(None), "");
    let accounts = kubernetes::context_accounts("kind-dev\n\n  prod  \n", &current);
    assert_eq!(accounts.len(), 2);
    assert_eq!(accounts[0].id, "k8s-kind-dev");
    assert!(accounts[0].active);
    assert_eq!(accounts[1].login, "prod");
    assert!(!accounts[1].active);
    assert_eq!(meta_text(&accounts[1], "context").as_deref(), Some("prod"));
    assert_eq!(kubernetes::use_context_args("prod"), vec!["config", "use-context", "prod"]);
    assert_eq!(kubernetes::delete_context_args("prod"), vec!["config", "delete-context", "prod"]);
    let r = kubernetes::switch_outcome("prod", 0, "");
    assert_eq!(r.id.as_deref(), Some("k8s-prod"));
    assert_eq!(r.message, "Switched to Kubernetes context 'prod'.");
    let r = kubernetes::switch_outcome("prod", 1, "no such context\n");
    assert_eq!(r.message, "Failed to switch context: no such context");
    let r = kubernetes::no_context_login();
    assert_eq!(r.action, "error");
    assert!(r.message.starts_with("Kubernetes auth is managed via kubeconfig contexts. Use auth_status"));
    assert_eq!(kubernetes::context_of_handle("k8s-prod"), "prod");
    assert_eq!(kubernetes::resolve_env("k8s-prod"), ("KUBECTL_CONTEXT".to_string(), "prod".to_string()));
    assert_eq!(kubernetes::logout_message("prod", 0, ""), "Deleted Kubernetes context: prod");
    assert_eq!(kubernetes::logout_message("prod", 1, " x "), "Failed to delete context: x");
}

#[test]
fn every_status_handle_names_its_account() {
    for a in aws::profile_accounts("dev\nprod\n") {
        assert_eq!(aws::profile_of_handle(&a.id), a.login);
    }
    assert_eq!(aws::profile_of_handle("aws-default"), "default");
    let login = aws::login_outcome(true, "sso-dev", "");
    assert_eq!(aws::profile_of_handle(login.id.as_deref().unwrap()), "sso-dev");
    for a in kubernetes::context_accounts("a\nb-c\n", "b-c") {
        assert_eq!(kubernetes::context_of_handle(&a.id), a.login);
        assert_eq!(a.active, a.login == "b-c");
    }
    let switched = kubernetes::switch_outcome("kind-x", 0, "");
    assert_eq!(kubernetes::context_of_handle(switched.id.as_deref().unwrap()), "kind-x");
    let doc = JsonValue::Array(vec![obj(vec![("account", s("a@b.c")), ("status", s("ACTIVE"))])]);
    for a in gcloud::accounts_from_list(&doc) {
        assert_eq!(gcloud::account_of_handle(&a.id), a.login);
    }
    let doc = JsonValue::Array(vec![obj(vec![("id", s("sub-9"))])]);
    for a in azure::accounts_from_list(&doc) {
        assert_eq!(azure::subscription_of_handle(&a.id), meta_text(&a, "subscription_id").unwrap());
    }
}
