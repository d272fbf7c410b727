//! GitHub accounts through the `gh` CLI: what `gh auth status` reports, the
//! command lines of the login, switch, token and logout flows, and what
//! their outcomes mean.

use vstd::prelude::*;
use crate::auth::{
    account_is, accounts_are, lemma_accounts_push, lemma_models_from, lemma_provider_of_handle, lemma_strip_own_prefix,
    handle_provider, served_provider, lemma_models_step, models_of, failed_login, failed_login_result, login_result, new_account,
    AccountModel, AuthAccount, AuthLoginResult, LoginModel,
};
use crate::error::Error;
use crate::json::{flag_at, flag_at_or, get_value, text_at, text_at_or, text_or, value_get, JsonValue};
use crate::text::{
    concat, contains_text, find, flag_value_before, opt_text, push_text, strip_prefix_or_self, strip_prefix_text, text_list,
    texts_view, trim, trim_text,
};

verus! {

/// The GitHub auth provider.
pub struct GitHubAuth;

impl GitHubAuth {
    /// The provider's name.
    pub fn name(&self) -> (r: &'static str)
        ensures
            r@ == "github"@,
    {
        "github"
    }
}

/// `flag`, or `default` when absent.
pub open spec fn flag_or(flag: Option<bool>, default: bool) -> bool {
    match flag {
        Some(b) => b,
        None => default,
    }
}

/// The account a `gh auth status --json hosts` entry stands for: only
/// entries whose `state` is `"success"` are accounts.
pub open spec fn github_account(entry: JsonValue) -> Option<AccountModel> {
    if text_at(entry, "state"@) == Some("success"@) {
        let login = text_or(text_at(entry, "login"@), "unknown"@);
        Some(AccountModel {
            id: "github-"@ + login,
            login,
            active: flag_or(flag_at(entry, "active"@), false),
            metadata: seq![("scopes"@, text_or(text_at(entry, "scopes"@), ""@))],
        })
    } else {
        None
    }
}

/// The accounts of the host entries, in order.
pub open spec fn github_accounts_of(entries: Seq<JsonValue>) -> Seq<AccountModel> {
    models_of(entries, |e: JsonValue| github_account(e))
}

/// The entries under `hosts."github.com"`, when that is an array.
pub open spec fn host_entries(doc: JsonValue) -> Seq<JsonValue> {
    match value_get(doc, "hosts"@) {
        Some(hosts) => match value_get(hosts, "github.com"@) {
            Some(JsonValue::Array(items)) => items@,
            _ => Seq::empty(),
        },
        None => Seq::empty(),
    }
}

/// The login a handle names: the handle without its `github-` prefix.
pub open spec fn handle_login(handle: Seq<char>) -> Seq<char> {
    strip_prefix_or_self(handle, "github-"@)
}

/// The environment that clears an inherited token, so that `gh` uses its
/// keyring: `GH_TOKEN` set to the empty string.
pub fn no_token_env() -> (r: Vec<(String, String)>)
    ensures
        r@.len() == 1,
        r@[0].0@ == "GH_TOKEN"@,
        r@[0].1@ == Seq::<char>::empty(),
{
    let mut env: Vec<(String, String)> = Vec::new();
    env.push((String::from_str("GH_TOKEN"), String::new()));
    env
}

/// The account one host entry stands for, if any.
pub fn account_from_entry(entry: &JsonValue) -> (r: Option<AuthAccount>)
    ensures
        match github_account(*entry) {
            Some(m) => r matches Some(a) && account_is(a, m),
            None => r is None,
        },
{
    let is_success = match get_value(entry, "state") {
        Some(JsonValue::String(s)) => crate::text::same_text(s.as_str(), "success"),
        _ => false,
    };
    if !is_success {
        return None;
    }
    let login = text_at_or(entry, "login", "unknown");
    let active = flag_at_or(entry, "active", false);
    let scopes = text_at_or(entry, "scopes", "");
    let id = concat("github-", login.as_str());
    let members = vec![("scopes", scopes.as_str())];
    let a = new_account(id, login, active, members.as_slice());
    assert(crate::json::pairs_view(members@) =~= seq![("scopes"@, scopes@)]);
    Some(a)
}

/// The accounts `gh auth status --json hosts` reports for github.com.
pub fn accounts_from_status(doc: &JsonValue) -> (r: Vec<AuthAccount>)
    ensures
        accounts_are(r@, github_accounts_of(host_entries(*doc))),
{
    let mut out: Vec<AuthAccount> = Vec::new();
    let entries = match get_value(doc, "hosts") {
        Some(hosts) => match get_value(hosts, "github.com") {
            Some(JsonValue::Array(items)) => items,
            _ => {
                return out;
            },
        },
        None => {
            assert(github_accounts_of(Seq::empty()) =~= Seq::<AccountModel>::empty());
            return out;
        },
    };
    let mut i: usize = 0;
    while i < entries.len()
        invariant
            i <= entries@.len(),
            entries@ == host_entries(*doc),
            accounts_are(out@, github_accounts_of(entries@.take(i as int))),
        decreases entries@.len() - i,
    {
        proof {
            lemma_models_step(entries@, |e: JsonValue| github_account(e), i as int);
        }
        match account_from_entry(&entries[i]) {
            Some(a) => {
                proof {
                    lemma_accounts_push(out@, github_accounts_of(entries@.take(i as int)), a, github_account(entries@[i as int])->0);
                }
                out.push(a);
            },
            None => {},
        }
        i = i + 1;
    }
    assert(entries@.take(i as int) =~= entries@);
    out
}

/// The login a handle names (`handle.strip_prefix("github-").unwrap_or(handle)`).
pub fn login_of_handle(handle: &str) -> (r: &str)
    ensures
        r@ == handle_login(handle@),
{
    strip_prefix_text(handle, "github-")
}

/// The `-s scopes` flag when scopes are asked for.
pub open spec fn scopes_flag(scopes: Option<Seq<char>>) -> Seq<Seq<char>> {
    match scopes {
        Some(s) => seq!["-s"@, s],
        None => Seq::empty(),
    }
}

/// The `gh` arguments of a login: a refresh of the active account's
/// scopes when there is one, a fresh web login otherwise.
pub open spec fn login_command(active_login: Option<Seq<char>>, scopes: Option<Seq<char>>) -> Seq<Seq<char>> {
    match active_login {
        Some(login) => seq!["auth"@, "refresh"@, "-h"@, "github.com"@, "--user"@, login] + scopes_flag(scopes),
        None => seq!["auth"@, "login"@, "-h"@, "github.com"@, "-p"@, "https"@, "-w"@] + scopes_flag(scopes),
    }
}

/// Whenever scopes are asked for, the login arguments end with `-s` and
/// those scopes, on a refresh as on a fresh login; without scopes nothing
/// follows the base command. With an active account the flow refreshes that account
/// (`auth refresh ... --user <login>`); without one it is a web login
/// (`auth login ... -w`).
pub proof fn law_login_requests_the_scopes(active_login: Option<Seq<char>>, scopes: Option<Seq<char>>)
    ensures
        ({
            let a = login_command(active_login, scopes);
            &&& a[0] == "auth"@
            &&& (scopes matches Some(s) ==> a.len() >= 2 && a[a.len() - 2] == "-s"@ && a[a.len() - 1] == s)
            &&& (scopes is None ==> a.len() == if active_login is Some { 6int } else { 7int })
            &&& (active_login matches Some(l) ==> a[1] == "refresh"@ && flag_value_before(a, "--user"@, l, a.len() as int))
            &&& (active_login is None ==> a[1] == "login"@ && a[6] == "-w"@)
        }),
{
    let a = login_command(active_login, scopes);
    if let Some(l) = active_login {
        assert(a[4] == "--user"@ && a[5] == l);
    }
}

/// Arguments of the login flow; the flag says whether it refreshes.
pub fn login_args(active_login: Option<&str>, scopes: Option<&str>) -> (r: (Vec<String>, bool))
    ensures
        r.0.deep_view() == login_command(opt_text(active_login), opt_text(scopes)),
        r.1 == active_login is Some,
{
    let (mut args, is_refresh) = match active_login {
        Some(login) => {
            let a = text_list(vec!["auth", "refresh", "-h", "github.com", "--user", login].as_slice());
            (a, true)
        },
        None => {
            let a = text_list(vec!["auth", "login", "-h", "github.com", "-p", "https", "-w"].as_slice());
            (a, false)
        },
    };
    let ghost base = args.deep_view();
    match scopes {
        Some(s) => {
            push_text(&mut args, "-s");
            push_text(&mut args, s);
        },
        None => {},
    }
    proof {
        assert(args.deep_view() =~= base + scopes_flag(opt_text(scopes)));
        match active_login {
            Some(login) => {
                assert(base =~= seq!["auth"@, "refresh"@, "-h"@, "github.com"@, "--user"@, login@]);
            },
            None => {
                assert(base =~= seq!["auth"@, "login"@, "-h"@, "github.com"@, "-p"@, "https"@, "-w"@]);
            },
        }
    }
    (args, is_refresh)
}

/// What a finished login flow means. On success the handle is that of the
/// account `gh` then reports active; `combined` is the flow's stdout
/// followed by its stderr.
pub open spec fn login_outcome_model(succeeded: bool, is_refresh: bool, combined: Seq<char>, active_id: Option<Seq<char>>) -> LoginModel {
    if succeeded {
        LoginModel {
            id: active_id,
            action: "success"@,
            message: if is_refresh { "Scopes refreshed."@ } else { "Authentication complete."@ },
            browser_opened: true,
            code_copied: find(combined, "copied"@) is Some,
        }
    } else {
        failed_login("Authentication failed: "@, combined)
    }
}

/// The result of a finished login flow.
pub fn login_outcome(succeeded: bool, is_refresh: bool, combined: &str, active_id: Option<String>) -> (r: AuthLoginResult)
    ensures
        r@ == login_outcome_model(succeeded, is_refresh, combined@, active_id.deep_view()),
{
    if succeeded {
        let message = if is_refresh { "Scopes refreshed." } else { "Authentication complete." };
        login_result(active_id, "success", String::from_str(message), true, contains_text(combined, "copied"))
    } else {
        failed_login_result("Authentication failed: ", combined)
    }
}

/// Arguments that make `login` the active account.
pub fn switch_args(login: &str) -> (r: Vec<String>)
    ensures
        r.deep_view() == seq!["auth"@, "switch"@, "--user"@, login@],
{
    let r = text_list(vec!["auth", "switch", "--user", login].as_slice());
    assert(r.deep_view() =~= seq!["auth"@, "switch"@, "--user"@, login@]);
    r
}

/// Arguments that print the token of `login`.
pub fn token_args(login: &str) -> (r: Vec<String>)
    ensures
        r.deep_view() == seq!["auth"@, "token"@, "-h"@, "github.com"@, "--user"@, login@],
{
    let r = text_list(vec!["auth", "token", "-h", "github.com", "--user", login].as_slice());
    assert(r.deep_view() =~= seq!["auth"@, "token"@, "-h"@, "github.com"@, "--user"@, login@]);
    r
}

/// Arguments that log `login` out of github.com.
pub fn logout_args(login: &str) -> (r: Vec<String>)
    ensures
        r.deep_view() == seq!["auth"@, "logout"@, "-h"@, "github.com"@, "--user"@, login@],
{
    let r = text_list(vec!["auth", "logout", "-h", "github.com", "--user", login].as_slice());
    assert(r.deep_view() =~= seq!["auth"@, "logout"@, "-h"@, "github.com"@, "--user"@, login@]);
    r
}

/// The environment a handle resolves to, from what `gh auth token` printed:
/// `GH_TOKEN` with the trimmed token, or an error when it printed nothing
/// but whitespace.
pub fn token_env(login: &str, token_output: &str) -> (r: Result<(String, String), Error>)
    ensures
        trim(token_output@).len() == 0 <==> r is Err,
        r matches Ok(pair) ==> pair.0@ == "GH_TOKEN"@ && pair.1@ == trim(token_output@),
        r matches Err(e) ==> e matches Error::Io(m) && m@ == "Could not get token for GitHub account: "@ + login@,
{
    let token = trim_text(token_output);
    if token.unicode_len() == 0 {
        return Err(Error::Io(concat("Could not get token for GitHub account: ", login)));
    }
    Ok((String::from_str("GH_TOKEN"), token))
}

/// The message of a logout, from the exit code and stderr of `gh auth logout`.
pub fn logout_message(login: &str, exit_code: i32, stderr: &str) -> (r: String)
    ensures
        exit_code == 0 ==> r@ == "Logged out GitHub account: "@ + login@,
        exit_code != 0 ==> r@ == "Logout failed: "@ + trim(stderr@),
{
    if exit_code == 0 {
        concat("Logged out GitHub account: ", login)
    } else {
        let t = trim_text(stderr);
        concat("Logout failed: ", t.as_str())
    }
}

/// Every account `gh auth status` reports has a handle that names its own
/// login and the served `github` provider.
pub proof fn law_status_handles_name_logins(doc: JsonValue)
    ensures
        forall|k: int| 0 <= k < github_accounts_of(host_entries(doc)).len() ==> {
            &&& handle_login((#[trigger] github_accounts_of(host_entries(doc))[k]).id) == github_accounts_of(host_entries(doc))[k].login
            &&& served_provider(handle_provider(github_accounts_of(host_entries(doc))[k].id))
        },
{
    let items = host_entries(doc);
    let f = |e: JsonValue| github_account(e);
    let ms = github_accounts_of(items);
    lemma_models_from(items, f);
    assert forall|k: int| 0 <= k < ms.len() implies {
        &&& handle_login((#[trigger] ms[k]).id) == ms[k].login
        &&& served_provider(handle_provider(ms[k].id))
    } by {
        let i = choose|i: int| 0 <= i < items.len() && f(items[i]) == Some(#[trigger] ms[k]);
        let m = ms[k];
        reveal_strlit("github-");
        reveal_strlit("github");
        reveal_strlit("-");
        assert(m.id == "github-"@ + m.login);
        lemma_strip_own_prefix("github-"@, m.login);
        assert("github-"@ =~= "github"@ + "-"@);
        assert(m.id =~= "github"@ + "-"@ + m.login);
        lemma_provider_of_handle("github"@, m.login);
    }
}

} // verus!
