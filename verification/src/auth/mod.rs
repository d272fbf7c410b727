//! Auth accounts discovered from provider CLIs, and the decisions shared by
//! the providers: handle parsing and login outcomes.

use vstd::prelude::*;
use crate::error::Error;
use crate::json::{is_text_object, pairs_view, text_object, JsonValue};
use crate::text::{strip_prefix_or_self, chars_of, concat, contains_text, find, index_of_from, same_text, trim, trim_text};

pub mod aws;
pub mod azure;
pub mod gcloud;
pub mod github;
pub mod kubernetes;

verus! {

/// An auth account/identity discovered from a provider's CLI.
#[derive(Debug)]
pub struct AuthAccount {
    /// Opaque handle the agent passes to tools, e.g. "github-aniongithub"
    pub id: String,
    /// Display name / login
    pub login: String,
    /// Whether this is the CLI's currently active account
    pub active: bool,
    /// Provider-specific metadata (scopes, subscription, project, etc.)
    pub metadata: JsonValue,
}

/// What an account holds, as values: its metadata is an object of string
/// members.
pub struct AccountModel {
    pub id: Seq<char>,
    pub login: Seq<char>,
    pub active: bool,
    pub metadata: Seq<(Seq<char>, Seq<char>)>,
}

/// `a` holds exactly what `m` describes.
pub open spec fn account_is(a: AuthAccount, m: AccountModel) -> bool {
    &&& a.id@ == m.id
    &&& a.login@ == m.login
    &&& a.active == m.active
    &&& is_text_object(a.metadata, m.metadata)
}

/// The accounts `v` are, one for one and in order, those `ms` describes.
pub open spec fn accounts_are(v: Seq<AuthAccount>, ms: Seq<AccountModel>) -> bool {
    &&& v.len() == ms.len()
    &&& forall|i: int| 0 <= i < v.len() ==> #[trigger] account_is(v[i], ms[i])
}

/// The accounts that `items` stand for, in order: `f` says which account an
/// item stands for, if any.
pub open spec fn models_of<T>(items: Seq<T>, f: spec_fn(T) -> Option<AccountModel>) -> Seq<AccountModel>
    decreases items.len(),
{
    if items.len() == 0 {
        Seq::empty()
    } else {
        let prev = models_of(items.drop_last(), f);
        match f(items.last()) {
            Some(m) => prev.push(m),
            None => prev,
        }
    }
}

/// Appending an account that matches its description keeps the list
/// matching.
pub proof fn lemma_accounts_push(before: Seq<AuthAccount>, ms: Seq<AccountModel>, a: AuthAccount, m: AccountModel)
    requires
        accounts_are(before, ms),
        account_is(a, m),
    ensures
        accounts_are(before.push(a), ms.push(m)),
{
    assert forall|k: int| 0 <= k < before.len() + 1 implies #[trigger] account_is(before.push(a)[k], ms.push(m)[k]) by {
        if k < before.len() {
            assert(account_is(before[k], ms[k]));
        }
    }
}

/// The step of a loop that collects the accounts of `items`.
pub proof fn lemma_models_step<T>(items: Seq<T>, f: spec_fn(T) -> Option<AccountModel>, i: int)
    requires
        0 <= i < items.len(),
    ensures
        models_of(items.take(i + 1), f) == match f(items[i]) {
            Some(m) => models_of(items.take(i), f).push(m),
            None => models_of(items.take(i), f),
        },
{
    assert(items.take(i + 1).drop_last() =~= items.take(i));
}

/// Every account of `models_of(items, f)` is what `f` makes of one of the
/// items.
pub proof fn lemma_models_from<T>(items: Seq<T>, f: spec_fn(T) -> Option<AccountModel>)
    ensures
        forall|k: int| 0 <= k < models_of(items, f).len() ==> exists|i: int| 0 <= i < items.len() && f(items[i]) == Some(#[trigger] models_of(items, f)[k]),
    decreases items.len(),
{
    if items.len() > 0 {
        let prev = items.drop_last();
        lemma_models_from(prev, f);
        let ms = models_of(items, f);
        let mp = models_of(prev, f);
        assert forall|k: int| 0 <= k < ms.len() implies exists|i: int| 0 <= i < items.len() && f(items[i]) == Some(#[trigger] ms[k]) by {
            if k < mp.len() {
                assert(ms[k] == mp[k]);
                let i = choose|i: int| 0 <= i < prev.len() && f(prev[i]) == Some(#[trigger] mp[k]);
                assert(items[i] == prev[i]);
            } else {
                assert(f(items[items.len() - 1]) == Some(ms[k]));
            }
        }
    }
}

/// Removing the prefix a handle was made with gives back what followed it.
pub proof fn lemma_strip_own_prefix(prefix: Seq<char>, rest: Seq<char>)
    ensures
        strip_prefix_or_self(prefix + rest, prefix) == rest,
{
    assert((prefix + rest).take(prefix.len() as int) =~= prefix);
    assert((prefix + rest).skip(prefix.len() as int) =~= rest);
}

/// A handle made of a provider name without `-`, a `-` and anything names
/// that provider.
pub proof fn lemma_provider_of_handle(name: Seq<char>, rest: Seq<char>)
    requires
        forall|i: int| 0 <= i < name.len() ==> name[i] != '-',
    ensures
        handle_provider(name + "-"@ + rest) == name,
{
    reveal_strlit("-");
    let h = name + "-"@ + rest;
    assert(h[name.len() as int] == '-');
    lemma_index_before(h, name.len() as int, 0);
    assert(h.take(name.len() as int) =~= name);
}

/// Scanning for `-` from `k` finds the one at `stop` when none lies between.
proof fn lemma_index_before(h: Seq<char>, stop: int, k: int)
    requires
        0 <= k <= stop < h.len(),
        h[stop] == '-',
        forall|i: int| k <= i < stop ==> h[i] != '-',
    ensures
        index_of_from(h, '-', k) == Some(stop),
    decreases stop - k,
{
    if k < stop {
        lemma_index_before(h, stop, k + 1);
    }
}

/// An account whose metadata is the string members `metadata`.
pub fn new_account(id: String, login: String, active: bool, metadata: &[(&str, &str)]) -> (r: AuthAccount)
    ensures
        account_is(r, AccountModel { id: id@, login: login@, active, metadata: pairs_view(metadata@) }),
{
    AuthAccount { id, login, active, metadata: text_object(metadata) }
}

/// Result of checking auth status for a provider.
#[derive(Debug)]
pub struct AuthStatus {
    pub provider: String,
    pub cli_installed: bool,
    pub accounts: Vec<AuthAccount>,
}

/// Result of an auth_login flow.
#[derive(Debug, Clone)]
pub struct AuthLoginResult {
    /// The auth handle for the newly authenticated account, if successful.
    pub id: Option<String>,
    /// What happened: "success", "device_code", "browser", "error"
    pub action: String,
    /// Human-readable message for the agent to relay.
    pub message: String,
    /// Whether the browser was opened automatically.
    pub browser_opened: bool,
    /// Whether a device code was copied to the clipboard.
    pub code_copied: bool,
}

/// Mathematical view of an [`AuthLoginResult`].
pub struct LoginModel {
    pub id: Option<Seq<char>>,
    pub action: Seq<char>,
    pub message: Seq<char>,
    pub browser_opened: bool,
    pub code_copied: bool,
}

impl View for AuthLoginResult {
    type V = LoginModel;

    open spec fn view(&self) -> LoginModel {
        LoginModel {
            id: self.id.deep_view(),
            action: self.action@,
            message: self.message@,
            browser_opened: self.browser_opened,
            code_copied: self.code_copied,
        }
    }
}

/// The provider part of a handle: everything before the first `-`, or the
/// whole handle (`handle.split('-').next()`).
pub open spec fn handle_provider(handle: Seq<char>) -> Seq<char> {
    match index_of_from(handle, '-', 0) {
        Some(i) => handle.take(i),
        None => handle,
    }
}

/// Extract the provider name from a handle (e.g. "github-aniongithub" →
/// "github"). Every handle has one, possibly empty.
pub fn provider_from_handle(handle: &str) -> (r: Option<&str>)
    ensures
        r matches Some(p) && p@ == handle_provider(handle@),
{
    let cs = chars_of(handle);
    let mut i: usize = 0;
    while i < cs.len() && cs[i] != '-'
        invariant
            cs@ == handle@,
            i <= cs@.len(),
            index_of_from(cs@, '-', 0) == index_of_from(cs@, '-', i as int),
        decreases cs@.len() - i,
    {
        i = i + 1;
    }
    proof {
        if i == cs@.len() {
            assert(handle@.take(i as int) =~= handle@);
        }
    }
    Some(handle.substring_char(0, i))
}

/// The auth providers the server serves.
#[derive(Debug, Clone, Copy, PartialEq, Eq, Structural)]
pub enum ProviderKind {
    GitHub,
    Aws,
    Azure,
    Gcloud,
    Kubernetes,
}

/// The name a provider is served under.
pub open spec fn provider_name(k: ProviderKind) -> Seq<char> {
    match k {
        ProviderKind::GitHub => "github"@,
        ProviderKind::Aws => "aws"@,
        ProviderKind::Azure => "azure"@,
        ProviderKind::Gcloud => "gcloud"@,
        ProviderKind::Kubernetes => "kubernetes"@,
    }
}

/// The provider served under `name`, if any (`get_provider`).
pub open spec fn provider_named(name: Seq<char>) -> Option<ProviderKind> {
    if name == "github"@ {
        Some(ProviderKind::GitHub)
    } else if name == "aws"@ {
        Some(ProviderKind::Aws)
    } else if name == "azure"@ {
        Some(ProviderKind::Azure)
    } else if name == "gcloud"@ {
        Some(ProviderKind::Gcloud)
    } else if name == "kubernetes"@ {
        Some(ProviderKind::Kubernetes)
    } else {
        None
    }
}

/// Some provider is served under `name`.
pub open spec fn served_provider(name: Seq<char>) -> bool {
    provider_named(name) is Some
}

/// The provider served under `name` (`get_provider`).
pub fn provider_by_name(name: &str) -> (r: Option<ProviderKind>)
    ensures
        r == provider_named(name@),
{
    if same_text(name, "github") {
        Some(ProviderKind::GitHub)
    } else if same_text(name, "aws") {
        Some(ProviderKind::Aws)
    } else if same_text(name, "azure") {
        Some(ProviderKind::Azure)
    } else if same_text(name, "gcloud") {
        Some(ProviderKind::Gcloud)
    } else if same_text(name, "kubernetes") {
        Some(ProviderKind::Kubernetes)
    } else {
        None
    }
}

/// Whether a provider is served under `name` (`get_provider(name).is_some()`).
pub fn is_served_provider(name: &str) -> (r: bool)
    ensures
        r == served_provider(name@),
{
    provider_by_name(name).is_some()
}

/// Each provider is found again under its own name, and different
/// providers have different names.
pub proof fn law_providers_found_by_name(k: ProviderKind, j: ProviderKind)
    ensures
        provider_named(provider_name(k)) == Some(k),
        k != j ==> provider_name(k) != provider_name(j),
{
    reveal_strlit("github");
    reveal_strlit("aws");
    reveal_strlit("azure");
    reveal_strlit("gcloud");
    reveal_strlit("kubernetes");
    assert("github"@.len() == 6 && "gcloud"@.len() == 6 && "aws"@.len() == 3);
    assert("azure"@.len() == 5 && "kubernetes"@.len() == 10);
    assert("github"@[1] != "gcloud"@[1]);
    assert("github"@ != "gcloud"@);
}

/// The lookup that resolving a handle's environment starts with: the
/// provider the handle names must be served.
pub fn check_handle_provider(handle: &str) -> (r: Result<ProviderKind, Error>)
    ensures
        r is Ok <==> served_provider(handle_provider(handle@)),
        r matches Ok(k) ==> provider_named(handle_provider(handle@)) == Some(k),
        r matches Err(e) ==> e matches Error::Io(m) && m@ == "Unknown auth provider: "@ + handle_provider(handle@),
{
    let name = match provider_from_handle(handle) {
        Some(n) => n,
        None => {
            return Err(Error::Io(concat("Invalid auth handle: ", handle)));
        },
    };
    match provider_by_name(name) {
        Some(k) => Ok(k),
        None => Err(Error::Io(concat("Unknown auth provider: ", name))),
    }
}

/// The login outcome when the CLI flow failed: an error carrying the
/// trimmed CLI output after `prefix`.
pub open spec fn failed_login(prefix: Seq<char>, output: Seq<char>) -> LoginModel {
    LoginModel {
        id: None,
        action: "error"@,
        message: prefix + trim(output),
        browser_opened: false,
        code_copied: false,
    }
}

/// Build a failed-login result.
pub fn failed_login_result(prefix: &str, output: &str) -> (r: AuthLoginResult)
    ensures
        r@ == failed_login(prefix@, output@),
{
    let mut message = String::from_str(prefix);
    let t = trim_text(output);
    message.append(t.as_str());
    AuthLoginResult {
        id: None,
        action: String::from_str("error"),
        message,
        browser_opened: false,
        code_copied: false,
    }
}

/// Build a successful-login result.
pub fn login_result(id: Option<String>, action: &str, message: String, browser_opened: bool, code_copied: bool) -> (r: AuthLoginResult)
    ensures
        r@ == (LoginModel {
            id: id.deep_view(),
            action: action@,
            message: message@,
            browser_opened,
            code_copied,
        }),
{
    AuthLoginResult { id, action: String::from_str(action), message, browser_opened, code_copied }
}

/// The first position at or after `i` whose account is active.
pub open spec fn first_active_from(accounts: Seq<AuthAccount>, i: int) -> Option<int>
    decreases accounts.len() - i,
{
    if i < 0 || i >= accounts.len() {
        None
    } else if accounts[i].active {
        Some(i)
    } else {
        first_active_from(accounts, i + 1)
    }
}

/// The first position at or after `i` whose account has login `login`.
pub open spec fn first_login_from(accounts: Seq<AuthAccount>, login: Seq<char>, i: int) -> Option<int>
    decreases accounts.len() - i,
{
    if i < 0 || i >= accounts.len() {
        None
    } else if accounts[i].login@ == login {
        Some(i)
    } else {
        first_login_from(accounts, login, i + 1)
    }
}

/// A position found by `first_active_from` is in range and active.
pub proof fn lemma_first_active_found(accounts: Seq<AuthAccount>, k: int)
    ensures
        match first_active_from(accounts, k) {
            Some(j) => k <= j < accounts.len() && accounts[j].active,
            None => true,
        },
    decreases accounts.len() - k,
{
    if 0 <= k < accounts.len() && !accounts[k].active {
        lemma_first_active_found(accounts, k + 1);
    }
}

/// A position found by `first_login_from` is in range and has that login.
pub proof fn lemma_first_login_found(accounts: Seq<AuthAccount>, login: Seq<char>, k: int)
    ensures
        match first_login_from(accounts, login, k) {
            Some(j) => k <= j < accounts.len() && accounts[j].login@ == login,
            None => true,
        },
    decreases accounts.len() - k,
{
    if 0 <= k < accounts.len() && accounts[k].login@ != login {
        lemma_first_login_found(accounts, login, k + 1);
    }
}

/// Position of the first active account.
pub fn position_active(accounts: &[AuthAccount]) -> (r: Option<usize>)
    ensures
        match first_active_from(accounts@, 0) {
            Some(i) => r == Some(i as usize),
            None => r is None,
        },
{
    let mut i: usize = 0;
    while i < accounts.len()
        invariant
            i <= accounts@.len(),
            first_active_from(accounts@, 0) == first_active_from(accounts@, i as int),
        decreases accounts@.len() - i,
    {
        if accounts[i].active {
            return Some(i);
        }
        i = i + 1;
    }
    None
}

/// Position of the first account with login `login`.
pub fn position_by_login(accounts: &[AuthAccount], login: &str) -> (r: Option<usize>)
    ensures
        match first_login_from(accounts@, login@, 0) {
            Some(i) => r == Some(i as usize),
            None => r is None,
        },
{
    let mut i: usize = 0;
    while i < accounts.len()
        invariant
            i <= accounts@.len(),
            first_login_from(accounts@, login@, 0) == first_login_from(accounts@, login@, i as int),
        decreases accounts@.len() - i,
    {
        if crate::text::same_text(accounts[i].login.as_str(), login) {
            return Some(i);
        }
        i = i + 1;
    }
    None
}

/// The active account, if any (`accounts.into_iter().find(|a| a.active)`).
pub fn take_active(accounts: Vec<AuthAccount>) -> (r: Option<AuthAccount>)
    ensures
        match first_active_from(accounts@, 0) {
            Some(i) => r == Some(accounts@[i]),
            None => r is None,
        },
{
    let ghost all = accounts@;
    proof {
        lemma_first_active_found(all, 0);
    }
    match position_active(accounts.as_slice()) {
        Some(i) => {
            let mut v = accounts;
            assert(v@ == all);
            let a = v.remove(i);
            assert(a == all[i as int]);
            assert(first_active_from(all, 0) == Some(i as int));
            Some(a)
        }
        None => {
            assert(first_active_from(all, 0) is None);
            None
        }
    }
}

/// The account with login `login`, if any
/// (`accounts.into_iter().find(|a| a.login == login)`).
pub fn take_by_login(accounts: Vec<AuthAccount>, login: &str) -> (r: Option<AuthAccount>)
    ensures
        match first_login_from(accounts@, login@, 0) {
            Some(i) => r == Some(accounts@[i]),
            None => r is None,
        },
{
    let ghost all = accounts@;
    proof {
        lemma_first_login_found(all, login@, 0);
    }
    match position_by_login(accounts.as_slice(), login) {
        Some(i) => {
            let mut v = accounts;
            assert(v@ == all);
            let a = v.remove(i);
            assert(a == all[i as int]);
            assert(first_login_from(all, login@, 0) == Some(i as int));
            Some(a)
        }
        None => {
            assert(first_login_from(all, login@, 0) is None);
            None
        }
    }
}

} // verus!
