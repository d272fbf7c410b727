//! Azure subscriptions through the `az` CLI: the accounts of
//! `az account list`, the device-code login, subscription switching and
//! logout.

use vstd::prelude::*;
use crate::auth::{
    account_is, accounts_are, lemma_models_from, lemma_strip_own_prefix, lemma_provider_of_handle, handle_provider, law_providers_found_by_name,
    provider_named, ProviderKind, failed_login, failed_login_result, lemma_accounts_push, lemma_models_step,
    login_result, models_of, new_account, AccountModel, AuthAccount, AuthLoginResult, LoginModel,
};
use crate::auth::github::flag_or;
use crate::json::{flag_at, flag_at_or, get_value, text_at, text_at_or, text_or, value_get, JsonValue};
use crate::text::{concat, contains_text, find, strip_prefix_or_self, strip_prefix_text, text_list, trim, trim_text};

verus! {

/// The Azure auth provider.
pub struct AzureAuth;

impl AzureAuth {
    /// The provider's name.
    pub fn name(&self) -> (r: &'static str)
        ensures
            r@ == "azure"@,
    {
        "azure"
    }
}

/// The name of the user an entry belongs to (`entry.user.name`).
pub open spec fn entry_user(entry: JsonValue) -> Seq<char> {
    match value_get(entry, "user"@) {
        Some(u) => text_or(text_at(u, "name"@), ""@),
        None => ""@,
    }
}

/// The account one `az account list` entry stands for.
pub open spec fn subscription_account(entry: JsonValue) -> AccountModel {
    let name = text_or(text_at(entry, "name"@), "unknown"@);
    let sub_id = text_or(text_at(entry, "id"@), ""@);
    let user = entry_user(entry);
    AccountModel {
        id: "azure-"@ + sub_id,
        login: name + " ("@ + user + ")"@,
        active: flag_or(flag_at(entry, "isDefault"@), false),
        metadata: seq![
            ("subscription_id"@, sub_id),
            ("subscription_name"@, name),
            ("user"@, user),
            ("state"@, text_or(text_at(entry, "state"@), ""@)),
        ],
    }
}

/// The items of a document that is an array; nothing otherwise.
pub open spec fn array_items(doc: JsonValue) -> Seq<JsonValue> {
    match doc {
        JsonValue::Array(items) => items@,
        _ => Seq::empty(),
    }
}

/// The accounts of a parsed `az account list` document, in order.
pub open spec fn subscription_accounts_of(doc: JsonValue) -> Seq<AccountModel> {
    models_of(array_items(doc), |e: JsonValue| Some(subscription_account(e)))
}

/// The subscription a handle names: the handle without its `azure-` prefix.
pub open spec fn handle_subscription(handle: Seq<char>) -> Seq<char> {
    strip_prefix_or_self(handle, "azure-"@)
}

/// The account of one `az account list` entry.
pub fn account_from_entry(entry: &JsonValue) -> (r: AuthAccount)
    ensures
        account_is(r, subscription_account(*entry)),
{
    let name = text_at_or(entry, "name", "unknown");
    let sub_id = text_at_or(entry, "id", "");
    let user = match get_value(entry, "user") {
        Some(u) => text_at_or(u, "name", ""),
        None => String::from_str(""),
    };
    let is_default = flag_at_or(entry, "isDefault", false);
    let state = text_at_or(entry, "state", "");
    let id = concat("azure-", sub_id.as_str());
    let mut login = concat(name.as_str(), " (");
    login.append(user.as_str());
    login.append(")");
    let members = vec![
        ("subscription_id", sub_id.as_str()),
        ("subscription_name", name.as_str()),
        ("user", user.as_str()),
        ("state", state.as_str()),
    ];
    let a = new_account(id, login, is_default, members.as_slice());
    assert(crate::json::pairs_view(members@) =~= subscription_account(*entry).metadata);
    a
}

/// The accounts of a parsed `az account list` document.
pub fn accounts_from_list(doc: &JsonValue) -> (r: Vec<AuthAccount>)
    ensures
        accounts_are(r@, subscription_accounts_of(*doc)),
{
    let mut out: Vec<AuthAccount> = Vec::new();
    let items = match doc {
        JsonValue::Array(items) => items,
        _ => {
            return out;
        },
    };
    let ghost f = |e: JsonValue| Some(subscription_account(e));
    let mut i: usize = 0;
    while i < items.len()
        invariant
            i <= items@.len(),
            items@ == array_items(*doc),
            f == (|e: JsonValue| Some(subscription_account(e))),
            accounts_are(out@, models_of(items@.take(i as int), f)),
        decreases items@.len() - i,
    {
        proof {
            lemma_models_step(items@, f, i as int);
        }
        let a = account_from_entry(&items[i]);
        proof {
            lemma_accounts_push(out@, models_of(items@.take(i as int), f), a, subscription_account(items@[i as int]));
        }
        out.push(a);
        i = i + 1;
    }
    assert(items@.take(i as int) =~= items@);
    out
}

/// What a finished device-code login means; on success the handle is that
/// of the account `az` then reports active.
pub open spec fn login_outcome_model(succeeded: bool, stderr: Seq<char>, active_id: Option<Seq<char>>) -> LoginModel {
    if succeeded {
        LoginModel {
            id: active_id,
            action: "success"@,
            message: "Azure authentication complete."@,
            browser_opened: find(stderr, "open"@) is Some,
            code_copied: false,
        }
    } else {
        failed_login("Azure authentication failed: "@, stderr)
    }
}

/// The result of a finished device-code login.
pub fn login_outcome(succeeded: bool, stderr: &str, active_id: Option<String>) -> (r: AuthLoginResult)
    ensures
        r@ == login_outcome_model(succeeded, stderr@, active_id.deep_view()),
{
    if succeeded {
        login_result(
            active_id,
            "success",
            String::from_str("Azure authentication complete."),
            contains_text(stderr, "open"),
            false,
        )
    } else {
        failed_login_result("Azure authentication failed: ", stderr)
    }
}

/// The subscription a handle names (`handle.strip_prefix("azure-").unwrap_or(handle)`).
pub fn subscription_of_handle(handle: &str) -> (r: &str)
    ensures
        r@ == handle_subscription(handle@),
{
    strip_prefix_text(handle, "azure-")
}

/// Arguments that make `sub_id` the default subscription.
pub fn select_args(sub_id: &str) -> (r: Vec<String>)
    ensures
        r.deep_view() == seq!["account"@, "set"@, "--subscription"@, sub_id@],
{
    let r = text_list(vec!["account", "set", "--subscription", sub_id].as_slice());
    assert(r.deep_view() =~= seq!["account"@, "set"@, "--subscription"@, sub_id@]);
    r
}

/// The environment a handle resolves to: `AZURE_SUBSCRIPTION_ID` set to its
/// subscription.
pub fn resolve_env(handle: &str) -> (r: (String, String))
    ensures
        r.0@ == "AZURE_SUBSCRIPTION_ID"@,
        r.1@ == handle_subscription(handle@),
{
    (String::from_str("AZURE_SUBSCRIPTION_ID"), String::from_str(subscription_of_handle(handle)))
}

/// The message of `az logout`, from its exit code and stderr.
pub fn logout_message(exit_code: i32, stderr: &str) -> (r: String)
    ensures
        exit_code == 0 ==> r@ == "Logged out of Azure."@,
        exit_code != 0 ==> r@ == "Azure logout failed: "@ + trim(stderr@),
{
    if exit_code == 0 {
        String::from_str("Logged out of Azure.")
    } else {
        let t = trim_text(stderr);
        concat("Azure logout failed: ", t.as_str())
    }
}

/// Every account `az account list` yields has a handle that names its own
/// subscription.
pub proof fn law_account_handles_name_subscriptions(doc: JsonValue)
    ensures
        forall|k: int| 0 <= k < subscription_accounts_of(doc).len() ==> handle_subscription((#[trigger] subscription_accounts_of(doc)[k]).id) == subscription_accounts_of(doc)[k].metadata[0].1,
        forall|k: int| 0 <= k < subscription_accounts_of(doc).len() ==> provider_named(handle_provider((#[trigger] subscription_accounts_of(doc)[k]).id)) == Some(ProviderKind::Azure),
{
    let items = array_items(doc);
    let f = |e: JsonValue| Some(subscription_account(e));
    let ms = subscription_accounts_of(doc);
    lemma_models_from(items, f);
    assert forall|k: int| 0 <= k < ms.len() implies handle_subscription((#[trigger] ms[k]).id) == ms[k].metadata[0].1 by {
        let i = choose|i: int| 0 <= i < items.len() && f(items[i]) == Some(#[trigger] ms[k]);
        lemma_strip_own_prefix("azure-"@, ms[k].metadata[0].1);
    }
    reveal_strlit("azure-");
    reveal_strlit("azure");
    reveal_strlit("-");
    law_providers_found_by_name(ProviderKind::Azure, ProviderKind::Azure);
    assert("azure-"@ =~= "azure"@ + "-"@);
    assert forall|k: int| 0 <= k < ms.len() implies provider_named(handle_provider((#[trigger] ms[k]).id)) == Some(ProviderKind::Azure) by {
        let i = choose|i: int| 0 <= i < items.len() && f(items[i]) == Some(#[trigger] ms[k]);
        assert(ms[k].id =~= "azure"@ + "-"@ + ms[k].metadata[0].1);
        lemma_provider_of_handle("azure"@, ms[k].metadata[0].1);
    }
}

} // verus!
