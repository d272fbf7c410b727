//! Google Cloud accounts through the `gcloud` CLI: the accounts of
//! `gcloud auth list` and the login flow.

use vstd::prelude::*;
use crate::auth::{
    account_is, accounts_are, lemma_models_from, lemma_strip_own_prefix, lemma_provider_of_handle, handle_provider, law_providers_found_by_name,
    provider_named, ProviderKind, failed_login, failed_login_result, lemma_accounts_push, lemma_models_step,
    login_result, models_of, new_account, AccountModel, AuthAccount, AuthLoginResult, LoginModel,
};
use crate::auth::azure::array_items;
use crate::json::{text_at, text_at_or, text_or, JsonValue};
use crate::text::{concat, same_text, strip_prefix_or_self, strip_prefix_text};

verus! {

/// The Google Cloud auth provider.
pub struct GcloudAuth;

impl GcloudAuth {
    /// The provider's name.
    pub fn name(&self) -> (r: &'static str)
        ensures
            r@ == "gcloud"@,
    {
        "gcloud"
    }
}

/// The account one `gcloud auth list` entry stands for: active when its
/// status is `ACTIVE`.
pub open spec fn listed_account(entry: JsonValue) -> AccountModel {
    let account = text_or(text_at(entry, "account"@), ""@);
    let status = text_or(text_at(entry, "status"@), ""@);
    AccountModel {
        id: "gcloud-"@ + account,
        login: account,
        active: status == "ACTIVE"@,
        metadata: seq![("status"@, status)],
    }
}

/// The accounts of a parsed `gcloud auth list` document, in order.
pub open spec fn listed_accounts_of(doc: JsonValue) -> Seq<AccountModel> {
    models_of(array_items(doc), |e: JsonValue| Some(listed_account(e)))
}

/// The account a handle names: the handle without its `gcloud-` prefix.
pub open spec fn handle_account(handle: Seq<char>) -> Seq<char> {
    strip_prefix_or_self(handle, "gcloud-"@)
}

/// The account of one `gcloud auth list` entry.
pub fn account_from_entry(entry: &JsonValue) -> (r: AuthAccount)
    ensures
        account_is(r, listed_account(*entry)),
{
    let account = text_at_or(entry, "account", "");
    let status = text_at_or(entry, "status", "");
    let id = concat("gcloud-", account.as_str());
    let active = same_text(status.as_str(), "ACTIVE");
    let members = vec![("status", status.as_str())];
    let a = new_account(id, account, active, members.as_slice());
    assert(crate::json::pairs_view(members@) =~= seq![("status"@, status@)]);
    a
}

/// The accounts of a parsed `gcloud auth list` document.
pub fn accounts_from_list(doc: &JsonValue) -> (r: Vec<AuthAccount>)
    ensures
        accounts_are(r@, listed_accounts_of(*doc)),
{
    let mut out: Vec<AuthAccount> = Vec::new();
    let items = match doc {
        JsonValue::Array(items) => items,
        _ => {
            return out;
        },
    };
    let ghost f = |e: JsonValue| Some(listed_account(e));
    let mut i: usize = 0;
    while i < items.len()
        invariant
            i <= items@.len(),
            items@ == array_items(*doc),
            f == (|e: JsonValue| Some(listed_account(e))),
            accounts_are(out@, models_of(items@.take(i as int), f)),
        decreases items@.len() - i,
    {
        proof {
            lemma_models_step(items@, f, i as int);
        }
        let a = account_from_entry(&items[i]);
        proof {
            lemma_accounts_push(out@, models_of(items@.take(i as int), f), a, listed_account(items@[i as int]));
        }
        out.push(a);
        i = i + 1;
    }
    assert(items@.take(i as int) =~= items@);
    out
}

/// What a finished login means; on success the handle is that of the
/// account `gcloud` then reports active; `combined` is the flow's stdout
/// followed by its stderr.
pub open spec fn login_outcome_model(succeeded: bool, combined: Seq<char>, active_id: Option<Seq<char>>) -> LoginModel {
    if succeeded {
        LoginModel {
            id: active_id,
            action: "success"@,
            message: "Google Cloud authentication complete."@,
            browser_opened: false,
            code_copied: false,
        }
    } else {
        failed_login("Google Cloud authentication failed: "@, combined)
    }
}

/// The result of a finished login.
pub fn login_outcome(succeeded: bool, combined: &str, active_id: Option<String>) -> (r: AuthLoginResult)
    ensures
        r@ == login_outcome_model(succeeded, combined@, active_id.deep_view()),
{
    if succeeded {
        login_result(active_id, "success", String::from_str("Google Cloud authentication complete."), false, false)
    } else {
        failed_login_result("Google Cloud authentication failed: ", combined)
    }
}

/// The account a handle names (`handle.strip_prefix("gcloud-").unwrap_or(handle)`).
pub fn account_of_handle(handle: &str) -> (r: &str)
    ensures
        r@ == handle_account(handle@),
{
    strip_prefix_text(handle, "gcloud-")
}

/// The environment a handle resolves to: `CLOUDSDK_CORE_ACCOUNT` set to its
/// account.
pub fn resolve_env(handle: &str) -> (r: (String, String))
    ensures
        r.0@ == "CLOUDSDK_CORE_ACCOUNT"@,
        r.1@ == handle_account(handle@),
{
    (String::from_str("CLOUDSDK_CORE_ACCOUNT"), String::from_str(account_of_handle(handle)))
}

/// Every account `gcloud auth list` yields has a handle that names its own
/// account.
pub proof fn law_account_handles_name_accounts(doc: JsonValue)
    ensures
        forall|k: int| 0 <= k < listed_accounts_of(doc).len() ==> handle_account((#[trigger] listed_accounts_of(doc)[k]).id) == listed_accounts_of(doc)[k].login,
        forall|k: int| 0 <= k < listed_accounts_of(doc).len() ==> provider_named(handle_provider((#[trigger] listed_accounts_of(doc)[k]).id)) == Some(ProviderKind::Gcloud),
{
    let items = array_items(doc);
    let f = |e: JsonValue| Some(listed_account(e));
    let ms = listed_accounts_of(doc);
    lemma_models_from(items, f);
    assert forall|k: int| 0 <= k < ms.len() implies handle_account((#[trigger] ms[k]).id) == ms[k].login by {
        let i = choose|i: int| 0 <= i < items.len() && f(items[i]) == Some(#[trigger] ms[k]);
        lemma_strip_own_prefix("gcloud-"@, ms[k].login);
    }
    reveal_strlit("gcloud-");
    reveal_strlit("gcloud");
    reveal_strlit("-");
    law_providers_found_by_name(ProviderKind::Gcloud, ProviderKind::Gcloud);
    assert("gcloud-"@ =~= "gcloud"@ + "-"@);
    assert forall|k: int| 0 <= k < ms.len() implies provider_named(handle_provider((#[trigger] ms[k]).id)) == Some(ProviderKind::Gcloud) by {
        let i = choose|i: int| 0 <= i < items.len() && f(items[i]) == Some(#[trigger] ms[k]);
        assert(ms[k].id =~= "gcloud"@ + "-"@ + ms[k].login);
        lemma_provider_of_handle("gcloud"@, ms[k].login);
    }
}

} // verus!
