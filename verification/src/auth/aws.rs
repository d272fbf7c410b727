//! AWS identities through the `aws` CLI: the default identity that
//! `sts get-caller-identity` reports, the named profiles of
//! `configure list-profiles`, and the SSO login flow.

use vstd::prelude::*;
use crate::auth::{
    account_is, accounts_are, lemma_models_from, lemma_strip_own_prefix, lemma_provider_of_handle, handle_provider, law_providers_found_by_name,
    provider_named, ProviderKind, failed_login, failed_login_result, lemma_accounts_push, lemma_models_step,
    login_result, models_of, new_account, AccountModel, AuthAccount, AuthLoginResult, LoginModel,
};
use crate::json::{text_at, text_at_or, text_or, JsonValue};
use crate::text::{
    concat, contains_text, find, lines, opt_text, same_text, split_lines, strip_prefix_or_self,
    strip_prefix_text, text_list, trim, trim_text,
};

verus! {

/// The AWS auth provider.
pub struct AwsAuth;

impl AwsAuth {
    /// The provider's name.
    pub fn name(&self) -> (r: &'static str)
        ensures
            r@ == "aws"@,
    {
        "aws"
    }
}

/// The default identity, from a parsed `sts get-caller-identity` document.
pub open spec fn default_identity(doc: JsonValue) -> AccountModel {
    let arn = text_or(text_at(doc, "Arn"@), ""@);
    AccountModel {
        id: "aws-default"@,
        login: arn,
        active: true,
        metadata: seq![
            ("profile"@, "default"@),
            ("account"@, text_or(text_at(doc, "Account"@), ""@)),
            ("user_id"@, text_or(text_at(doc, "UserId"@), ""@)),
            ("arn"@, arn),
        ],
    }
}

/// The account one line of `configure list-profiles` stands for: blank
/// lines and the default profile stand for none.
pub open spec fn profile_account(line: Seq<char>) -> Option<AccountModel> {
    let profile = trim(line);
    if profile.len() == 0 || profile == "default"@ {
        None
    } else {
        Some(AccountModel {
            id: "aws-"@ + profile,
            login: profile,
            active: false,
            metadata: seq![("profile"@, profile)],
        })
    }
}

/// The named-profile accounts of a `configure list-profiles` output.
pub open spec fn profile_accounts_of(stdout: Seq<char>) -> Seq<AccountModel> {
    models_of(lines(stdout), |l: Seq<char>| profile_account(l))
}

/// The profile a handle names: the handle without its `aws-` prefix.
pub open spec fn handle_profile(handle: Seq<char>) -> Seq<char> {
    strip_prefix_or_self(handle, "aws-"@)
}

/// The default identity from a parsed `sts get-caller-identity` document.
pub fn default_account(doc: &JsonValue) -> (r: AuthAccount)
    ensures
        account_is(r, default_identity(*doc)),
{
    let account = text_at_or(doc, "Account", "");
    let arn = text_at_or(doc, "Arn", "");
    let user_id = text_at_or(doc, "UserId", "");
    let login = arn.clone();
    let members = vec![
        ("profile", "default"),
        ("account", account.as_str()),
        ("user_id", user_id.as_str()),
        ("arn", arn.as_str()),
    ];
    let a = new_account(String::from_str("aws-default"), login, true, members.as_slice());
    assert(crate::json::pairs_view(members@) =~= default_identity(*doc).metadata);
    a
}

/// The account of one profile line, if it stands for one.
pub fn account_from_profile_line(line: &str) -> (r: Option<AuthAccount>)
    ensures
        match profile_account(line@) {
            Some(m) => r matches Some(a) && account_is(a, m),
            None => r is None,
        },
{
    let profile = trim_text(line);
    if profile.unicode_len() == 0 || same_text(profile.as_str(), "default") {
        return None;
    }
    let id = concat("aws-", profile.as_str());
    let members = vec![("profile", profile.as_str())];
    let a = new_account(id, profile.clone(), false, members.as_slice());
    assert(crate::json::pairs_view(members@) =~= seq![("profile"@, profile@)]);
    Some(a)
}

/// The named-profile accounts listed by `configure list-profiles`.
pub fn profile_accounts(stdout: &str) -> (r: Vec<AuthAccount>)
    ensures
        accounts_are(r@, profile_accounts_of(stdout@)),
{
    let ls = split_lines(stdout);
    let ghost items = lines(stdout@);
    let mut out: Vec<AuthAccount> = Vec::new();
    let mut i: usize = 0;
    while i < ls.len()
        invariant
            i <= ls@.len(),
            ls.deep_view() == items,
            items == lines(stdout@),
            accounts_are(out@, models_of(items.take(i as int), |l: Seq<char>| profile_account(l))),
        decreases ls@.len() - i,
    {
        proof {
            lemma_models_step(items, |l: Seq<char>| profile_account(l), i as int);
            assert(ls@[i as int]@ == items[i as int]);
        }
        match account_from_profile_line(ls[i].as_str()) {
            Some(a) => {
                proof {
                    lemma_accounts_push(
                        out@,
                        models_of(items.take(i as int), |l: Seq<char>| profile_account(l)),
                        a,
                        profile_account(items[i as int])->0,
                    );
                }
                out.push(a);
            },
            None => {},
        }
        i = i + 1;
    }
    assert(items.take(i as int) =~= items);
    out
}

/// The accounts of a status check: the default identity when
/// `sts get-caller-identity` exited 0 with a JSON document, then the named
/// profiles when `configure list-profiles` ran and exited 0.
pub open spec fn status_models(identity_exit: i32, identity: Option<JsonValue>, profiles: Option<(i32, Seq<char>)>) -> Seq<AccountModel> {
    let first = match identity {
        Some(doc) if identity_exit == 0 => seq![default_identity(doc)],
        _ => Seq::empty(),
    };
    let rest = match profiles {
        Some((code, out)) if code == 0 => profile_accounts_of(out),
        _ => Seq::empty(),
    };
    first + rest
}

/// The accounts of a status check, from what the two commands returned.
pub fn status_accounts(identity_exit: i32, identity: Option<&JsonValue>, profiles: Option<(i32, &str)>) -> (r: Vec<AuthAccount>)
    ensures
        accounts_are(r@, status_models(identity_exit, match identity {
            Some(d) => Some(*d),
            None => None,
        }, match profiles {
            Some((code, out)) => Some((code, out@)),
            None => None,
        })),
{
    let mut out: Vec<AuthAccount> = Vec::new();
    let ghost mut first: Seq<AccountModel> = Seq::empty();
    match identity {
        Some(doc) => {
            if identity_exit == 0 {
                let a = default_account(doc);
                proof {
                    lemma_accounts_push(out@, first, a, default_identity(*doc));
                    first = seq![default_identity(*doc)];
                }
                out.push(a);
            }
        },
        None => {},
    }
    match profiles {
        Some((code, stdout)) => {
            if code == 0 {
                let mut rest = profile_accounts(stdout);
                let ghost before = out@;
                let ghost rest_v = rest@;
                out.append(&mut rest);
                proof {
                    let ms = profile_accounts_of(stdout@);
                    assert forall|k: int| 0 <= k < out@.len() implies #[trigger] account_is(out@[k], (first + ms)[k]) by {
                        if k < before.len() {
                            assert(account_is(before[k], first[k]));
                        } else {
                            assert(account_is(rest_v[k - before.len()], ms[k - before.len()]));
                        }
                    }
                }
            } else {
                assert(first + Seq::<AccountModel>::empty() =~= first);
            }
        },
        None => {
            assert(first + Seq::<AccountModel>::empty() =~= first);
        },
    }
    out
}

/// The profile an SSO login is for: the one asked for, else `default`.
pub fn login_profile(scopes: Option<&str>) -> (r: &str)
    ensures
        r@ == match opt_text(scopes) {
            Some(p) => p,
            None => "default"@,
        },
{
    match scopes {
        Some(p) => p,
        None => "default",
    }
}

/// Arguments of the SSO login of `profile`.
pub fn login_args(profile: &str) -> (r: Vec<String>)
    ensures
        r.deep_view() == seq!["sso"@, "login"@, "--profile"@, profile@],
{
    let r = text_list(vec!["sso", "login", "--profile", profile].as_slice());
    assert(r.deep_view() =~= seq!["sso"@, "login"@, "--profile"@, profile@]);
    r
}

/// What a finished SSO login means; `combined` is its stdout followed by
/// its stderr.
pub open spec fn login_outcome_model(succeeded: bool, profile: Seq<char>, combined: Seq<char>) -> LoginModel {
    if succeeded {
        LoginModel {
            id: Some("aws-"@ + profile),
            action: "success"@,
            message: "AWS SSO login complete for profile '"@ + profile + "'."@,
            browser_opened: find(combined, "browser"@) is Some,
            code_copied: false,
        }
    } else {
        failed_login("AWS login failed: "@, combined)
    }
}

/// The result of a finished SSO login.
pub fn login_outcome(succeeded: bool, profile: &str, combined: &str) -> (r: AuthLoginResult)
    ensures
        r@ == login_outcome_model(succeeded, profile@, combined@),
{
    if succeeded {
        let id = concat("aws-", profile);
        let mut message = concat("AWS SSO login complete for profile '", profile);
        message.append("'.");
        login_result(Some(id), "success", message, contains_text(combined, "browser"), false)
    } else {
        failed_login_result("AWS login failed: ", combined)
    }
}

/// The profile a handle names (`handle.strip_prefix("aws-").unwrap_or(handle)`).
pub fn profile_of_handle(handle: &str) -> (r: &str)
    ensures
        r@ == handle_profile(handle@),
{
    strip_prefix_text(handle, "aws-")
}

/// Arguments that check the identity of `profile`.
pub fn verify_args(profile: &str) -> (r: Vec<String>)
    ensures
        r.deep_view() == seq!["sts"@, "get-caller-identity"@, "--profile"@, profile@, "--output"@, "json"@],
{
    let r = text_list(vec!["sts", "get-caller-identity", "--profile", profile, "--output", "json"].as_slice());
    assert(r.deep_view() =~= seq!["sts"@, "get-caller-identity"@, "--profile"@, profile@, "--output"@, "json"@]);
    r
}

/// The account a handle is, from the identity check: there is one only
/// when the check exited 0 and printed a JSON document (`parsed`); its
/// metadata is that document.
pub fn verify_outcome(handle: &str, exit_code: i32, parsed: Option<JsonValue>) -> (r: Option<AuthAccount>)
    ensures
        (exit_code == 0 && parsed is Some) <==> r is Some,
        r matches Some(a) ==> {
            &&& a.id@ == handle@
            &&& a.login@ == text_or(text_at(parsed->0, "Arn"@), ""@)
            &&& a.active == (handle_profile(handle@) == "default"@)
            &&& a.metadata == parsed->0
        },
{
    if exit_code != 0 {
        return None;
    }
    match parsed {
        Some(doc) => {
            let profile = profile_of_handle(handle);
            let login = text_at_or(&doc, "Arn", "");
            let active = same_text(profile, "default");
            Some(AuthAccount { id: String::from_str(handle), login, active, metadata: doc })
        },
        None => None,
    }
}

/// The environment a handle resolves to: `AWS_PROFILE` set to its profile.
pub fn resolve_env(handle: &str) -> (r: (String, String))
    ensures
        r.0@ == "AWS_PROFILE"@,
        r.1@ == handle_profile(handle@),
{
    (String::from_str("AWS_PROFILE"), String::from_str(profile_of_handle(handle)))
}

/// Every named-profile account `configure list-profiles` yields has a
/// handle that names its own profile, and so does the default identity.
pub proof fn law_profile_handles_name_profiles(stdout: Seq<char>, doc: JsonValue)
    ensures
        forall|k: int| 0 <= k < profile_accounts_of(stdout).len() ==> handle_profile((#[trigger] profile_accounts_of(stdout)[k]).id) == profile_accounts_of(stdout)[k].login,
        handle_profile(default_identity(doc).id) == "default"@,
        forall|k: int| 0 <= k < profile_accounts_of(stdout).len() ==> provider_named(handle_provider((#[trigger] profile_accounts_of(stdout)[k]).id)) == Some(ProviderKind::Aws),
        provider_named(handle_provider(default_identity(doc).id)) == Some(ProviderKind::Aws),
{
    let items = lines(stdout);
    let f = |l: Seq<char>| profile_account(l);
    let ms = profile_accounts_of(stdout);
    lemma_models_from(items, f);
    reveal_strlit("aws-");
    reveal_strlit("aws-default");
    reveal_strlit("default");
    assert forall|k: int| 0 <= k < ms.len() implies handle_profile((#[trigger] ms[k]).id) == ms[k].login by {
        let i = choose|i: int| 0 <= i < items.len() && f(items[i]) == Some(#[trigger] ms[k]);
        lemma_strip_own_prefix("aws-"@, ms[k].login);
    }
    reveal_strlit("aws");
    reveal_strlit("-");
    law_providers_found_by_name(ProviderKind::Aws, ProviderKind::Aws);
    assert("aws-"@ =~= "aws"@ + "-"@);
    assert forall|k: int| 0 <= k < ms.len() implies provider_named(handle_provider((#[trigger] ms[k]).id)) == Some(ProviderKind::Aws) by {
        let i = choose|i: int| 0 <= i < items.len() && f(items[i]) == Some(#[trigger] ms[k]);
        assert(ms[k].id =~= "aws"@ + "-"@ + ms[k].login);
        lemma_provider_of_handle("aws"@, ms[k].login);
    }
    assert("aws-default"@ =~= "aws-"@ + "default"@);
    lemma_strip_own_prefix("aws-"@, "default"@);
    assert("aws-default"@ =~= "aws"@ + "-"@ + "default"@);
    lemma_provider_of_handle("aws"@, "default"@);
}

/// The handle a successful SSO login returns names the profile it logged in.
pub proof fn law_login_handle_names_profile(profile: Seq<char>, combined: Seq<char>)
    ensures
        login_outcome_model(true, profile, combined).id matches Some(h) && handle_profile(h) == profile,
{
    lemma_strip_own_prefix("aws-"@, profile);
}

} // verus!
