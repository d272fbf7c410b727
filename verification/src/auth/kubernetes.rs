//! Kubernetes contexts through `kubectl`: contexts are the accounts, the
//! current context is the active one, and a "login" switches context.

use vstd::prelude::*;
use crate::auth::{
    account_is, accounts_are, lemma_models_from, lemma_strip_own_prefix, failed_login, failed_login_result, lemma_accounts_push, lemma_models_step,
    login_result, models_of, new_account, AccountModel, AuthAccount, AuthLoginResult, LoginModel,
};
use crate::text::{
    concat, lines, same_text, split_lines, strip_prefix_or_self, strip_prefix_text, text_list, trim, trim_text,
};

verus! {

/// The Kubernetes auth provider.
pub struct KubernetesAuth;

impl KubernetesAuth {
    /// The provider's name.
    pub fn name(&self) -> (r: &'static str)
        ensures
            r@ == "kubernetes"@,
    {
        "kubernetes"
    }
}

/// The account one line of `kubectl config get-contexts -o name` stands
/// for: blank lines stand for none; the context named `current` is active.
pub open spec fn context_account(line: Seq<char>, current: Seq<char>) -> Option<AccountModel> {
    let ctx = trim(line);
    if ctx.len() == 0 {
        None
    } else {
        Some(AccountModel {
            id: "k8s-"@ + ctx,
            login: ctx,
            active: ctx == current,
            metadata: seq![("context"@, ctx)],
        })
    }
}

/// The current context: the trimmed output of `config current-context`,
/// or empty when that command could not run.
pub open spec fn current_context(output: Option<Seq<char>>) -> Seq<char> {
    match output {
        Some(o) => trim(o),
        None => Seq::empty(),
    }
}

/// The accounts of a context listing, in order.
pub open spec fn context_accounts_of(stdout: Seq<char>, current: Seq<char>) -> Seq<AccountModel> {
    models_of(lines(stdout), |l: Seq<char>| context_account(l, current))
}

/// The context a handle names: the handle without its `k8s-` prefix.
pub open spec fn handle_context(handle: Seq<char>) -> Seq<char> {
    strip_prefix_or_self(handle, "k8s-"@)
}

/// The current context from what `config current-context` printed, if it ran.
pub fn current_context_of(output: Option<&str>) -> (r: String)
    ensures
        r@ == current_context(crate::text::opt_text(output)),
{
    match output {
        Some(o) => trim_text(o),
        None => String::new(),
    }
}

/// The account of one context line, if it stands for one.
pub fn account_from_line(line: &str, current: &str) -> (r: Option<AuthAccount>)
    ensures
        match context_account(line@, current@) {
            Some(m) => r matches Some(a) && account_is(a, m),
            None => r is None,
        },
{
    let ctx = trim_text(line);
    if ctx.unicode_len() == 0 {
        return None;
    }
    let id = concat("k8s-", ctx.as_str());
    let active = same_text(ctx.as_str(), current);
    let members = vec![("context", ctx.as_str())];
    let a = new_account(id, ctx.clone(), active, members.as_slice());
    assert(crate::json::pairs_view(members@) =~= seq![("context"@, ctx@)]);
    Some(a)
}

/// The accounts of `kubectl config get-contexts -o name`.
pub fn context_accounts(stdout: &str, current: &str) -> (r: Vec<AuthAccount>)
    ensures
        accounts_are(r@, context_accounts_of(stdout@, current@)),
{
    let ls = split_lines(stdout);
    let ghost items = lines(stdout@);
    let ghost f = |l: Seq<char>| context_account(l, current@);
    let mut out: Vec<AuthAccount> = Vec::new();
    let mut i: usize = 0;
    while i < ls.len()
        invariant
            i <= ls@.len(),
            ls.deep_view() == items,
            items == lines(stdout@),
            f == (|l: Seq<char>| context_account(l, current@)),
            accounts_are(out@, models_of(items.take(i as int), f)),
        decreases ls@.len() - i,
    {
        proof {
            lemma_models_step(items, f, i as int);
            assert(ls@[i as int]@ == items[i as int]);
        }
        match account_from_line(ls[i].as_str(), current) {
            Some(a) => {
                proof {
                    lemma_accounts_push(out@, models_of(items.take(i as int), f), a, context_account(items[i as int], current@)->0);
                }
                out.push(a);
            },
            None => {},
        }
        i = i + 1;
    }
    assert(items.take(i as int) =~= items);
    out
}

/// Arguments that switch to `context`.
pub fn use_context_args(context: &str) -> (r: Vec<String>)
    ensures
        r.deep_view() == seq!["config"@, "use-context"@, context@],
{
    let r = text_list(vec!["config", "use-context", context].as_slice());
    assert(r.deep_view() =~= seq!["config"@, "use-context"@, context@]);
    r
}

/// Arguments that delete `context`.
pub fn delete_context_args(context: &str) -> (r: Vec<String>)
    ensures
        r.deep_view() == seq!["config"@, "delete-context"@, context@],
{
    let r = text_list(vec!["config", "delete-context", context].as_slice());
    assert(r.deep_view() =~= seq!["config"@, "delete-context"@, context@]);
    r
}

/// What a context switch asked for by a login means, from the exit code
/// and stderr of `config use-context`.
pub open spec fn switch_outcome_model(context: Seq<char>, exit_code: i32, stderr: Seq<char>) -> LoginModel {
    if exit_code == 0 {
        LoginModel {
            id: Some("k8s-"@ + context),
            action: "success"@,
            message: "Switched to Kubernetes context '"@ + context + "'."@,
            browser_opened: false,
            code_copied: false,
        }
    } else {
        failed_login("Failed to switch context: "@, stderr)
    }
}

/// The result of a login that switched to `context`.
pub fn switch_outcome(context: &str, exit_code: i32, stderr: &str) -> (r: AuthLoginResult)
    ensures
        r@ == switch_outcome_model(context@, exit_code, stderr@),
{
    if exit_code == 0 {
        let id = concat("k8s-", context);
        let mut message = concat("Switched to Kubernetes context '", context);
        message.append("'.");
        login_result(Some(id), "success", message, false, false)
    } else {
        failed_login_result("Failed to switch context: ", stderr)
    }
}

/// The guidance a login without a context gets: there is no login command,
/// contexts come from kubeconfig.
pub open spec fn no_context_guidance() -> Seq<char> {
    "Kubernetes auth is managed via kubeconfig contexts. Use auth_status(provider: 'kubernetes') to list available contexts, then auth_login(provider: 'kubernetes', scopes: '<context-name>') to switch."@
}

/// The result of a login that named no context.
pub fn no_context_login() -> (r: AuthLoginResult)
    ensures
        r@ == (LoginModel {
            id: None,
            action: "error"@,
            message: no_context_guidance(),
            browser_opened: false,
            code_copied: false,
        }),
{
    login_result(
        None,
        "error",
        String::from_str(
            "Kubernetes auth is managed via kubeconfig contexts. Use auth_status(provider: 'kubernetes') to list available contexts, then auth_login(provider: 'kubernetes', scopes: '<context-name>') to switch.",
        ),
        false,
        false,
    )
}

/// The context a handle names (`handle.strip_prefix("k8s-").unwrap_or(handle)`).
pub fn context_of_handle(handle: &str) -> (r: &str)
    ensures
        r@ == handle_context(handle@),
{
    strip_prefix_text(handle, "k8s-")
}

/// The environment a handle resolves to: `KUBECTL_CONTEXT` set to its
/// context.
pub fn resolve_env(handle: &str) -> (r: (String, String))
    ensures
        r.0@ == "KUBECTL_CONTEXT"@,
        r.1@ == handle_context(handle@),
{
    (String::from_str("KUBECTL_CONTEXT"), String::from_str(context_of_handle(handle)))
}

/// The message of a context deletion, from the exit code and stderr of
/// `config delete-context`.
pub fn logout_message(context: &str, exit_code: i32, stderr: &str) -> (r: String)
    ensures
        exit_code == 0 ==> r@ == "Deleted Kubernetes context: "@ + context@,
        exit_code != 0 ==> r@ == "Failed to delete context: "@ + trim(stderr@),
{
    if exit_code == 0 {
        concat("Deleted Kubernetes context: ", context)
    } else {
        let t = trim_text(stderr);
        concat("Failed to delete context: ", t.as_str())
    }
}

/// Every context account has a handle that names its own context, and
/// exactly the account of the current context is active.
pub proof fn law_context_handles_name_contexts(stdout: Seq<char>, current: Seq<char>)
    ensures
        forall|k: int| 0 <= k < context_accounts_of(stdout, current).len() ==> {
            &&& handle_context((#[trigger] context_accounts_of(stdout, current)[k]).id) == context_accounts_of(stdout, current)[k].login
            &&& context_accounts_of(stdout, current)[k].active == (context_accounts_of(stdout, current)[k].login == current)
        },
{
    let items = lines(stdout);
    let f = |l: Seq<char>| context_account(l, current);
    let ms = context_accounts_of(stdout, current);
    lemma_models_from(items, f);
    assert forall|k: int| 0 <= k < ms.len() implies {
        &&& handle_context((#[trigger] ms[k]).id) == ms[k].login
        &&& ms[k].active == (ms[k].login == current)
    } by {
        let i = choose|i: int| 0 <= i < items.len() && f(items[i]) == Some(#[trigger] ms[k]);
        lemma_strip_own_prefix("k8s-"@, ms[k].login);
    }
}

/// The handle a successful context switch returns names that context.
pub proof fn law_switch_handle_names_context(context: Seq<char>, stderr: Seq<char>)
    ensures
        switch_outcome_model(context, 0, stderr).id matches Some(h) && handle_context(h) == context,
{
    lemma_strip_own_prefix("k8s-"@, context);
}

} // verus!
