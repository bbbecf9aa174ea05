//! Pre-dispatch checks that are pure functions of the configuration and the
//! request: whether the requested hook id is configured, and whether a
//! hook's trigger rule matches.  The two environment-dependent preflight
//! steps (command lookup, log directory) run outside the library, which
//! receives only their outcomes.

use crate::config::configs::Configs;
use crate::config::Config;
use crate::errors::{ErrKind, HookError};
use crate::parser::{hook_id_of, parse_hook_id_from_url, req_lookup};
use crate::rule::{rule_matches, Rule};
use crate::strmap::StrMap;
use crate::strutil::{str_eq, strip_prefix_rep, strip_prefix_rep_str};
use vstd::prelude::*;

verus! {

/// Whether the id the request's URL addresses is configured, comparing
/// against each configured id with leading slashes stripped.
pub open spec fn webhook_id_known(hooks: Seq<Config>, req: Map<Seq<char>, Seq<char>>) -> bool {
    match req_lookup(req, "Url"@) {
        Some(url) => exists|i: int|
            0 <= i < hooks.len() && strip_prefix_rep(#[trigger] hooks[i].id@, "/"@) == hook_id_of(
                url,
            ),
        None => false,
    }
}

/// Reject a request whose URL addresses no configured hook id.
pub fn is_webhook_id_in_configs(configs: &Configs, http_request: &StrMap) -> (r: Result<
    (),
    HookError,
>)
    ensures
        r is Ok <==> webhook_id_known(configs.hooks@, http_request@),
        r is Err ==> r->Err_0.kind() == ErrKind::InvalidInput && r->Err_0.message_view()
            == "Undefined Hook Id"@,
{
    let url = match http_request.get("Url") {
        Some(u) => u,
        None => {
            return Err(HookError::InvalidInput("Undefined Hook Id".to_owned()));
        },
    };
    let requested_id = parse_hook_id_from_url(url.as_str());
    let mut i: usize = 0;
    while i < configs.hooks.len()
        invariant
            0 <= i <= configs.hooks@.len(),
            requested_id@ == hook_id_of(http_request@["Url"@]),
            req_lookup(http_request@, "Url"@) == Some(url@),
            forall|j: int|
                0 <= j < i ==> strip_prefix_rep(#[trigger] configs.hooks@[j].id@, "/"@)
                    != requested_id@,
        decreases configs.hooks@.len() - i,
    {
        let trimmed = strip_prefix_rep_str(configs.hooks[i].id.as_str(), "/");
        if str_eq(trimmed.as_str(), requested_id.as_str()) {
            return Ok(());
        }
        i = i + 1;
    }
    Err(HookError::InvalidInput("Undefined Hook Id".to_owned()))
}

/// Whether a hook's trigger admits the request: a configured rule must
/// match; no rule means the hook always fires.
pub open spec fn trigger_ok(config: Config, req: Map<Seq<char>, Seq<char>>) -> bool {
    match config.trigger_rules {
        Some(t) => rule_matches(t, req),
        None => true,
    }
}

/// Reject a request that a hook's configured trigger rule does not match.
pub fn check_trigger_rules(config: &Config, http_request: &StrMap) -> (r: Result<(), HookError>)
    ensures
        r is Ok <==> trigger_ok(*config, http_request@),
        r is Err ==> r->Err_0.kind() == ErrKind::InvalidInput && r->Err_0.message_view()
            == "Trigger Rules Mismatch"@,
{
    match &config.trigger_rules {
        Some(t) => {
            if t.is_matched(http_request) {
                Ok(())
            } else {
                Err(HookError::InvalidInput("Trigger Rules Mismatch".to_owned()))
            }
        },
        None => Ok(()),
    }
}

/// The preflight verdict, given the outcomes of the two environment checks
/// (whether the configured command resolves, and whether the log directory
/// is usable) and the trigger rule's match: the first failing step, in that
/// order, decides.
pub open spec fn preflight_ok(
    command_ok: bool,
    log_ok: bool,
    config: Config,
    req: Map<Seq<char>, Seq<char>>,
) -> bool {
    command_ok && log_ok && trigger_ok(config, req)
}

/// Combine the preflight steps, short-circuiting in order: command
/// validity, log directory, trigger rule.
pub fn preflight_check(
    command_ok: bool,
    log_ok: bool,
    config: &Config,
    http_request: &StrMap,
) -> (r: Result<(), HookError>)
    ensures
        r is Ok <==> preflight_ok(command_ok, log_ok, *config, http_request@),
        r is Err ==> r->Err_0.kind() == ErrKind::InvalidInput && r->Err_0.message_view() == (
        if !command_ok {
            "Invalid Command"@
        } else if !log_ok {
            "Invalid Log Config"@
        } else {
            "Trigger Rules Mismatch"@
        }),
{
    if !command_ok {
        return Err(HookError::InvalidInput("Invalid Command".to_owned()));
    }
    if !log_ok {
        return Err(HookError::InvalidInput("Invalid Log Config".to_owned()));
    }
    check_trigger_rules(config, http_request)
}

} // verus!
