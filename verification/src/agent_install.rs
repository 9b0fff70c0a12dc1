//! Previews of installing, updating, reinstalling and uninstalling an agent
//! of the market: which requests are refused and why, which distribution is
//! chosen, and what the preview warns about.

use vstd::prelude::*;
use crate::agent_errors::{app_error_from_agent_market, is_domain, fallback_details, AgentMarketError};
use crate::error::AppError;
use crate::script_catalog::{list_contains, lists, str_eq};
use crate::text::opt_view;

verus! {

/// A refusal of the agent market that no retry can cure.
fn market_refusal(code: &str, message: &str) -> (r: AppError)
    ensures
        is_domain(r, code@, message@, false, None),
{
    AppError::Domain { code: String::from_str(code), message: String::from_str(message), retryable: false, details: None }
}

/// The actions an installation preview accepts.
pub open spec fn install_action_known(action: Seq<char>) -> bool {
    action == "install"@ || action == "update"@ || action == "reinstall"@
}

/// Checks a preview request before anything is probed: the agent must be in
/// the catalog and the action one of `install`, `update`, `reinstall`.
pub fn check_install_preview_request(item_known: bool, action: &str) -> (r: Result<(), AppError>)
    ensures
        !item_known ==> is_domain(
            r->Err_0,
            "agent_not_found"@,
            "The selected Agent is not in the curated catalog."@,
            false,
            None,
        ) && r is Err,
        item_known && !install_action_known(action@) ==> r is Err && is_domain(
            r->Err_0,
            "invalid_action"@,
            "Unsupported Agent installation action."@,
            false,
            None,
        ),
        item_known && install_action_known(action@) ==> r is Ok,
{
    if !item_known {
        return Err(market_refusal("agent_not_found", "The selected Agent is not in the curated catalog."));
    }
    if !(str_eq(action, "install") || str_eq(action, "update") || str_eq(action, "reinstall")) {
        return Err(market_refusal("invalid_action", "Unsupported Agent installation action."));
    }
    Ok(())
}

/// A distribution the selector offers, as the choice reads it.
pub struct InstallChoice {
    pub distribution_id: String,
    pub recommended: bool,
}

/// The choice fits: it is recommended, or it is the one asked for.
pub open spec fn choice_fits(c: InstallChoice, requested: Option<Seq<char>>) -> bool {
    c.recommended || requested == Some(c.distribution_id@)
}

/// The indices of the choices whose distribution differs from `id`, in
/// order, among the first `n`.
pub open spec fn other_choices(choices: Seq<InstallChoice>, id: Seq<char>, n: int) -> Seq<usize>
    decreases n,
{
    if n <= 0 {
        Seq::empty()
    } else if choices[n - 1].distribution_id@ != id {
        other_choices(choices, id, n - 1).push((n - 1) as usize)
    } else {
        other_choices(choices, id, n - 1)
    }
}

/// Chooses the distribution to install: the first that is recommended or
/// asked for, with the others (those of another distribution id) as
/// alternatives. When none fits, the distribution is unsupported here.
pub fn select_install_distribution(
    agent_id: &str,
    choices: &Vec<InstallChoice>,
    requested: Option<String>,
) -> (r: Result<(usize, Vec<usize>), AppError>)
    ensures
        match r {
            Ok((i, alternatives)) => {
                &&& i < choices@.len()
                &&& choice_fits(choices@[i as int], opt_view(requested))
                &&& forall|j: int| 0 <= j < i ==> !choice_fits(#[trigger] choices@[j], opt_view(requested))
                &&& alternatives@ == other_choices(
                    choices@,
                    choices@[i as int].distribution_id@,
                    choices@.len() as int,
                )
            },
            Err(e) => {
                &&& forall|j: int| 0 <= j < choices@.len() ==> !choice_fits(#[trigger] choices@[j], opt_view(requested))
                &&& is_domain(
                    e,
                    "distribution_unsupported"@,
                    "The selected Agent distribution is unavailable on this platform."@,
                    false,
                    fallback_details(
                        None,
                        seq![("agentId"@, Some(agent_id@)), ("distributionId"@, opt_view(requested))],
                    ),
                )
            },
        },
{
    let mut i: usize = 0;
    while i < choices.len()
        invariant
            i <= choices@.len(),
            forall|j: int| 0 <= j < i ==> !choice_fits(#[trigger] choices@[j], opt_view(requested)),
        decreases choices.len() - i,
    {
        let fits = choices[i].recommended || match &requested {
            Some(id) => str_eq(id.as_str(), choices[i].distribution_id.as_str()),
            None => false,
        };
        if fits {
            let selected = choices[i].distribution_id.as_str();
            let mut alternatives: Vec<usize> = Vec::new();
            let mut k: usize = 0;
            while k < choices.len()
                invariant
                    k <= choices@.len(),
                    i < choices@.len(),
                    selected@ == choices@[i as int].distribution_id@,
                    alternatives@ == other_choices(choices@, selected@, k as int),
                decreases choices.len() - k,
            {
                if !str_eq(choices[k].distribution_id.as_str(), selected) {
                    alternatives.push(k);
                }
                k = k + 1;
            }
            return Ok((i, alternatives));
        }
        i = i + 1;
    }
    let distribution_id = requested;
    proof {
        reveal_strlit("distribution_unsupported");
        reveal_strlit("runtime_missing");
        reveal_strlit("system_version_incompatible");
        assert("distribution_unsupported"@.len() == 24 && "runtime_missing"@.len() == 15
            && "system_version_incompatible"@.len() == 27);
    }
    Err(
        app_error_from_agent_market(
            AgentMarketError::Distribution {
                code: String::from_str("distribution_unsupported"),
                message: String::from_str("The selected Agent distribution is unavailable on this platform."),
                agent_id: Some(String::from_str(agent_id)),
                distribution_id,
                details: None,
            },
        ),
    )
}

/// What a preview knows of the agent's current installation.
pub struct CurrentInstallation {
    /// The installation no longer matches the catalog definition.
    pub incompatible: bool,
    /// It speaks the protocol the catalog gives the agent.
    pub same_protocol: bool,
}

/// The installation no longer fits the catalog definition, so an update
/// cannot proceed.
pub open spec fn needs_reinstall(current: Option<CurrentInstallation>) -> bool {
    match current {
        Some(c) => c.incompatible || !c.same_protocol,
        None => false,
    }
}

/// Checks the action against the current installation: a fresh install
/// needs none, an update and a reinstall need one, and an update of an
/// installation that no longer matches the catalog must be a reinstall.
pub fn check_install_action(action: &str, current: Option<CurrentInstallation>) -> (r: Result<(), AppError>)
    ensures
        (action@ == "install"@ && current is Some) ==> r is Err && is_domain(
            r->Err_0,
            "agent_already_installed"@,
            "The Agent is already installed; choose update or reinstall."@,
            false,
            None,
        ),
        ((action@ == "update"@ || action@ == "reinstall"@) && current is None) ==> r is Err && is_domain(
            r->Err_0,
            "agent_not_installed"@,
            "The Agent is not installed; choose install."@,
            false,
            None,
        ),
        (action@ == "update"@ && needs_reinstall(current)) ==> r is Err
            && is_domain(
            r->Err_0,
            "agent_reinstall_required"@,
            "The installed Agent is incompatible with the active catalog definition; choose reinstall instead of update."@,
            false,
            None,
        ),
        !((action@ == "install"@ && current is Some) || ((action@ == "update"@ || action@ == "reinstall"@)
            && current is None) || (action@ == "update"@ && needs_reinstall(current))) ==> r is Ok,
{
    proof {
        reveal_strlit("install");
        reveal_strlit("update");
        reveal_strlit("reinstall");
        assert("install"@.len() == 7 && "update"@.len() == 6 && "reinstall"@.len() == 9);
    }
    if str_eq(action, "install") {
        if current.is_some() {
            return Err(
                market_refusal("agent_already_installed", "The Agent is already installed; choose update or reinstall."),
            );
        }
    } else if str_eq(action, "update") {
        match current {
            None => {
                return Err(market_refusal("agent_not_installed", "The Agent is not installed; choose install."));
            },
            Some(c) => {
                if c.incompatible || !c.same_protocol {
                    return Err(
                        market_refusal(
                            "agent_reinstall_required",
                            "The installed Agent is incompatible with the active catalog definition; choose reinstall instead of update.",
                        ),
                    );
                }
            },
        }
    } else if str_eq(action, "reinstall") {
        if current.is_none() {
            return Err(market_refusal("agent_not_installed", "The Agent is not installed; choose install."));
        }
    }
    Ok(())
}

/// The conflicts and warnings of an installation preview: the agent being
/// in use, and a catalog entry whose verification asks for confirmation.
pub fn install_preview_notes(in_use: bool, needs_confirmation: bool) -> (r: (Vec<String>, Vec<String>))
    ensures
        r.0@.len() == if in_use { 1int } else { 0int },
        in_use ==> r.0@[0]@ == "agent_in_use"@,
        r.1@.len() == if needs_confirmation { 1int } else { 0int },
        needs_confirmation ==> r.1@[0]@ == "experimental_verification"@,
{
    let mut conflicts: Vec<String> = Vec::new();
    if in_use {
        conflicts.push(String::from_str("agent_in_use"));
    }
    let mut warnings: Vec<String> = Vec::new();
    if needs_confirmation {
        warnings.push(String::from_str("experimental_verification"));
    }
    (conflicts, warnings)
}

/// Checks an uninstall preview: the agent must be installed and still in
/// the catalog.
pub fn check_uninstall_preview(installed: bool, item_known: bool) -> (r: Result<(), AppError>)
    ensures
        !installed ==> r is Err && is_domain(r->Err_0, "agent_not_installed"@, "The Agent is not installed."@, false, None),
        installed && !item_known ==> r is Err && is_domain(
            r->Err_0,
            "agent_not_found"@,
            "The installed Agent is no longer in the curated catalog."@,
            false,
            None,
        ),
        installed && item_known ==> r is Ok,
{
    if !installed {
        return Err(market_refusal("agent_not_installed", "The Agent is not installed."));
    }
    if !item_known {
        return Err(market_refusal("agent_not_found", "The installed Agent is no longer in the curated catalog."));
    }
    Ok(())
}

pub open spec fn assignment_conflicts(assignments: Seq<String>) -> Seq<Seq<char>> {
    assignments.map_values(|a: String| "assignment:"@ + a@)
}

/// The conflicts an uninstall preview lists: each capability assignment to
/// the agent, then the agent being in use, then a managed installation
/// whose directory is not a safe managed path.
pub fn uninstall_conflicts(assignments: &Vec<String>, in_use: bool, managed: bool, safe_install_path: bool) -> (r:
    Vec<String>)
    ensures
        r@.map_values(|c: String| c@) == assignment_conflicts(assignments@) + (if in_use {
            seq!["agent_in_use"@]
        } else {
            Seq::empty()
        }) + (if managed && !safe_install_path {
            seq!["unsafe_install_path"@]
        } else {
            Seq::empty()
        }),
{
    let mut out: Vec<String> = Vec::new();
    let mut i: usize = 0;
    while i < assignments.len()
        invariant
            i <= assignments@.len(),
            out@.map_values(|c: String| c@) == assignment_conflicts(assignments@.take(i as int)),
        decreases assignments.len() - i,
    {
        let mut c = String::from_str("assignment:");
        c.append(assignments[i].as_str());
        let ghost before = out@;
        out.push(c);
        proof {
            assert(assignments@.take(i + 1) =~= assignments@.take(i as int).push(assignments@[i as int]));
            assert(out@.map_values(|x: String| x@) =~= before.map_values(|x: String| x@).push(c@));
            assert(assignment_conflicts(assignments@.take(i + 1)) =~= assignment_conflicts(
                assignments@.take(i as int),
            ).push("assignment:"@ + assignments@[i as int]@));
        }
        i = i + 1;
    }
    assert(assignments@.take(assignments@.len() as int) =~= assignments@);
    let ghost base = out@.map_values(|x: String| x@);
    if in_use {
        let ghost before = out@;
        out.push(String::from_str("agent_in_use"));
        assert(out@.map_values(|x: String| x@) =~= before.map_values(|x: String| x@).push("agent_in_use"@));
    }
    let ghost mid = out@.map_values(|x: String| x@);
    if managed && !safe_install_path {
        let ghost before = out@;
        out.push(String::from_str("unsafe_install_path"));
        assert(out@.map_values(|x: String| x@) =~= before.map_values(|x: String| x@).push("unsafe_install_path"@));
    }
    proof {
        let tail1: Seq<Seq<char>> = if in_use { seq!["agent_in_use"@] } else { Seq::empty() };
        let tail2: Seq<Seq<char>> = if managed && !safe_install_path {
            seq!["unsafe_install_path"@]
        } else {
            Seq::empty()
        };
        assert(mid =~= base + tail1);
        assert(out@.map_values(|x: String| x@) =~= base + tail1 + tail2);
    }
    out
}

/// Checks that an uninstall clears every capability assignment to the
/// agent: each one must be among those the request clears.
pub fn check_uninstall_assignments(assignments: &Vec<String>, cleared: &Vec<String>) -> (r: Result<(), AppError>)
    ensures
        (forall|i: int| 0 <= i < assignments@.len() ==> lists(cleared@, (#[trigger] assignments@[i])@)) ==> r is Ok,
        !(forall|i: int| 0 <= i < assignments@.len() ==> lists(cleared@, (#[trigger] assignments@[i])@)) ==> r is Err
            && is_domain(
            r->Err_0,
            "assignment_conflict"@,
            "The Agent is still assigned to one or more capabilities."@,
            false,
            None,
        ),
{
    let mut i: usize = 0;
    while i < assignments.len()
        invariant
            i <= assignments@.len(),
            forall|j: int| 0 <= j < i ==> lists(cleared@, (#[trigger] assignments@[j])@),
        decreases assignments.len() - i,
    {
        if !list_contains(cleared, assignments[i].as_str()) {
            return Err(market_refusal("assignment_conflict", "The Agent is still assigned to one or more capabilities."));
        }
        i = i + 1;
    }
    Ok(())
}

} // verus!
