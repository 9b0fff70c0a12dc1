//! Agent market decisions: how installable a catalog agent is on this host,
//! and which settings assignments refer to an agent.

use vstd::prelude::*;
use crate::script_catalog::str_eq;
use crate::clock::{elapsed_exceeds_seconds, rfc3339_elapsed_exceeds_seconds};
use crate::text::opt_view;

verus! {

/// A way of installing an agent, as the distribution selector judged it.
pub struct DistributionCandidate {
    pub selectable: bool,
    pub reason_code: Option<String>,
}

/// `installable` when some distribution can be selected; else
/// `runtime-required` when one only lacks its runtime; else `unsupported`.
pub open spec fn installability_label(candidates: Seq<DistributionCandidate>) -> Seq<char> {
    if exists|i: int| 0 <= i < candidates.len() && (#[trigger] candidates[i]).selectable {
        "installable"@
    } else if exists|i: int|
        0 <= i < candidates.len() && opt_view((#[trigger] candidates[i]).reason_code) == Some(
            "runtime_missing"@,
        ) {
        "runtime-required"@
    } else {
        "unsupported"@
    }
}

pub fn installability(candidates: &[DistributionCandidate]) -> (r: String)
    ensures
        r@ == installability_label(candidates@),
{
    let mut i: usize = 0;
    while i < candidates.len()
        invariant
            i <= candidates@.len(),
            forall|j: int| 0 <= j < i ==> !(#[trigger] candidates@[j]).selectable,
        decreases candidates.len() - i,
    {
        if candidates[i].selectable {
            return String::from_str("installable");
        }
        i = i + 1;
    }
    let mut k: usize = 0;
    while k < candidates.len()
        invariant
            k <= candidates@.len(),
            forall|j: int| 0 <= j < candidates@.len() ==> !(#[trigger] candidates@[j]).selectable,
            forall|j: int|
                0 <= j < k ==> opt_view((#[trigger] candidates@[j]).reason_code) != Some(
                    "runtime_missing"@,
                ),
        decreases candidates.len() - k,
    {
        let missing = match &candidates[k].reason_code {
            Some(code) => str_eq(code.as_str(), "runtime_missing"),
            None => false,
        };
        if missing {
            return String::from_str("runtime-required");
        }
        k = k + 1;
    }
    String::from_str("unsupported")
}

/// An entry of the settings' `agentAssignments` object: its key, and the
/// `agentId` text of its value when there is one.
pub struct AgentAssignment {
    pub key: String,
    pub agent_id: Option<String>,
}

/// The part of the settings document the assignment rules read: the
/// `agentAssignments` entries in key order, when that member is an object.
pub struct AgentSettings {
    pub agent_assignments: Option<Vec<AgentAssignment>>,
}

/// Keys of the assignments that name the agent, in order.
pub open spec fn assignment_refs(entries: Seq<AgentAssignment>, agent_id: Seq<char>) -> Seq<Seq<char>>
    decreases entries.len(),
{
    if entries.len() == 0 {
        Seq::empty()
    } else {
        let prev = assignment_refs(entries.drop_last(), agent_id);
        if opt_view(entries.last().agent_id) == Some(agent_id) {
            prev.push(entries.last().key@)
        } else {
            prev
        }
    }
}

pub open spec fn string_views(v: Seq<String>) -> Seq<Seq<char>> {
    v.map_values(|x: String| x@)
}

pub fn agent_assignment_refs_from_settings(settings: &AgentSettings, agent_id: &str) -> (r: Vec<String>)
    ensures
        string_views(r@) == match settings.agent_assignments {
            Some(entries) => assignment_refs(entries@, agent_id@),
            None => Seq::empty(),
        },
{
    let mut out: Vec<String> = Vec::new();
    match &settings.agent_assignments {
        None => {
            assert(string_views(out@) =~= Seq::<Seq<char>>::empty());
        },
        Some(entries) => {
            let mut i: usize = 0;
            assert(string_views(out@) =~= assignment_refs(entries@.take(0), agent_id@));
            while i < entries.len()
                invariant
                    i <= entries@.len(),
                    string_views(out@) == assignment_refs(entries@.take(i as int), agent_id@),
                decreases entries.len() - i,
            {
                proof {
                    assert(entries@.take(i + 1).drop_last() =~= entries@.take(i as int));
                }
                let named = match &entries[i].agent_id {
                    Some(a) => str_eq(a.as_str(), agent_id),
                    None => false,
                };
                if named {
                    let key = entries[i].key.clone();
                    assert(string_views(out@.push(key)) =~= string_views(out@).push(key@));
                    out.push(key);
                }
                i = i + 1;
            }
            assert(entries@.take(entries@.len() as int) =~= entries@);
        },
    }
    out
}

/// The entries whose keys are not among `removed`, in order.
pub open spec fn remaining_assignments(entries: Seq<AgentAssignment>, removed: Seq<Seq<char>>) -> Seq<AgentAssignment> {
    entries.filter(|e: AgentAssignment| !removed.contains(e.key@))
}

fn listed(removed: &[String], key: &String) -> (r: bool)
    ensures
        r == string_views(removed@).contains(key@),
{
    let ghost v = string_views(removed@);
    let mut i: usize = 0;
    while i < removed.len()
        invariant
            i <= removed@.len(),
            v == string_views(removed@),
            forall|j: int| 0 <= j < i ==> v[j] != key@,
        decreases removed.len() - i,
    {
        if str_eq(removed[i].as_str(), key.as_str()) {
            assert(v[i as int] == key@);
            return true;
        }
        i = i + 1;
    }
    proof {
        if v.contains(key@) {
            let k = choose|k: int| 0 <= k < v.len() && v[k] == key@;
            assert(v[k] != key@);
        }
    }
    false
}

/// The settings with the given assignments removed; settings without an
/// assignments object are returned as they are.
pub fn settings_without_agent_assignments(settings: AgentSettings, assignments: &[String]) -> (r: AgentSettings)
    ensures
        match settings.agent_assignments {
            Some(entries) => r.agent_assignments matches Some(kept) && kept@
                == remaining_assignments(entries@, string_views(assignments@)),
            None => r.agent_assignments is None,
        },
{
    match settings.agent_assignments {
        None => AgentSettings { agent_assignments: None },
        Some(entries) => {
            let ghost removed = string_views(assignments@);
            let ghost keep = |e: AgentAssignment| !removed.contains(e.key@);
            let ghost orig = entries@;
            let mut rest = entries;
            let mut kept: Vec<AgentAssignment> = Vec::new();
            assert(orig.take(0).filter(keep) =~= Seq::<AgentAssignment>::empty());
            assert(orig.skip(0) =~= orig);
            while rest.len() > 0
                invariant
                    rest@.len() <= orig.len(),
                    rest@ == orig.skip(orig.len() - rest@.len()),
                    removed == string_views(assignments@),
                    keep == (|e: AgentAssignment| !removed.contains(e.key@)),
                    kept@ == orig.take(orig.len() - rest@.len()).filter(keep),
                decreases rest@.len(),
            {
                let ghost i = orig.len() - rest@.len();
                let e = rest.remove(0);
                proof {
                    assert(e == orig[i]);
                    assert(rest@ =~= orig.skip(i + 1));
                    assert(orig.take(i + 1) =~= orig.take(i).push(e));
                    orig.take(i).lemma_filter_push(e, keep);
                }
                if !listed(assignments, &e.key) {
                    kept.push(e);
                }
            }
            assert(orig.take(orig.len() as int) =~= orig);
            AgentSettings { agent_assignments: Some(kept) }
        },
    }
}


proof fn lemma_naming_keys_listed(entries: Seq<AgentAssignment>, agent_id: Seq<char>, i: int)
    requires
        0 <= i < entries.len(),
        opt_view(entries[i].agent_id) == Some(agent_id),
    ensures
        assignment_refs(entries, agent_id).contains(entries[i].key@),
    decreases entries.len(),
{
    let prev = entries.drop_last();
    if i < entries.len() - 1 {
        lemma_naming_keys_listed(prev, agent_id, i);
        assert(prev[i] == entries[i]);
        let k = choose|k: int| 0 <= k < assignment_refs(prev, agent_id).len() && assignment_refs(prev, agent_id)[k] == entries[i].key@;
        if opt_view(entries.last().agent_id) == Some(agent_id) {
            assert(assignment_refs(entries, agent_id)[k] == entries[i].key@);
        }
    } else {
        let r = assignment_refs(entries, agent_id);
        assert(r.last() == entries[i].key@);
    }
}

proof fn lemma_remaining_push(xs: Seq<AgentAssignment>, e: AgentAssignment, removed: Seq<Seq<char>>)
    ensures
        remaining_assignments(xs.push(e), removed) == if !removed.contains(e.key@) {
            remaining_assignments(xs, removed).push(e)
        } else {
            remaining_assignments(xs, removed)
        },
{
    xs.lemma_filter_push(e, |x: AgentAssignment| !removed.contains(x.key@));
}

proof fn lemma_kept_entries_do_not_name(entries: Seq<AgentAssignment>, removed: Seq<Seq<char>>, agent_id: Seq<char>)
    requires
        forall|i: int|
            0 <= i < entries.len() && opt_view(#[trigger] entries[i].agent_id) == Some(agent_id)
                ==> removed.contains(entries[i].key@),
    ensures
        assignment_refs(remaining_assignments(entries, removed), agent_id).len() == 0,
    decreases entries.len(),
{
    if entries.len() > 0 {
        let prev = entries.drop_last();
        let last = entries.last();
        assert forall|i: int|
            0 <= i < prev.len() && opt_view(#[trigger] prev[i].agent_id) == Some(agent_id)
                implies removed.contains(prev[i].key@) by {
            assert(prev[i] == entries[i]);
        }
        lemma_kept_entries_do_not_name(prev, removed, agent_id);
        assert(entries =~= prev.push(last));
        lemma_remaining_push(prev, last, removed);
        let r = remaining_assignments(prev, removed);
        assert(opt_view(entries[entries.len() - 1].agent_id) == Some(agent_id) ==> removed.contains(
            entries[entries.len() - 1].key@,
        ));
        if !removed.contains(last.key@) {
            assert(r.push(last).drop_last() =~= r);
            assert(r.push(last).last() == last);
        }
    } else {
        assert(remaining_assignments(entries, removed) =~= Seq::<AgentAssignment>::empty());
    }
}

/// Once the assignments that name an agent are removed from the settings,
/// no assignment left names that agent.
pub proof fn law_removed_assignments_no_longer_name_agent(entries: Seq<AgentAssignment>, agent_id: Seq<char>)
    ensures
        assignment_refs(
            remaining_assignments(entries, assignment_refs(entries, agent_id)),
            agent_id,
        ).len() == 0,
{
    let removed = assignment_refs(entries, agent_id);
    assert forall|i: int|
        0 <= i < entries.len() && opt_view(#[trigger] entries[i].agent_id) == Some(agent_id)
            implies removed.contains(entries[i].key@) by {
        lemma_naming_keys_listed(entries, agent_id, i);
    }
    lemma_kept_entries_do_not_name(entries, removed, agent_id);
}

/// A health check older than this many seconds (half an hour) is stale.
pub const AGENT_HEALTH_MAX_AGE_SECONDS: i64 = 1800;

/// A health check is stale at `now` when it never ran, its time cannot be
/// read, or it is more than half an hour old.
pub open spec fn check_stale_at(checked_at: Option<Seq<char>>, now: Seq<char>) -> bool {
    match checked_at {
        None => true,
        Some(t) => rfc3339_elapsed_exceeds_seconds(now, t, AGENT_HEALTH_MAX_AGE_SECONDS) != Some(false),
    }
}

pub fn agent_check_stale_at(checked_at: Option<&str>, now: &str) -> (r: bool)
    ensures
        r == check_stale_at(opt_text(checked_at), now@),
{
    match checked_at {
        None => true,
        Some(t) => match elapsed_exceeds_seconds(now, t, AGENT_HEALTH_MAX_AGE_SECONDS) {
            Some(false) => false,
            _ => true,
        },
    }
}

pub open spec fn opt_text(o: Option<&str>) -> Option<Seq<char>> {
    match o {
        Some(t) => Some(t@),
        None => None,
    }
}

/// The health an installation shows at `now`: its last check is the
/// protocol check, else the runtime check; it is stale when the protocol
/// was never checked, the model is still unchecked, or the last check is.
pub fn installation_health_at(
    protocol_unchecked: bool,
    model_status: Option<&str>,
    protocol_checked_at: Option<&str>,
    runtime_checked_at: Option<&str>,
    now: &str,
) -> (r: (Option<String>, bool))
    ensures
        opt_view(r.0) == match protocol_checked_at {
            Some(p) => Some(p@),
            None => opt_text(runtime_checked_at),
        },
        r.1 == (protocol_unchecked || opt_text(model_status) == Some("unchecked"@) || check_stale_at(
            match protocol_checked_at {
                Some(p) => Some(p@),
                None => opt_text(runtime_checked_at),
            },
            now@,
        )),
{
    let last: Option<&str> = match protocol_checked_at {
        Some(p) => Some(p),
        None => runtime_checked_at,
    };
    let model_unchecked = match model_status {
        Some(m) => str_eq(m, "unchecked"),
        None => false,
    };
    let stale = protocol_unchecked || model_unchecked || agent_check_stale_at(last, now);
    let last_checked_at = match last {
        Some(t) => Some(String::from_str(t)),
        None => None,
    };
    (last_checked_at, stale)
}

/// The installation status shown: `disabled` for a disabled agent, else
/// its own status.
pub fn shown_installation_status(enabled: bool, status: &str) -> (r: String)
    ensures
        r@ == if enabled { status@ } else { "disabled"@ },
{
    if enabled {
        String::from_str(status)
    } else {
        String::from_str("disabled")
    }
}

/// The error an installation shows: a failed protocol check first, else a
/// failed runtime check, each with a default message when it gave none.
pub fn installation_error(
    protocol_error_code: Option<&str>,
    protocol_error_message: Option<&str>,
    runtime_error_code: Option<&str>,
    runtime_error_message: Option<&str>,
) -> (r: Option<(String, String)>)
    ensures
        match protocol_error_code {
            Some(c) => r matches Some((code, message)) && code@ == c@ && message@ == match protocol_error_message {
                Some(m) => m@,
                None => "Agent protocol health check failed."@,
            },
            None => match runtime_error_code {
                Some(c) => r matches Some((code, message)) && code@ == c@ && message@ == match runtime_error_message {
                    Some(m) => m@,
                    None => "Agent runtime health check failed."@,
                },
                None => r is None,
            },
        },
{
    match protocol_error_code {
        Some(c) => Some((
            String::from_str(c),
            String::from_str(
                match protocol_error_message {
                    Some(m) => m,
                    None => "Agent protocol health check failed.",
                },
            ),
        )),
        None => match runtime_error_code {
            Some(c) => Some((
                String::from_str(c),
                String::from_str(
                    match runtime_error_message {
                        Some(m) => m,
                        None => "Agent runtime health check failed.",
                    },
                ),
            )),
            None => None,
        },
    }
}

/// A connection check on an installed agent: the protocol shows `ready`
/// once connected, and the agent can run only when connected, enabled, and
/// both installation and runtime are ready.
pub fn connected_installation_state(
    connected: bool,
    enabled: bool,
    installation_ready: bool,
    runtime_ready: bool,
    protocol_status: &str,
) -> (r: (String, bool))
    ensures
        r.0@ == if connected { "ready"@ } else { protocol_status@ },
        r.1 == (connected && enabled && installation_ready && runtime_ready),
{
    let shown = if connected {
        String::from_str("ready")
    } else {
        String::from_str(protocol_status)
    };
    (shown, connected && enabled && installation_ready && runtime_ready)
}

/// How the version probe of an agent's entry went.
pub enum RuntimeProbe {
    /// The resolved entry is not a file.
    EntryMissing,
    /// The entry is there but was not probed: it appeared after the check
    /// that decides whether to probe.
    NotRun,
    /// The probe ran to its end.
    Finished { success: bool, stdout_truncated: bool, stderr_truncated: bool },
    /// The probe ran out of time.
    TimedOut,
    /// The probe could not be run.
    Failed,
}

/// The runtime status an installation is given.
#[derive(Debug, Clone, Copy, PartialEq, Eq, Structural)]
pub enum AgentRuntimeStatus {
    Ready,
    Failed,
    EntryMissing,
    RuntimeMissing,
}

/// What becomes of an installation's status after a runtime check.
#[derive(Debug, Clone, Copy, PartialEq, Eq, Structural)]
pub enum InstallationStatusChange {
    /// It becomes broken.
    Broken,
    /// A broken installation becomes ready again.
    Ready,
    /// It stays as it is.
    Unchanged,
}

/// The outcome of a runtime check on an installation.
pub struct AgentRuntimeHealth {
    pub runtime_status: AgentRuntimeStatus,
    pub runtime_error_code: Option<String>,
    pub runtime_error_message: Option<String>,
    pub installation_status: InstallationStatusChange,
}

/// The health an installation gets from a probe of its entry. A missing
/// entry breaks it (its entry is missing when the app manages it, else its
/// runtime is); a probe that fails, times out or overflows its output
/// limit breaks it; a clean probe, or none, makes the runtime ready and
/// repairs a broken installation.
pub fn agent_runtime_health(managed: bool, was_broken: bool, probe: RuntimeProbe) -> (r: AgentRuntimeHealth)
    ensures
        match probe {
            RuntimeProbe::EntryMissing => {
                &&& r.runtime_status == if managed {
                    AgentRuntimeStatus::EntryMissing
                } else {
                    AgentRuntimeStatus::RuntimeMissing
                }
                &&& opt_view(r.runtime_error_code) == Some("agent_entry_missing"@)
                &&& opt_view(r.runtime_error_message) == Some("The resolved Agent entry is missing."@)
                &&& r.installation_status == InstallationStatusChange::Broken
            },
            RuntimeProbe::Finished { success, stdout_truncated, stderr_truncated } => if success && !stdout_truncated
                && !stderr_truncated {
                &&& r.runtime_status == AgentRuntimeStatus::Ready
                &&& r.runtime_error_code is None
                &&& r.runtime_error_message is None
                &&& r.installation_status == if was_broken {
                    InstallationStatusChange::Ready
                } else {
                    InstallationStatusChange::Unchanged
                }
            } else {
                &&& r.runtime_status == AgentRuntimeStatus::Failed
                &&& opt_view(r.runtime_error_code) == Some(
                    if stdout_truncated || stderr_truncated {
                        "runtime_probe_output_limit"@
                    } else {
                        "runtime_probe_failed"@
                    },
                )
                &&& opt_view(r.runtime_error_message) == Some(
                    "The Agent runtime version probe did not complete successfully."@,
                )
                &&& r.installation_status == InstallationStatusChange::Broken
            },
            RuntimeProbe::TimedOut => {
                &&& r.runtime_status == AgentRuntimeStatus::Failed
                &&& opt_view(r.runtime_error_code) == Some("runtime_probe_timeout"@)
                &&& opt_view(r.runtime_error_message) == Some("The Agent runtime version probe failed."@)
                &&& r.installation_status == InstallationStatusChange::Broken
            },
            RuntimeProbe::Failed => {
                &&& r.runtime_status == AgentRuntimeStatus::Failed
                &&& opt_view(r.runtime_error_code) == Some("runtime_probe_failed"@)
                &&& opt_view(r.runtime_error_message) == Some("The Agent runtime version probe failed."@)
                &&& r.installation_status == InstallationStatusChange::Broken
            },
            RuntimeProbe::NotRun => {
                &&& r.runtime_status == AgentRuntimeStatus::Ready
                &&& r.runtime_error_code is None
                &&& r.runtime_error_message is None
                &&& r.installation_status == if was_broken {
                    InstallationStatusChange::Ready
                } else {
                    InstallationStatusChange::Unchanged
                }
            },
        },
{
    let repaired = if was_broken {
        InstallationStatusChange::Ready
    } else {
        InstallationStatusChange::Unchanged
    };
    match probe {
        RuntimeProbe::EntryMissing => AgentRuntimeHealth {
            runtime_status: if managed {
                AgentRuntimeStatus::EntryMissing
            } else {
                AgentRuntimeStatus::RuntimeMissing
            },
            runtime_error_code: Some(String::from_str("agent_entry_missing")),
            runtime_error_message: Some(String::from_str("The resolved Agent entry is missing.")),
            installation_status: InstallationStatusChange::Broken,
        },
        RuntimeProbe::Finished { success, stdout_truncated, stderr_truncated } => {
            if success && !stdout_truncated && !stderr_truncated {
                AgentRuntimeHealth {
                    runtime_status: AgentRuntimeStatus::Ready,
                    runtime_error_code: None,
                    runtime_error_message: None,
                    installation_status: repaired,
                }
            } else {
                AgentRuntimeHealth {
                    runtime_status: AgentRuntimeStatus::Failed,
                    runtime_error_code: Some(
                        String::from_str(
                            if stdout_truncated || stderr_truncated {
                                "runtime_probe_output_limit"
                            } else {
                                "runtime_probe_failed"
                            },
                        ),
                    ),
                    runtime_error_message: Some(
                        String::from_str("The Agent runtime version probe did not complete successfully."),
                    ),
                    installation_status: InstallationStatusChange::Broken,
                }
            }
        },
        RuntimeProbe::TimedOut => AgentRuntimeHealth {
            runtime_status: AgentRuntimeStatus::Failed,
            runtime_error_code: Some(String::from_str("runtime_probe_timeout")),
            runtime_error_message: Some(String::from_str("The Agent runtime version probe failed.")),
            installation_status: InstallationStatusChange::Broken,
        },
        RuntimeProbe::Failed => AgentRuntimeHealth {
            runtime_status: AgentRuntimeStatus::Failed,
            runtime_error_code: Some(String::from_str("runtime_probe_failed")),
            runtime_error_message: Some(String::from_str("The Agent runtime version probe failed.")),
            installation_status: InstallationStatusChange::Broken,
        },
        RuntimeProbe::NotRun => AgentRuntimeHealth {
            runtime_status: AgentRuntimeStatus::Ready,
            runtime_error_code: None,
            runtime_error_message: None,
            installation_status: repaired,
        },
    }
}

} // verus!
