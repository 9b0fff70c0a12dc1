//! Conversation usage scans: what each source's scan state becomes after a
//! scan, and the status summed up over all sources.

use vstd::prelude::*;
use crate::models::clone_opt;
use crate::order::{lex_compare, lex_order};
use crate::script_catalog::str_eq;
use crate::text::{chars_of, opt_view};

verus! {

/// What `serde_json::to_string` writes for a list of texts.
pub uninterp spec fn json_text_array(items: Seq<Seq<char>>) -> Seq<char>;

/// What `serde_json::from_str::<Vec<String>>` reads from a text: the list,
/// or nothing when the text is not a JSON list of strings.
pub uninterp spec fn json_string_list(text: Seq<char>) -> Option<Seq<Seq<char>>>;

pub open spec fn texts_of(v: Seq<String>) -> Seq<Seq<char>> {
    v.map_values(|s: String| s@)
}

/// `serde_json::to_string` of a list of texts, which cannot fail for such
/// a list.
#[verifier::external_body]
fn encode_text_list(items: &Vec<String>) -> (r: String)
    ensures
        r@ == json_text_array(texts_of(items@)),
{
    serde_json::to_string(items).unwrap_or_default()
}

/// `serde_json::from_str::<Vec<String>>`; `None` when the text is not a
/// JSON list of strings.
#[verifier::external_body]
fn decode_text_list(text: &str) -> (r: Option<Vec<String>>)
    ensures
        match json_string_list(text@) {
            Some(l) => r matches Some(v) && texts_of(v@) == l,
            None => r is None,
        },
{
    serde_json::from_str::<Vec<String>>(text).ok()
}

/// The scan state kept for one source.
pub struct UsageSourceState {
    pub tenant_id: String,
    pub source_id: String,
    pub adapter_id: String,
    pub decoder_profile: Option<String>,
    pub schema_fingerprint: Option<String>,
    pub opaque_cursor: Option<String>,
    pub last_success_scan_at: Option<String>,
    pub last_full_scan_at: Option<String>,
    pub status: String,
    pub diagnostics_json: Option<String>,
    pub created_at: String,
    pub updated_at: String,
}

/// How one source's scan went.
pub enum UsageScanOutcome {
    Succeeded { decoder_profile: Option<String>, next_cursor: Option<String>, diagnostics: Vec<String> },
    Failed { message: String },
}

/// The requested scan mode (incremental unless asked), and whether it is a
/// full scan.
pub fn usage_scan_mode(mode: Option<&str>) -> (r: (String, bool))
    ensures
        r.0@ == match mode {
            Some(m) => m@,
            None => "incremental"@,
        },
        r.1 == (r.0@ == "full"@),
{
    let m = match mode {
        Some(m) => String::from_str(m),
        None => String::from_str("incremental"),
    };
    let full = str_eq(m.as_str(), "full");
    (m, full)
}

/// Where a scan resumes: from the start for a full scan, else at the kept
/// cursor.
pub fn usage_scan_cursor(full: bool, previous: Option<&UsageSourceState>) -> (r: Option<String>)
    ensures
        r == if full {
            None
        } else {
            match previous {
                Some(p) => p.opaque_cursor,
                None => None,
            }
        },
{
    if full {
        None
    } else {
        match previous {
            Some(p) => clone_opt(&p.opaque_cursor),
            None => None,
        }
    }
}

/// A field of the previous state, if there was one.
pub open spec fn prev_field(previous: Option<UsageSourceState>, f: spec_fn(UsageSourceState) -> Option<String>) -> Option<String> {
    match previous {
        Some(p) => f(p),
        None => None,
    }
}

/// The state a source keeps after a scan at `now`. A success resets the
/// status to active and keeps the new cursor (an incremental scan without
/// one keeps the old cursor), the decoder profile and the diagnostics; a
/// failure keeps everything the last success recorded and notes the error.
/// Both keep the first creation time.
pub fn next_usage_source_state(
    tenant_id: &str,
    source_id: &str,
    adapter_id: &str,
    previous: Option<&UsageSourceState>,
    outcome: UsageScanOutcome,
    full: bool,
    now: &str,
) -> (r: UsageSourceState)
    ensures
        r.tenant_id@ == tenant_id@,
        r.source_id@ == source_id@,
        r.adapter_id@ == adapter_id@,
        r.schema_fingerprint is None,
        r.updated_at@ == now@,
        r.created_at@ == match previous {
            Some(p) => p.created_at@,
            None => now@,
        },
        match outcome {
            UsageScanOutcome::Succeeded { decoder_profile, next_cursor, diagnostics } => {
                &&& r.decoder_profile == decoder_profile
                &&& r.opaque_cursor == match next_cursor {
                    Some(c) => Some(c),
                    None => if full {
                        None
                    } else {
                        match previous {
                            Some(p) => p.opaque_cursor,
                            None => None,
                        }
                    },
                }
                &&& opt_view(r.last_success_scan_at) == Some(now@)
                &&& (if full {
                    opt_view(r.last_full_scan_at) == Some(now@)
                } else {
                    r.last_full_scan_at == match previous {
                        Some(p) => p.last_full_scan_at,
                        None => None,
                    }
                })
                &&& r.status@ == "active"@
                &&& opt_view(r.diagnostics_json) == if diagnostics@.len() > 0 {
                    Some(json_text_array(texts_of(diagnostics@)))
                } else {
                    None
                }
            },
            UsageScanOutcome::Failed { message } => {
                &&& r.decoder_profile == match previous {
                    Some(p) => p.decoder_profile,
                    None => None,
                }
                &&& r.opaque_cursor == match previous {
                    Some(p) => p.opaque_cursor,
                    None => None,
                }
                &&& r.last_success_scan_at == match previous {
                    Some(p) => p.last_success_scan_at,
                    None => None,
                }
                &&& r.last_full_scan_at == match previous {
                    Some(p) => p.last_full_scan_at,
                    None => None,
                }
                &&& r.status@ == "error"@
                &&& opt_view(r.diagnostics_json) == Some(json_text_array(seq![message@]))
            },
        },
{
    let created_at = match previous {
        Some(p) => p.created_at.clone(),
        None => String::from_str(now),
    };
    match outcome {
        UsageScanOutcome::Succeeded { decoder_profile, next_cursor, diagnostics } => {
            let opaque_cursor = match next_cursor {
                Some(c) => Some(c),
                None => if full {
                    None
                } else {
                    match previous {
                        Some(p) => clone_opt(&p.opaque_cursor),
                        None => None,
                    }
                },
            };
            let last_full_scan_at = if full {
                Some(String::from_str(now))
            } else {
                match previous {
                    Some(p) => clone_opt(&p.last_full_scan_at),
                    None => None,
                }
            };
            let diagnostics_json = if diagnostics.len() > 0 {
                Some(encode_text_list(&diagnostics))
            } else {
                None
            };
            UsageSourceState {
                tenant_id: String::from_str(tenant_id),
                source_id: String::from_str(source_id),
                adapter_id: String::from_str(adapter_id),
                decoder_profile,
                schema_fingerprint: None,
                opaque_cursor,
                last_success_scan_at: Some(String::from_str(now)),
                last_full_scan_at,
                status: String::from_str("active"),
                diagnostics_json,
                created_at,
                updated_at: String::from_str(now),
            }
        },
        UsageScanOutcome::Failed { message } => {
            let mut one: Vec<String> = Vec::new();
            one.push(message);
            assert(texts_of(one@) =~= seq![one@[0]@]);
            UsageSourceState {
                tenant_id: String::from_str(tenant_id),
                source_id: String::from_str(source_id),
                adapter_id: String::from_str(adapter_id),
                decoder_profile: match previous {
                    Some(p) => clone_opt(&p.decoder_profile),
                    None => None,
                },
                schema_fingerprint: None,
                opaque_cursor: match previous {
                    Some(p) => clone_opt(&p.opaque_cursor),
                    None => None,
                },
                last_success_scan_at: match previous {
                    Some(p) => clone_opt(&p.last_success_scan_at),
                    None => None,
                },
                last_full_scan_at: match previous {
                    Some(p) => clone_opt(&p.last_full_scan_at),
                    None => None,
                },
                status: String::from_str("error"),
                diagnostics_json: Some(encode_text_list(&one)),
                created_at,
                updated_at: String::from_str(now),
            }
        },
    }
}

/// A diagnostic message of a source.
pub struct UsageSourceDiagnostic {
    pub source_id: String,
    pub adapter_id: String,
    pub level: String,
    pub message: String,
    pub timestamp: String,
}

/// The summed-up scan status.
pub struct UsageScanStatus {
    pub scanned_sources_count: usize,
    pub total_events_count: usize,
    pub last_scanned_at: Option<String>,
    pub active_scan_task_id: Option<String>,
    pub source_diagnostics: Vec<UsageSourceDiagnostic>,
}

/// The latest successful scan time among the first `n` states; a later
/// state wins only with a strictly greater time text.
pub open spec fn latest_scan(states: Seq<UsageSourceState>, n: int) -> Option<Seq<char>>
    decreases n,
{
    if n <= 0 {
        None
    } else {
        let prev = latest_scan(states, n - 1);
        match states[n - 1].last_success_scan_at {
            Some(t) => match prev {
                None => Some(t@),
                Some(c) => if lex_order(t@, c) > 0 {
                    Some(t@)
                } else {
                    Some(c)
                },
            },
            None => prev,
        }
    }
}

/// A diagnostic as plain texts: source, adapter, level, message, time.
pub open spec fn diag_view(d: UsageSourceDiagnostic) -> (Seq<char>, Seq<char>, Seq<char>, Seq<char>, Seq<char>) {
    (d.source_id@, d.adapter_id@, d.level@, d.message@, d.timestamp@)
}

/// The diagnostics of one state given its decoded diagnostics list: each
/// message of the list, or the raw text when it did not decode as a list;
/// errors for a failing source, else information; dated by its last
/// success, else its last update.
pub open spec fn diagnostics_of(
    st: UsageSourceState,
    decoded: Option<Seq<Seq<char>>>,
) -> Seq<(Seq<char>, Seq<char>, Seq<char>, Seq<char>, Seq<char>)> {
    let level = if st.status@ == "error"@ { "error"@ } else { "info"@ };
    let time = match st.last_success_scan_at {
        Some(t) => t@,
        None => st.updated_at@,
    };
    match st.diagnostics_json {
        None => Seq::empty(),
        Some(j) => match decoded {
            Some(msgs) => msgs.map_values(|m: Seq<char>| (st.source_id@, st.adapter_id@, level, m, time)),
            None => seq![(st.source_id@, st.adapter_id@, level, j@, time)],
        },
    }
}

/// The diagnostics of one state: its JSON list read with `serde_json`.
pub open spec fn state_diagnostics(st: UsageSourceState) -> Seq<(Seq<char>, Seq<char>, Seq<char>, Seq<char>, Seq<char>)> {
    diagnostics_of(
        st,
        match st.diagnostics_json {
            Some(j) => json_string_list(j@),
            None => None,
        },
    )
}

pub open spec fn decoded_view(d: Option<Vec<String>>) -> Option<Seq<Seq<char>>> {
    match d {
        Some(v) => Some(texts_of(v@)),
        None => None,
    }
}

/// The diagnostics a source state shows, from the list its diagnostics
/// text decoded to (`None` when it did not decode as a list of texts).
pub fn usage_state_diagnostics(st: &UsageSourceState, decoded: Option<Vec<String>>) -> (r: Vec<UsageSourceDiagnostic>)
    ensures
        r@.map_values(|d: UsageSourceDiagnostic| diag_view(d)) == diagnostics_of(*st, decoded_view(decoded)),
{
    let mut diags: Vec<UsageSourceDiagnostic> = Vec::new();
    let level = if str_eq(st.status.as_str(), "error") {
        String::from_str("error")
    } else {
        String::from_str("info")
    };
    let time = match &st.last_success_scan_at {
        Some(t) => t.clone(),
        None => st.updated_at.clone(),
    };
    let ghost lv = level@;
    let ghost tv = time@;
    if let Some(j) = &st.diagnostics_json {
        match decoded {
            Some(msgs) => {
                let mut k: usize = 0;
                while k < msgs.len()
                    invariant
                        k <= msgs@.len(),
                        lv == level@,
                        tv == time@,
                        diags@.map_values(|d: UsageSourceDiagnostic| diag_view(d)) == texts_of(msgs@).take(
                            k as int,
                        ).map_values(|m: Seq<char>| (st.source_id@, st.adapter_id@, lv, m, tv)),
                    decreases msgs.len() - k,
                {
                    let d = UsageSourceDiagnostic {
                        source_id: st.source_id.clone(),
                        adapter_id: st.adapter_id.clone(),
                        level: level.clone(),
                        message: msgs[k].clone(),
                        timestamp: time.clone(),
                    };
                    let ghost old_v = diags@.map_values(|d: UsageSourceDiagnostic| diag_view(d));
                    diags.push(d);
                    proof {
                        let mv = texts_of(msgs@);
                        assert(mv.take(k + 1) =~= mv.take(k as int).push(mv[k as int]));
                        assert(diags@.map_values(|d: UsageSourceDiagnostic| diag_view(d)) =~= old_v.push(
                            (st.source_id@, st.adapter_id@, lv, mv[k as int], tv),
                        ));
                        assert(mv.take(k + 1).map_values(|m: Seq<char>| (st.source_id@, st.adapter_id@, lv, m, tv))
                            =~= mv.take(k as int).map_values(|m: Seq<char>| (st.source_id@, st.adapter_id@, lv, m, tv)).push(
                            (st.source_id@, st.adapter_id@, lv, mv[k as int], tv),
                        ));
                    }
                    k = k + 1;
                }
                assert(texts_of(msgs@).take(msgs@.len() as int) =~= texts_of(msgs@));
            },
            None => {
                let d = UsageSourceDiagnostic {
                    source_id: st.source_id.clone(),
                    adapter_id: st.adapter_id.clone(),
                    level,
                    message: j.clone(),
                    timestamp: time,
                };
                diags.push(d);
                assert(diags@.map_values(|d: UsageSourceDiagnostic| diag_view(d)) =~= seq![
                    (st.source_id@, st.adapter_id@, lv, j@, tv),
                ]);
            },
        }
    } else {
        assert(diags@.map_values(|d: UsageSourceDiagnostic| diag_view(d)) =~= Seq::empty());
    }
    diags
}

/// The diagnostics of the first `n` states, in order.
pub open spec fn all_diagnostics(states: Seq<UsageSourceState>, n: int) -> Seq<(Seq<char>, Seq<char>, Seq<char>, Seq<char>, Seq<char>)>
    decreases n,
{
    if n <= 0 {
        Seq::empty()
    } else {
        all_diagnostics(states, n - 1) + state_diagnostics(states[n - 1])
    }
}

/// Sums up the scan states of all sources.
pub fn usage_scan_status(states: &Vec<UsageSourceState>, total_events_count: usize) -> (r: UsageScanStatus)
    ensures
        r.scanned_sources_count == states@.len(),
        r.total_events_count == total_events_count,
        opt_view(r.last_scanned_at) == latest_scan(states@, states@.len() as int),
        r.active_scan_task_id is None,
        r.source_diagnostics@.map_values(|d: UsageSourceDiagnostic| diag_view(d)) == all_diagnostics(
            states@,
            states@.len() as int,
        ),
{
    let mut last: Option<String> = None;
    let mut diags: Vec<UsageSourceDiagnostic> = Vec::new();
    let mut i: usize = 0;
    while i < states.len()
        invariant
            i <= states@.len(),
            opt_view(last) == latest_scan(states@, i as int),
            diags@.map_values(|d: UsageSourceDiagnostic| diag_view(d)) == all_diagnostics(states@, i as int),
        decreases states.len() - i,
    {
        let st = &states[i];
        if let Some(t) = &st.last_success_scan_at {
            let newer = match &last {
                None => true,
                Some(c) => lex_compare(&chars_of(t.as_str()), &chars_of(c.as_str())) > 0,
            };
            if newer {
                last = Some(t.clone());
            }
        }
        let decoded = match &st.diagnostics_json {
            Some(j) => decode_text_list(j.as_str()),
            None => None,
        };
        let mine = usage_state_diagnostics(st, decoded);
        let ghost before = diags@.map_values(|d: UsageSourceDiagnostic| diag_view(d));
        let ghost mv = mine@.map_values(|d: UsageSourceDiagnostic| diag_view(d));
        let mut k: usize = 0;
        while k < mine.len()
            invariant
                k <= mine@.len(),
                mv == mine@.map_values(|d: UsageSourceDiagnostic| diag_view(d)),
                diags@.map_values(|d: UsageSourceDiagnostic| diag_view(d)) == before + mv.take(k as int),
            decreases mine.len() - k,
        {
            let d = UsageSourceDiagnostic {
                source_id: mine[k].source_id.clone(),
                adapter_id: mine[k].adapter_id.clone(),
                level: mine[k].level.clone(),
                message: mine[k].message.clone(),
                timestamp: mine[k].timestamp.clone(),
            };
            let ghost old_v = diags@.map_values(|d: UsageSourceDiagnostic| diag_view(d));
            diags.push(d);
            proof {
                assert(diags@.map_values(|d: UsageSourceDiagnostic| diag_view(d)) =~= old_v.push(mv[k as int]));
                assert(mv.take(k + 1) =~= mv.take(k as int).push(mv[k as int]));
            }
            k = k + 1;
        }
        assert(mv.take(mv.len() as int) =~= mv);
        assert(all_diagnostics(states@, i + 1) == all_diagnostics(states@, i as int) + state_diagnostics(states@[i as int]));
        i = i + 1;
    }
    UsageScanStatus {
        scanned_sources_count: states.len(),
        total_events_count,
        last_scanned_at: last,
        active_scan_task_id: None,
        source_diagnostics: diags,
    }
}

} // verus!
