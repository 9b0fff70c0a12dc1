//! Errors of the agent market and how they reach callers of the application
//! service: each becomes a domain error with a stable code, whether a retry
//! may help, and structured details naming the agent it concerns.

use vstd::prelude::*;
use crate::error::AppError;
use crate::script_catalog::str_eq;
use crate::text::opt_view;

verus! {

/// What `serde_json` writes for a JSON object whose fields are texts or
/// nulls; it writes the fields sorted by name.
pub uninterp spec fn json_text_fields(fields: Seq<(Seq<char>, Option<Seq<char>>)>) -> Seq<char>;

pub open spec fn field_views(fields: Seq<(String, Option<String>)>) -> Seq<(Seq<char>, Option<Seq<char>>)> {
    fields.map_values(|f: (String, Option<String>)| (f.0@, opt_view(f.1)))
}

/// Writes a JSON object of text-or-null fields with `serde_json`, which
/// cannot fail for such an object.
#[verifier::external_body]
fn encode_text_fields(fields: Vec<(String, Option<String>)>) -> (r: String)
    ensures
        r@ == json_text_fields(field_views(fields@)),
{
    let object: serde_json::Map<String, serde_json::Value> =
        fields.into_iter().map(|(key, value)| (key, value.map_or(serde_json::Value::Null, serde_json::Value::String))).collect();
    serde_json::Value::Object(object).to_string()
}

/// A failure of the agent market. Details are JSON text.
pub enum AgentMarketError {
    Database(String),
    Catalog(String),
    CatalogValidation {
        message: String,
        agent_id: Option<String>,
        field: Option<String>,
        details: Option<String>,
    },
    InstallationNotFound { agent_id: String },
    Distribution {
        code: String,
        message: String,
        agent_id: Option<String>,
        distribution_id: Option<String>,
        details: Option<String>,
    },
    /// A failure of a host process, already in the form its own conversion
    /// gives it.
    Process(AppError),
    Timeout { message: String, agent_id: Option<String> },
    Lifecycle {
        code: String,
        message: String,
        agent_id: Option<String>,
        phase: Option<String>,
        retryable: bool,
        action: Option<String>,
        details: Option<String>,
    },
    Io(String),
    Serialization(String),
}

/// The details of an error: those given, else an object naming the fields
/// that are known, else none.
pub open spec fn fallback_details(
    given: Option<Seq<char>>,
    fields: Seq<(Seq<char>, Option<Seq<char>>)>,
) -> Option<Seq<char>> {
    if given is Some {
        given
    } else if exists|i: int| 0 <= i < fields.len() && (#[trigger] fields[i]).1 is Some {
        Some(json_text_fields(fields))
    } else {
        None
    }
}

/// A distribution failure a retry may cure: a missing runtime or a system
/// program of an incompatible version.
pub open spec fn retryable_distribution_code(code: Seq<char>) -> bool {
    code == "runtime_missing"@ || code == "system_version_incompatible"@
}

/// `e` is the domain error with this code, message, retry flag and details.
pub open spec fn is_domain(
    e: AppError,
    code: Seq<char>,
    message: Seq<char>,
    retryable: bool,
    details: Option<Seq<char>>,
) -> bool {
    e matches AppError::Domain { code: c, message: m, retryable: r, details: d } && c@ == code && m@ == message
        && r == retryable && opt_view(d) == details
}

fn details_or(given: Option<String>, fields: Vec<(String, Option<String>)>) -> (r: Option<String>)
    ensures
        opt_view(r) == fallback_details(opt_view(given), field_views(fields@)),
{
    if given.is_some() {
        return given;
    }
    let mut i: usize = 0;
    while i < fields.len()
        invariant
            given is None,
            i <= fields@.len(),
            forall|j: int| 0 <= j < i ==> fields@[j].1 is None,
        decreases fields.len() - i,
    {
        if fields[i].1.is_some() {
            let ghost fv = field_views(fields@);
            assert(fv[i as int].1 is Some);
            assert(exists|k: int| 0 <= k < fv.len() && (#[trigger] fv[k]).1 is Some);
            return Some(encode_text_fields(fields));
        }
        i = i + 1;
    }
    proof {
        let fv = field_views(fields@);
        assert forall|j: int| 0 <= j < fv.len() implies (#[trigger] fv[j]).1 is None by {
            assert(fv[j].1 == opt_view(fields@[j].1));
        }
    }
    None
}

fn field(name: &str, value: Option<String>) -> (r: (String, Option<String>))
    ensures
        r.0@ == name@,
        opt_view(r.1) == opt_view(value),
{
    (String::from_str(name), value)
}

/// The application error for a failure of the agent market.
pub fn app_error_from_agent_market(error: AgentMarketError) -> (r: AppError)
    ensures
        match error {
            AgentMarketError::Database(m) => r matches AppError::Db(x) && x@ == m@,
            AgentMarketError::Catalog(m) => is_domain(r, "invalid_catalog"@, m@, false, None),
            AgentMarketError::CatalogValidation { message, agent_id, field, details } => is_domain(
                r,
                "catalog_validation_failed"@,
                message@,
                false,
                fallback_details(
                    opt_view(details),
                    seq![("agentId"@, opt_view(agent_id)), ("field"@, opt_view(field))],
                ),
            ),
            AgentMarketError::InstallationNotFound { agent_id } => is_domain(
                r,
                "agent_not_installed"@,
                "Agent installation '"@ + agent_id@ + "' not found"@,
                false,
                Some(json_text_fields(seq![("agentId"@, Some(agent_id@))])),
            ),
            AgentMarketError::Distribution { code, message, agent_id, distribution_id, details } => is_domain(
                r,
                code@,
                message@,
                retryable_distribution_code(code@),
                fallback_details(
                    opt_view(details),
                    seq![("agentId"@, opt_view(agent_id)), ("distributionId"@, opt_view(distribution_id))],
                ),
            ),
            AgentMarketError::Process(e) => r == e,
            AgentMarketError::Timeout { message, agent_id } => is_domain(
                r,
                "timeout"@,
                message@,
                true,
                match agent_id {
                    Some(id) => Some(json_text_fields(seq![("agentId"@, Some(id@))])),
                    None => None,
                },
            ),
            AgentMarketError::Lifecycle { code, message, agent_id, phase, retryable, action, details } => is_domain(
                r,
                code@,
                message@,
                retryable,
                fallback_details(
                    opt_view(details),
                    seq![("agentId"@, opt_view(agent_id)), ("phase"@, opt_view(phase)), ("action"@, opt_view(action))],
                ),
            ),
            AgentMarketError::Io(m) => r matches AppError::Io(x) && x@ == m@,
            AgentMarketError::Serialization(m) => r matches AppError::Storage(x) && x@ == m@,
        },
{
    match error {
        AgentMarketError::Database(m) => AppError::Db(m),
        AgentMarketError::Catalog(m) => AppError::Domain {
            code: String::from_str("invalid_catalog"),
            message: m,
            retryable: false,
            details: None,
        },
        AgentMarketError::CatalogValidation { message, agent_id, field: checked_field, details } => {
            let fields = vec![field("agentId", agent_id), field("field", checked_field)];
            proof {
                assert(field_views(fields@) =~= seq![("agentId"@, opt_view(agent_id)), ("field"@, opt_view(checked_field))]);
            }
            AppError::Domain {
                code: String::from_str("catalog_validation_failed"),
                message,
                retryable: false,
                details: details_or(details, fields),
            }
        },
        AgentMarketError::InstallationNotFound { agent_id } => {
            let mut message = String::from_str("Agent installation '");
            message.append(agent_id.as_str());
            message.append("' not found");
            let fields = vec![field("agentId", Some(agent_id))];
            proof {
                assert(field_views(fields@) =~= seq![("agentId"@, Some(agent_id@))]);
            }
            AppError::Domain {
                code: String::from_str("agent_not_installed"),
                message,
                retryable: false,
                details: Some(encode_text_fields(fields)),
            }
        },
        AgentMarketError::Distribution { code, message, agent_id, distribution_id, details } => {
            let retryable = str_eq(code.as_str(), "runtime_missing") || str_eq(
                code.as_str(),
                "system_version_incompatible",
            );
            let fields = vec![field("agentId", agent_id), field("distributionId", distribution_id)];
            proof {
                assert(field_views(fields@) =~= seq![("agentId"@, opt_view(agent_id)), ("distributionId"@, opt_view(distribution_id))]);
            }
            AppError::Domain { code, message, retryable, details: details_or(details, fields) }
        },
        AgentMarketError::Process(e) => e,
        AgentMarketError::Timeout { message, agent_id } => {
            let details = match agent_id {
                Some(id) => {
                    let fields = vec![field("agentId", Some(id))];
                    proof {
                        assert(field_views(fields@) =~= seq![("agentId"@, Some(id@))]);
                    }
                    Some(encode_text_fields(fields))
                },
                None => None,
            };
            AppError::Domain { code: String::from_str("timeout"), message, retryable: true, details }
        },
        AgentMarketError::Lifecycle { code, message, agent_id, phase, retryable, action, details } => {
            let fields = vec![field("agentId", agent_id), field("phase", phase), field("action", action)];
            proof {
                assert(field_views(fields@) =~= seq![("agentId"@, opt_view(agent_id)), ("phase"@, opt_view(phase)), ("action"@, opt_view(action))]);
            }
            AppError::Domain { code, message, retryable, details: details_or(details, fields) }
        },
        AgentMarketError::Io(m) => AppError::Io(m),
        AgentMarketError::Serialization(m) => AppError::Storage(m),
    }
}

} // verus!
