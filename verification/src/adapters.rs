//! Conversation adapters during sync: error mapping, record-kind selection
//! and which sources a sync of one record kind reads.

use vstd::prelude::*;
use crate::error::{AppError, AppResult, message_with};
use crate::models::{ConversationAdapter, ConversationRecordKind};
use crate::script_catalog::{list_contains, lists, str_eq};
use crate::text::{chars_of, ends_with, ends_with_vec, opt_view, string_of, trim, trim_vec};

verus! {

/// Storage errors of the conversation layer pass through unchanged.
pub fn conversation_storage_error(error: AppError) -> (r: AppError)
    ensures
        r == error,
{
    error
}

/// An outside failure of the conversation layer, with its message.
pub fn conversation_external_error(message: &str) -> (r: AppError)
    ensures
        r is External && r->External_0@ == message@,
{
    AppError::External(String::from_str(message))
}

/// ASCII lower case of a character.
pub open spec fn ascii_lower(c: char) -> char {
    if 'A' <= c && c <= 'Z' {
        ((c as u32) + 32) as char
    } else {
        c
    }
}

/// `str::to_ascii_lowercase`.
pub open spec fn ascii_lowercase(s: Seq<char>) -> Seq<char> {
    s.map_values(|c: char| ascii_lower(c))
}

pub fn to_ascii_lowercase(v: &[char]) -> (r: Vec<char>)
    ensures
        r@ == ascii_lowercase(v@),
{
    let mut r: Vec<char> = Vec::new();
    let mut i: usize = 0;
    while i < v.len()
        invariant
            i <= v@.len(),
            r@ == ascii_lowercase(v@.take(i as int)),
        decreases v.len() - i,
    {
        let c = v[i];
        let l = if 'A' <= c && c <= 'Z' {
            char_from_code((c as u32) + 32)
        } else {
            c
        };
        r.push(l);
        i = i + 1;
        assert(r@ =~= ascii_lowercase(v@.take(i as int)));
    }
    assert(v@.take(v@.len() as int) =~= v@);
    r
}

/// The character of an ASCII upper-case letter's lower-case code.
fn char_from_code(n: u32) -> (c: char)
    requires
        0x61 <= n <= 0x7a,
    ensures
        c == n as char,
{
    let mut c = 'a';
    let mut k: u32 = 0x61;
    while k < n
        invariant
            0x61 <= k <= n <= 0x7a,
            c == k as char,
        decreases n - k,
    {
        k = k + 1;
        c = next_lower(c, k);
    }
    c
}

fn next_lower(c: char, k: u32) -> (r: char)
    requires
        0x62 <= k <= 0x7a,
        c == (k - 1) as char,
    ensures
        r == k as char,
{
    match k {
        0x62 => 'b',
        0x63 => 'c',
        0x64 => 'd',
        0x65 => 'e',
        0x66 => 'f',
        0x67 => 'g',
        0x68 => 'h',
        0x69 => 'i',
        0x6a => 'j',
        0x6b => 'k',
        0x6c => 'l',
        0x6d => 'm',
        0x6e => 'n',
        0x6f => 'o',
        0x70 => 'p',
        0x71 => 'q',
        0x72 => 'r',
        0x73 => 's',
        0x74 => 't',
        0x75 => 'u',
        0x76 => 'v',
        0x77 => 'w',
        0x78 => 'x',
        0x79 => 'y',
        _ => 'z',
    }
}

/// The trimmed, ASCII-lower-cased text, or nothing when it is blank.
pub open spec fn clean_lower(s: Seq<char>) -> Option<Seq<char>> {
    if trim(s).len() == 0 {
        None
    } else {
        Some(ascii_lowercase(trim(s)))
    }
}

pub fn clean_non_empty_string(value: &str) -> (r: Option<String>)
    ensures
        opt_view(r) == clean_lower(value@),
{
    let t = trim_vec(&chars_of(value));
    if t.len() == 0 {
        None
    } else {
        Some(string_of(&to_ascii_lowercase(&t)))
    }
}

/// The record kind a sync request names, by its accepted spellings.
pub open spec fn sync_record_kind(name: Seq<char>) -> Option<ConversationRecordKind> {
    if name == "session"@ || name == "sessions"@ || name == "conversation"@ || name
        == "conversations"@ {
        Some(ConversationRecordKind::Session)
    } else if name == "web"@ || name == "web-record"@ || name == "web_record"@ || name
        == "web-records"@ || name == "web_records"@ {
        Some(ConversationRecordKind::Web)
    } else {
        None
    }
}

/// Reads the record kind of a sync request: none when absent or blank, an
/// error for an unknown kind.
pub fn normalize_sync_record_kind(record_kind: Option<&str>) -> (r: AppResult<
    Option<ConversationRecordKind>,
>)
    ensures
        (match record_kind {
            None => r == Ok::<Option<ConversationRecordKind>, AppError>(None),
            Some(k) => match clean_lower(k@) {
                None => r == Ok::<Option<ConversationRecordKind>, AppError>(None),
                Some(name) => match sync_record_kind(name) {
                    Some(kind) => r == Ok::<Option<ConversationRecordKind>, AppError>(Some(kind)),
                    None => r matches Err(e) && e is Validation && e->Validation_0@
                        == "unsupported conversation record kind: "@ + name,
                },
            },
        }),
{
    let name = match record_kind {
        Some(k) => match clean_non_empty_string(k) {
            Some(n) => n,
            None => {
                return Ok(None);
            },
        },
        None => {
            return Ok(None);
        },
    };
    let n = name.as_str();
    if str_eq(n, "session") || str_eq(n, "sessions") || str_eq(n, "conversation") || str_eq(
        n,
        "conversations",
    ) {
        Ok(Some(ConversationRecordKind::Session))
    } else if str_eq(n, "web") || str_eq(n, "web-record") || str_eq(n, "web_record") || str_eq(
        n,
        "web-records",
    ) || str_eq(n, "web_records") {
        Ok(Some(ConversationRecordKind::Web))
    } else {
        Err(AppError::Validation(message_with("unsupported conversation record kind: ", n)))
    }
}

/// An adapter reads web records when it declares `web_records` or its id
/// ends in `-web`.
pub open spec fn web_record_adapter(adapter: Option<&ConversationAdapter>, adapter_id: Seq<char>) -> bool {
    (adapter is Some && lists(adapter->0.capabilities@, "web_records"@)) || ends_with(
        adapter_id,
        "-web"@,
    )
}

pub fn is_web_record_adapter(adapter: Option<&ConversationAdapter>, adapter_id: &str) -> (r: bool)
    ensures
        r == web_record_adapter(adapter, adapter_id@),
{
    let declared = match adapter {
        Some(a) => list_contains(&a.capabilities, "web_records"),
        None => false,
    };
    declared || ends_with_vec(&chars_of(adapter_id), &chars_of("-web"))
}

/// A sync of session records reads non-web sources, a sync of web records
/// reads web sources, and a sync without a kind reads every source.
pub fn sync_source_matches_record_kind(
    adapter: Option<&ConversationAdapter>,
    adapter_id: &str,
    record_kind: Option<ConversationRecordKind>,
) -> (r: bool)
    ensures
        r == (match record_kind {
            Some(ConversationRecordKind::Session) => !web_record_adapter(adapter, adapter_id@),
            Some(ConversationRecordKind::Web) => web_record_adapter(adapter, adapter_id@),
            None => true,
        }),
{
    match record_kind {
        Some(ConversationRecordKind::Session) => !is_web_record_adapter(adapter, adapter_id),
        Some(ConversationRecordKind::Web) => is_web_record_adapter(adapter, adapter_id),
        None => true,
    }
}

} // verus!
