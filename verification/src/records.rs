//! Conversation records: record kinds, locators, and export naming and
//! paths.

use vstd::prelude::*;
use crate::error::{AppError, AppResult, message_with};
use crate::models::ConversationRecordKind;
use crate::paths::{
    segment_comps, comp_text, components, comps_of, file_name, is_absolute, join, join_path, path_components,
    path_file_name, PathComp, PathComponent,
};
use crate::script_catalog::{str_eq, str_contains};
use crate::text::{
    has_char, lemma_join_starts, lemma_split_fold_pieces, lemma_split_join, split_on, push_char,     alphanumeric, append_chars, char_is_alphanumeric, chars_of, decimal, decimal_text, join_vec,
    join_with, opt_view, slice_chars, starts_with, starts_with_vec, string_of, trim, trim_str,
    trim_vec, views,
};

verus! {

/// Export formats.
#[derive(Debug, Clone, Copy, PartialEq, Eq, Structural)]
pub enum ConversationExportFormat {
    Rendered,
    Raw,
}

/// A session as the export reads it.
pub struct ConversationSession {
    pub id: String,
    pub title: String,
    pub adapter_id: String,
    pub source_id: String,
    pub project_path: Option<String>,
}

/// A question of a session.
pub struct ConversationQuestion {
    pub id: String,
    pub session_id: String,
    pub title: Option<String>,
}

/// A turn of a question.
pub struct ConversationTurn {
    pub user_text: String,
}

/// How a content card is rendered.
#[derive(Debug, Clone, Copy, PartialEq, Eq, Structural)]
pub enum ConversationCardRenderer {
    Markdown,
    Code,
    Json,
    Command,
    Plain,
    Path,
    TerminalOutput,
    Diff,
}

/// A projected content card of a question. `visible` is what the export's
/// content filter decided for the card's node type and semantic role.
pub struct ConversationContentNode {
    pub node_type: String,
    pub renderer: ConversationCardRenderer,
    pub content: String,
    pub language: Option<String>,
    pub visible: bool,
}

/// A question with its turns and content cards.
pub struct ConversationQuestionDetail {
    pub question: ConversationQuestion,
    pub turns: Vec<ConversationTurn>,
    pub projected_content_nodes: Vec<ConversationContentNode>,
}

/// A session with its questions.
pub struct ConversationSessionDetail {
    pub session: ConversationSession,
    pub questions: Vec<ConversationQuestionDetail>,
}

/// Label of an export format.
pub open spec fn format_label(format: ConversationExportFormat) -> Seq<char> {
    match format {
        ConversationExportFormat::Rendered => "rendered"@,
        ConversationExportFormat::Raw => "raw"@,
    }
}

pub fn export_format_label(format: ConversationExportFormat) -> (r: &'static str)
    ensures
        r@ == format_label(format),
{
    match format {
        ConversationExportFormat::Rendered => "rendered",
        ConversationExportFormat::Raw => "raw",
    }
}

/// The record kind a request names (`session` when absent or blank), with
/// its canonical label.
pub open spec fn record_kind_named(name: Seq<char>) -> Option<(Seq<char>, ConversationRecordKind)> {
    if name == "session"@ || name == "sessions"@ {
        Some(("session"@, ConversationRecordKind::Session))
    } else if name == "web"@ || name == "web-record"@ || name == "web_record"@ || name
        == "web-records"@ || name == "web_records"@ {
        Some(("web"@, ConversationRecordKind::Web))
    } else {
        None
    }
}

/// The accepted names of a record kind are exactly its documented aliases:
/// `session` and `sessions` name sessions; `web`, `web-record`,
/// `web_record`, `web-records` and `web_records` name web records. Every
/// accepted name normalizes to its kind's own label.
pub proof fn law_record_kind_aliases(name: Seq<char>)
    ensures
        record_kind_named(name) == Some(("session"@, ConversationRecordKind::Session)) <==> (name == "session"@
            || name == "sessions"@),
        record_kind_named(name) == Some(("web"@, ConversationRecordKind::Web)) <==> (name == "web"@ || name
            == "web-record"@ || name == "web_record"@ || name == "web-records"@ || name == "web_records"@),
{
    reveal_strlit("session");
    reveal_strlit("sessions");
    reveal_strlit("web");
    reveal_strlit("web-record");
    reveal_strlit("web_record");
    reveal_strlit("web-records");
    reveal_strlit("web_records");
    assert("session"@.len() == 7);
    assert("sessions"@.len() == 8);
    assert("web"@.len() == 3);
    assert("web-record"@.len() == 10);
    assert("web_record"@.len() == 10);
    assert("web-records"@.len() == 11);
    assert("web_records"@.len() == 11);
}

/// The trimmed record kind, `session` when absent or blank.
pub open spec fn requested_record_kind(record_kind: Option<Seq<char>>) -> Seq<char> {
    match record_kind {
        Some(k) => if trim(k).len() > 0 {
            trim(k)
        } else {
            "session"@
        },
        None => "session"@,
    }
}

pub fn normalize_conversation_record_kind(record_kind: Option<&str>) -> (r: AppResult<
    (String, ConversationRecordKind),
>)
    ensures
        ({
            let name = requested_record_kind(
                match record_kind {
                    Some(k) => Some(k@),
                    None => None,
                },
            );
            match record_kind_named(name) {
                Some((label, kind)) => r matches Ok((l, k)) && l@ == label && k == kind,
                None => r matches Err(e) && e is Validation && e->Validation_0@
                    == "unsupported conversation record kind: "@ + name,
            }
        }),
{
    let name = match record_kind {
        Some(k) => {
            let t = trim_str(k);
            if t.unicode_len() > 0 {
                t
            } else {
                String::from_str("session")
            }
        },
        None => String::from_str("session"),
    };
    let n = name.as_str();
    if str_eq(n, "session") || str_eq(n, "sessions") {
        Ok((String::from_str("session"), ConversationRecordKind::Session))
    } else if str_eq(n, "web") || str_eq(n, "web-record") || str_eq(n, "web_record") || str_eq(
        n,
        "web-records",
    ) || str_eq(n, "web_records") {
        Ok((String::from_str("web"), ConversationRecordKind::Web))
    } else {
        Err(AppError::Validation(message_with("unsupported conversation record kind: ", n)))
    }
}

/// The largest translation of a conversation part, in UTF-8 bytes.
pub const MAX_PART_TRANSLATION_BYTES: usize = 200000;

/// Checks a request to store the translation of a conversation part: the
/// part id must not be blank, the translation must fit in
/// `MAX_PART_TRANSLATION_BYTES` bytes, and the record kind must be one that
/// is known. Returns the record kind the part belongs to.
pub fn check_part_translation_update(part_id: &str, translated_text: &str, record_kind: Option<&str>) -> (r:
    AppResult<ConversationRecordKind>)
    ensures
        trim(part_id@).len() == 0 ==> (r matches Err(e) && e is Validation && e->Validation_0@
            == "conversation part id is required"@),
        trim(part_id@).len() > 0 && crate::memory_context::byte_len(translated_text@) > MAX_PART_TRANSLATION_BYTES
            ==> (r matches Err(e) && e is Validation && e->Validation_0@
            == "conversation part translation is too large"@),
        trim(part_id@).len() > 0 && crate::memory_context::byte_len(translated_text@) <= MAX_PART_TRANSLATION_BYTES
            ==> ({
            let name = requested_record_kind(
                match record_kind {
                    Some(k) => Some(k@),
                    None => None,
                },
            );
            match record_kind_named(name) {
                Some((_, kind)) => r == Ok::<ConversationRecordKind, AppError>(kind),
                None => r matches Err(e) && e is Validation && e->Validation_0@
                    == "unsupported conversation record kind: "@ + name,
            }
        }),
{
    let id = trim_str(part_id);
    if id.unicode_len() == 0 {
        return Err(AppError::Validation(String::from_str("conversation part id is required")));
    }
    if translated_text.as_bytes().len() > MAX_PART_TRANSLATION_BYTES {
        return Err(AppError::Validation(String::from_str("conversation part translation is too large")));
    }
    match normalize_conversation_record_kind(record_kind) {
        Ok((_, kind)) => Ok(kind),
        Err(e) => Err(e),
    }
}

/// The record kind a full record locator belongs to.
pub open spec fn locator_kind(locator: Seq<char>) -> Option<ConversationRecordKind> {
    let l = trim(locator);
    if starts_with(l, "web-record-question-"@) || starts_with(l, "web-record-turn-"@) || starts_with(
        l,
        "web-record-part-"@,
    ) {
        Some(ConversationRecordKind::Web)
    } else if starts_with(l, "conversation-question-"@) || starts_with(l, "conversation-turn-"@)
        || starts_with(l, "conversation-part-"@) {
        Some(ConversationRecordKind::Session)
    } else {
        None
    }
}

pub fn conversation_record_kind_from_locator(locator: &str) -> (r: AppResult<ConversationRecordKind>)
    ensures
        match locator_kind(locator@) {
            Some(k) => r == Ok::<ConversationRecordKind, AppError>(k),
            None => r matches Err(e) && e is Validation && e->Validation_0@
                == "conversation locator must use a full conversation-* or web-record-* identifier: "@
                + trim(locator@),
        },
{
    let l = trim_vec(&chars_of(locator));
    if starts_with_vec(&l, &chars_of("web-record-question-")) || starts_with_vec(
        &l,
        &chars_of("web-record-turn-"),
    ) || starts_with_vec(&l, &chars_of("web-record-part-")) {
        return Ok(ConversationRecordKind::Web);
    }
    if starts_with_vec(&l, &chars_of("conversation-question-")) || starts_with_vec(
        &l,
        &chars_of("conversation-turn-"),
    ) || starts_with_vec(&l, &chars_of("conversation-part-")) {
        return Ok(ConversationRecordKind::Session);
    }
    let t = string_of(&l);
    Err(AppError::Validation(message_with(
        "conversation locator must use a full conversation-* or web-record-* identifier: ",
        t.as_str(),
    )))
}

/// An ASCII letter or digit.
pub open spec fn ascii_alphanumeric(c: char) -> bool {
    ('a' <= c && c <= 'z') || ('A' <= c && c <= 'Z') || ('0' <= c && c <= '9')
}

/// A character kept by `sanitize_path_segment`: a letter or digit (for
/// ASCII, exactly `[A-Za-z0-9]`), `_` or `.`.
pub open spec fn segment_char(c: char) -> bool {
    if (c as u32) < 0x80 {
        ascii_alphanumeric(c) || c == '_' || c == '.'
    } else {
        alphanumeric(c)
    }
}

/// Sanitizing scan from index `i`: kept characters are copied, a run of
/// other characters becomes one `-` (none at the start), and the scan stops
/// once 96 characters are written.
pub open spec fn sanitize_scan(s: Seq<char>, i: int, seg: Seq<char>, last_sep: bool) -> Seq<char>
    decreases s.len() - i,
{
    if i < 0 || i >= s.len() {
        seg
    } else {
        let c = s[i];
        let (seg2, last2) = if segment_char(c) {
            (seg.push(c), false)
        } else if !last_sep && seg.len() > 0 {
            (seg.push('-'), true)
        } else {
            (seg, last_sep)
        };
        if seg2.len() >= 96 {
            seg2
        } else {
            sanitize_scan(s, i + 1, seg2, last2)
        }
    }
}

/// `-` or `.`, which are trimmed from both ends of a segment.
pub open spec fn dash_or_dot(c: char) -> bool {
    c == '-' || c == '.'
}

/// Index of the first character at or after `i` that is not `-` or `.`.
pub open spec fn lead_dash_dot(s: Seq<char>, i: int) -> int
    decreases s.len() - i,
{
    if 0 <= i < s.len() && dash_or_dot(s[i]) {
        lead_dash_dot(s, i + 1)
    } else {
        i
    }
}

/// End of the text once trailing `-` and `.` down to `lo` are removed.
pub open spec fn trail_dash_dot(s: Seq<char>, lo: int, j: int) -> int
    decreases j - lo,
{
    if lo < j && j <= s.len() && dash_or_dot(s[j - 1]) {
        trail_dash_dot(s, lo, j - 1)
    } else {
        j
    }
}

/// The segment without leading and trailing `-` and `.`.
pub open spec fn trim_dash_dot(s: Seq<char>) -> Seq<char> {
    let a = lead_dash_dot(s, 0);
    s.subrange(a, trail_dash_dot(s, a, s.len() as int))
}

pub proof fn lemma_lead_dash_dot(s: Seq<char>, i: int)
    requires
        0 <= i <= s.len(),
    ensures
        i <= lead_dash_dot(s, i) <= s.len(),
    decreases s.len() - i,
{
    if i < s.len() && dash_or_dot(s[i]) {
        lemma_lead_dash_dot(s, i + 1);
    }
}

pub proof fn lemma_trail_dash_dot(s: Seq<char>, lo: int, j: int)
    requires
        0 <= lo <= j <= s.len(),
    ensures
        lo <= trail_dash_dot(s, lo, j) <= j,
    decreases j - lo,
{
    if lo < j && dash_or_dot(s[j - 1]) {
        lemma_trail_dash_dot(s, lo, j - 1);
    }
}

/// `sanitize_path_segment`: a file-system-safe segment of at most 96
/// characters, `untitled` when nothing is left.
pub open spec fn sanitized(value: Seq<char>) -> Seq<char> {
    let t = trim_dash_dot(sanitize_scan(trim(value), 0, Seq::empty(), false));
    if t.len() == 0 {
        "untitled"@
    } else {
        t
    }
}

pub fn sanitize_path_segment(value: &str) -> (r: String)
    ensures
        r@ == sanitized(value@),
{
    let t = trim_vec(&chars_of(value));
    let mut seg: Vec<char> = Vec::new();
    let mut last_sep = false;
    let mut i: usize = 0;
    while i < t.len()
        invariant_except_break
            seg@.len() < 96,
            sanitize_scan(t@, i as int, seg@, last_sep) == sanitize_scan(t@, 0, Seq::empty(), false),
        invariant
            i <= t@.len(),
            t@ == trim(value@),
        ensures
            seg@ == sanitize_scan(t@, 0, Seq::empty(), false),
        decreases t.len() - i,
    {
        let c = t[i];
        if char_is_alphanumeric(c) || c == '_' || c == '.' {
            seg.push(c);
            last_sep = false;
        } else if !last_sep && seg.len() > 0 {
            seg.push('-');
            last_sep = true;
        }
        if seg.len() >= 96 {
            break;
        }
        i = i + 1;
    }
    proof {
        lemma_lead_dash_dot(seg@, 0);
    }
    let mut a: usize = 0;
    while a < seg.len() && (seg[a] == '-' || seg[a] == '.')
        invariant
            a <= seg@.len(),
            lead_dash_dot(seg@, a as int) == lead_dash_dot(seg@, 0),
        decreases seg.len() - a,
    {
        a = a + 1;
    }
    proof {
        lemma_trail_dash_dot(seg@, a as int, seg@.len() as int);
    }
    let mut b: usize = seg.len();
    while b > a && (seg[b - 1] == '-' || seg[b - 1] == '.')
        invariant
            a <= b <= seg@.len(),
            a == lead_dash_dot(seg@, 0),
            trail_dash_dot(seg@, a as int, b as int) == trail_dash_dot(seg@, a as int, seg@.len() as int),
        decreases b - a,
    {
        b = b - 1;
    }
    if a == b {
        String::from_str("untitled")
    } else {
        string_of(&slice_chars(&seg, a, b))
    }
}


/// Start of the text after the last `.` at or before `j`.
pub open spec fn after_last_dot(s: Seq<char>, j: int) -> int
    decreases j,
{
    if 0 < j <= s.len() && s[j - 1] != '.' {
        after_last_dot(s, j - 1)
    } else {
        j
    }
}

pub proof fn lemma_after_last_dot(s: Seq<char>, j: int)
    requires
        0 <= j <= s.len(),
    ensures
        0 <= after_last_dot(s, j) <= j,
    decreases j,
{
    if 0 < j && s[j - 1] != '.' {
        lemma_after_last_dot(s, j - 1);
    }
}

/// `-` and `_` read as spaces.
pub open spec fn spaced(c: char) -> char {
    if c == '-' || c == '_' {
        ' '
    } else {
        c
    }
}

/// A card kind as a reader sees it: its last `.`-separated piece, with `-`
/// and `_` shown as spaces.
pub open spec fn humanized(kind: Seq<char>) -> Seq<char> {
    kind.subrange(after_last_dot(kind, kind.len() as int), kind.len() as int).map_values(
        |c: char| spaced(c),
    )
}

pub fn humanize_card_kind(kind: &str) -> (r: String)
    ensures
        r@ == humanized(kind@),
{
    let v = chars_of(kind);
    proof {
        lemma_after_last_dot(v@, v@.len() as int);
    }
    let mut start: usize = v.len();
    while start > 0 && v[start - 1] != '.'
        invariant
            start <= v@.len(),
            after_last_dot(v@, start as int) == after_last_dot(v@, v@.len() as int),
        decreases start,
    {
        start = start - 1;
    }
    let ghost seg = v@.subrange(start as int, v@.len() as int);
    let mut out = String::new();
    let mut i: usize = start;
    while i < v.len()
        invariant
            start <= i <= v@.len(),
            seg == v@.subrange(start as int, v@.len() as int),
            out@ == seg.take(i - start).map_values(|c: char| spaced(c)),
        decreases v.len() - i,
    {
        let c = v[i];
        let d = if c == '-' || c == '_' {
            ' '
        } else {
            c
        };
        push_char(&mut out, d);
        proof {
            assert(seg.take(i + 1 - start) =~= seg.take(i - start).push(c));
            assert(seg.take(i + 1 - start).map_values(|c: char| spaced(c)) =~= seg.take(
                i - start,
            ).map_values(|c: char| spaced(c)).push(spaced(c)));
        }
        i = i + 1;
    }
    assert(seg.take(v@.len() - start) =~= seg);
    out
}

/// The first turn text that is not blank, trimmed.
pub open spec fn first_spoken(texts: Seq<Seq<char>>) -> Option<Seq<char>>
    decreases texts.len(),
{
    if texts.len() == 0 {
        None
    } else if trim(texts[0]).len() > 0 {
        Some(trim(texts[0]))
    } else {
        first_spoken(texts.drop_first())
    }
}

/// At most the first 96 characters.
pub open spec fn clip96(t: Seq<char>) -> Seq<char> {
    if t.len() <= 96 {
        t
    } else {
        t.take(96)
    }
}

/// Title of a question in an export: its own title when not blank, else the
/// start of the first turn that says something, else `Question`.
pub open spec fn question_title(title: Option<Seq<char>>, texts: Seq<Seq<char>>) -> Seq<char> {
    match title {
        Some(t) if trim(t).len() > 0 => t,
        _ => match first_spoken(texts) {
            Some(t) => clip96(t),
            None => "Question"@,
        },
    }
}

/// The user texts of a question's turns.
pub open spec fn turn_texts(turns: Seq<ConversationTurn>) -> Seq<Seq<char>> {
    turns.map_values(|t: ConversationTurn| t.user_text@)
}

pub fn export_question_title(question: &ConversationQuestionDetail) -> (r: String)
    ensures
        r@ == question_title(opt_view(question.question.title), turn_texts(question.turns@)),
{
    if let Some(t) = &question.question.title {
        if trim_vec(&chars_of(t.as_str())).len() > 0 {
            return t.clone();
        }
    }
    let ghost texts = turn_texts(question.turns@);
    assert(texts.skip(0) =~= texts);
    let mut i: usize = 0;
    while i < question.turns.len()
        invariant
            i <= question.turns@.len(),
            texts == turn_texts(question.turns@),
            first_spoken(texts) == first_spoken(texts.skip(i as int)),
            question_title(opt_view(question.question.title), texts) == match first_spoken(texts) {
                Some(t) => clip96(t),
                None => "Question"@,
            },
        decreases question.turns.len() - i,
    {
        let t = trim_vec(&chars_of(question.turns[i].user_text.as_str()));
        proof {
            assert(texts.skip(i as int)[0] == texts[i as int]);
            assert(texts.skip(i as int).drop_first() =~= texts.skip(i + 1));
        }
        assert(t@ == trim(texts[i as int]));
        if t.len() > 0 {
            assert(first_spoken(texts) == Some(t@));
            if t.len() <= 96 {
                return string_of(&t);
            } else {
                let c = slice_chars(&t, 0, 96);
                assert(c@ =~= t@.take(96));
                return string_of(&c);
            }
        }
        i = i + 1;
    }
    assert(texts.skip(i as int).len() == 0);
    String::from_str("Question")
}

/// Ids of the questions of a session.
pub open spec fn question_ids_of(questions: Seq<ConversationQuestionDetail>) -> Seq<Seq<char>> {
    questions.map_values(|q: ConversationQuestionDetail| q.question.id@)
}

/// Index of the first requested id that the session does not hold.
pub open spec fn first_missing(ids: Seq<Seq<char>>, available: Seq<Seq<char>>, i: int) -> Option<int>
    decreases ids.len() - i,
{
    if i < 0 || i >= ids.len() {
        None
    } else if !available.contains(ids[i]) {
        Some(i)
    } else {
        first_missing(ids, available, i + 1)
    }
}

pub proof fn lemma_first_missing(ids: Seq<Seq<char>>, available: Seq<Seq<char>>, i: int)
    requires
        0 <= i,
    ensures
        match first_missing(ids, available, i) {
            Some(k) => i <= k < ids.len() && !available.contains(ids[k]) && forall|j: int|
                i <= j < k ==> available.contains(#[trigger] ids[j]),
            None => forall|j: int| i <= j < ids.len() ==> available.contains(#[trigger] ids[j]),
        },
    decreases ids.len() - i,
{
    if i < ids.len() && available.contains(ids[i]) {
        lemma_first_missing(ids, available, i + 1);
    }
}

/// Whether `id` is the id of one of the questions, from index `i` on.
fn holds_question(questions: &Vec<ConversationQuestionDetail>, id: &String) -> (r: bool)
    ensures
        r == question_ids_of(questions@).contains(id@),
{
    let ghost avail = question_ids_of(questions@);
    let mut i: usize = 0;
    while i < questions.len()
        invariant
            i <= questions@.len(),
            avail == question_ids_of(questions@),
            forall|j: int| 0 <= j < i ==> avail[j] != id@,
        decreases questions.len() - i,
    {
        if str_eq(questions[i].question.id.as_str(), id.as_str()) {
            assert(avail[i as int] == id@);
            return true;
        }
        i = i + 1;
    }
    proof {
        if avail.contains(id@) {
            let k = choose|k: int| 0 <= k < avail.len() && avail[k] == id@;
            assert(avail[k] != id@);
        }
    }
    false
}

/// Every requested question must belong to the session; the first one that
/// does not is reported.
pub fn validate_export_question_ids(detail: &ConversationSessionDetail, question_ids: &[String]) -> (r: AppResult<()>)
    ensures
        match first_missing(views_of(question_ids@), question_ids_of(detail.questions@), 0) {
            None => r is Ok,
            Some(k) => r matches Err(e) && e is NotFound && e->NotFound_0@
                == "conversation question not found in session: "@ + question_ids@[k]@,
        },
{
    let ghost ids = views_of(question_ids@);
    let ghost avail = question_ids_of(detail.questions@);
    let mut i: usize = 0;
    while i < question_ids.len()
        invariant
            i <= question_ids@.len(),
            ids == views_of(question_ids@),
            avail == question_ids_of(detail.questions@),
            first_missing(ids, avail, 0) == first_missing(ids, avail, i as int),
        decreases question_ids.len() - i,
    {
        if !holds_question(&detail.questions, &question_ids[i]) {
            return Err(AppError::NotFound(message_with(
                "conversation question not found in session: ",
                question_ids[i].as_str(),
            )));
        }
        i = i + 1;
    }
    Ok(())
}

/// Views of a sequence of texts.
pub open spec fn views_of(v: Seq<String>) -> Seq<Seq<char>> {
    v.map_values(|x: String| x@)
}

/// Texts of the normal components, in order.
pub open spec fn normal_texts(c: Seq<PathComp>) -> Seq<Seq<char>>
    decreases c.len(),
{
    if c.len() == 0 {
        Seq::empty()
    } else {
        let prev = normal_texts(c.drop_last());
        match c.last() {
            PathComp::Normal(n) => prev.push(n),
            _ => prev,
        }
    }
}

/// The normal components of a path joined with `/`.
pub open spec fn relative_text(path: Seq<char>) -> Seq<char> {
    join_with(normal_texts(components(path)), "/"@)
}

/// Normal component texts of `c[0..n]`.
fn normal_texts_vec(c: &Vec<PathComponent>) -> (r: Vec<Vec<char>>)
    ensures
        views(r@) == normal_texts(comps_of(c@)),
{
    let mut r: Vec<Vec<char>> = Vec::new();
    let mut i: usize = 0;
    while i < c.len()
        invariant
            i <= c@.len(),
            views(r@) == normal_texts(comps_of(c@).take(i as int)),
        decreases c.len() - i,
    {
        proof {
            let t = comps_of(c@).take(i + 1);
            assert(t.drop_last() =~= comps_of(c@).take(i as int));
            assert(t.last() == c@[i as int].comp());
        }
        if let PathComponent::Normal(n) = &c[i] {
            let copy = slice_chars(n, 0, n.len());
            assert(copy@ =~= n@);
            assert(views(r@.push(copy)) =~= views(r@).push(copy@));
            r.push(copy);
        }
        i = i + 1;
    }
    assert(comps_of(c@).take(c@.len() as int) =~= comps_of(c@));
    r
}

pub fn relative_path_text(path: &str) -> (r: String)
    ensures
        r@ == relative_text(path@),
{
    let c = path_components(&chars_of(path));
    let texts = normal_texts_vec(&c);
    string_of(&join_vec(&texts, &chars_of("/")))
}

/// Every component of the path is a normal name.
pub open spec fn all_normal(c: Seq<PathComp>) -> bool {
    forall|i: int| 0 <= i < c.len() ==> c[i] is Normal
}

pub proof fn lemma_normal_texts_all(c: Seq<PathComp>)
    requires
        all_normal(c),
    ensures
        normal_texts(c) == c.map_values(|x: PathComp| comp_text(x)),
    decreases c.len(),
{
    if c.len() > 0 {
        lemma_normal_texts_all(c.drop_last());
        assert(c.map_values(|x: PathComp| comp_text(x)) =~= c.drop_last().map_values(
            |x: PathComp| comp_text(x),
        ).push(comp_text(c.last())));
    }
}

/// The relative path an export may be written to, or why it is refused.
pub open spec fn export_relative_path(value: Seq<char>) -> Result<Seq<char>, Seq<char>> {
    let t = trim(value);
    if t.len() == 0 {
        Err("markdown_export relative_path is required"@)
    } else if is_absolute(t) {
        Err("markdown_export relative_path must be relative"@)
    } else if !all_normal(components(t)) {
        Err("markdown_export relative_path cannot contain root, prefix, '.', or '..'"@)
    } else if normal_texts(components(t)).len() == 0 {
        Err("markdown_export relative_path is required"@)
    } else {
        Ok(join_with(normal_texts(components(t)), "/"@))
    }
}

pub fn validate_export_relative_path(value: &str) -> (r: AppResult<String>)
    ensures
        match export_relative_path(value@) {
            Ok(p) => r matches Ok(q) && q@ == p,
            Err(m) => r matches Err(e) && e is Validation && e->Validation_0@ == m,
        },
{
    let t = trim_vec(&chars_of(value));
    if t.len() == 0 {
        return Err(AppError::Validation(String::from_str("markdown_export relative_path is required")));
    }
    if t[0] == '/' {
        return Err(AppError::Validation(String::from_str("markdown_export relative_path must be relative")));
    }
    let c = path_components(&t);
    let mut i: usize = 0;
    while i < c.len()
        invariant
            i <= c@.len(),
            comps_of(c@) == components(t@),
            t@ == trim(value@),
            t@.len() > 0,
            !is_absolute(t@),
            forall|j: int| 0 <= j < i ==> (#[trigger] comps_of(c@)[j]) is Normal,
        decreases c.len() - i,
    {
        match &c[i] {
            PathComponent::Normal(_) => {},
            _ => {
                assert(!(comps_of(c@)[i as int] is Normal));
                assert(!all_normal(components(t@)));
                return Err(AppError::Validation(String::from_str(
                    "markdown_export relative_path cannot contain root, prefix, '.', or '..'",
                )));
            },
        }
        i = i + 1;
    }
    let texts = normal_texts_vec(&c);
    if texts.len() == 0 {
        return Err(AppError::Validation(String::from_str("markdown_export relative_path is required")));
    }
    Ok(string_of(&join_vec(&texts, &chars_of("/"))))
}


/// The last `n` characters (all of them when there are fewer).
pub open spec fn last_chars(s: Seq<char>, n: nat) -> Seq<char> {
    if s.len() <= n {
        s
    } else {
        s.subrange(s.len() - n, s.len() as int)
    }
}

/// The project folder an export goes to: the file name of the session's
/// project path, else the fallback.
pub open spec fn project_segment(project_path: Option<Seq<char>>, fallback: Seq<char>) -> Seq<char> {
    match project_path {
        Some(p) => match file_name(p) {
            Some(n) => n,
            None => fallback,
        },
        None => fallback,
    }
}

/// File extension of an export format.
pub open spec fn format_extension(format: ConversationExportFormat) -> Seq<char> {
    match format {
        ConversationExportFormat::Rendered => "md"@,
        ConversationExportFormat::Raw => "json"@,
    }
}

/// Default relative path of an export:
/// `<adapter>/<project>/<title>[-selected-<count>]-<last 8 of id>.<ext>`,
/// each folder name sanitized.
pub open spec fn default_export_path(
    session: ConversationSession,
    count: nat,
    fallback: Seq<char>,
    format: ConversationExportFormat,
) -> Seq<char> {
    let stem = if count == 0 {
        sanitized(session.title@)
    } else {
        sanitized(session.title@) + "-selected-"@ + decimal(count)
    };
    let name = stem + "-"@ + last_chars(session.id@, 8) + "."@ + format_extension(format);
    join(
        join(
            sanitized(session.adapter_id@),
            sanitized(project_segment(opt_view(session.project_path), fallback)),
        ),
        name,
    )
}

pub fn default_export_relative_path(
    detail: &ConversationSessionDetail,
    question_ids: &[String],
    fallback_project_segment: &str,
    format: ConversationExportFormat,
) -> (r: String)
    ensures
        r@ == default_export_path(
            detail.session,
            question_ids@.len(),
            fallback_project_segment@,
            format,
        ),
{
    let session = &detail.session;
    let mut project = chars_of(fallback_project_segment);
    if let Some(p) = &session.project_path {
        if let Some(n) = path_file_name(&chars_of(p.as_str())) {
            project = n;
        }
    }
    let id = chars_of(session.id.as_str());
    let short_id = if id.len() <= 8 {
        id
    } else {
        slice_chars(&id, id.len() - 8, id.len())
    };
    let title = chars_of(sanitize_path_segment(session.title.as_str()).as_str());
    let count = question_ids.len();
    let mut name = title;
    if count != 0 {
        append_chars(&mut name, &chars_of("-selected-"));
        append_chars(&mut name, &decimal_text(count as u64));
    }
    append_chars(&mut name, &chars_of("-"));
    append_chars(&mut name, &short_id);
    append_chars(&mut name, &chars_of("."));
    let ext = match format {
        ConversationExportFormat::Rendered => chars_of("md"),
        ConversationExportFormat::Raw => chars_of("json"),
    };
    append_chars(&mut name, &ext);
    let adapter = chars_of(sanitize_path_segment(session.adapter_id.as_str()).as_str());
    let project_text = string_of(&project);
    let folder = chars_of(sanitize_path_segment(project_text.as_str()).as_str());
    let base = join_path(&adapter, &folder);
    string_of(&join_path(&base, &name))
}


proof fn lemma_sanitize_scan_bound(s: Seq<char>, i: int, seg: Seq<char>, last_sep: bool)
    requires
        seg.len() < 96,
    ensures
        sanitize_scan(s, i, seg, last_sep).len() <= 96,
    decreases s.len() - i,
{
    if 0 <= i < s.len() {
        let c = s[i];
        let (seg2, last2) = if segment_char(c) {
            (seg.push(c), false)
        } else if !last_sep && seg.len() > 0 {
            (seg.push('-'), true)
        } else {
            (seg, last_sep)
        };
        if seg2.len() < 96 {
            lemma_sanitize_scan_bound(s, i + 1, seg2, last2);
        }
    }
}

proof fn lemma_lead_dash_dot_stop(s: Seq<char>, i: int)
    requires
        0 <= i <= s.len(),
    ensures
        lead_dash_dot(s, i) < s.len() ==> !dash_or_dot(s[lead_dash_dot(s, i)]),
    decreases s.len() - i,
{
    if i < s.len() && dash_or_dot(s[i]) {
        lemma_lead_dash_dot_stop(s, i + 1);
    }
}

proof fn lemma_trail_dash_dot_stop(s: Seq<char>, lo: int, j: int)
    requires
        0 <= lo <= j <= s.len(),
    ensures
        lo < trail_dash_dot(s, lo, j) ==> !dash_or_dot(s[trail_dash_dot(s, lo, j) - 1]),
    decreases j - lo,
{
    if lo < j && dash_or_dot(s[j - 1]) {
        lemma_trail_dash_dot_stop(s, lo, j - 1);
    }
}

proof fn lemma_sanitize_scan_chars(s: Seq<char>, i: int, seg: Seq<char>, last_sep: bool)
    requires
        forall|k: int| 0 <= k < seg.len() ==> segment_char(#[trigger] seg[k]) || seg[k] == '-',
    ensures
        forall|k: int|
            0 <= k < sanitize_scan(s, i, seg, last_sep).len() ==> segment_char(
                #[trigger] sanitize_scan(s, i, seg, last_sep)[k],
            ) || sanitize_scan(s, i, seg, last_sep)[k] == '-',
    decreases s.len() - i,
{
    if 0 <= i < s.len() {
        let c = s[i];
        let (seg2, last2) = if segment_char(c) {
            (seg.push(c), false)
        } else if !last_sep && seg.len() > 0 {
            (seg.push('-'), true)
        } else {
            (seg, last_sep)
        };
        assert forall|k: int| 0 <= k < seg2.len() implies segment_char(#[trigger] seg2[k]) || seg2[k] == '-' by {
            if k < seg.len() {
                assert(seg2[k] == seg[k]);
            }
        }
        if seg2.len() < 96 {
            assert(sanitize_scan(s, i, seg, last_sep) == sanitize_scan(s, i + 1, seg2, last2));
            lemma_sanitize_scan_chars(s, i + 1, seg2, last2);
        } else {
            assert(sanitize_scan(s, i, seg, last_sep) == seg2);
        }
    } else {
        assert(sanitize_scan(s, i, seg, last_sep) == seg);
    }
}

/// A sanitized path segment is never empty, never `.` or `..`, holds at
/// most 96 characters, neither starts nor ends with `-` or `.`, and holds
/// only letters, digits, `_`, `.` and `-` (so no `/` or `\`).
pub proof fn law_sanitized_segment_is_single_name(value: Seq<char>)
    ensures
        0 < sanitized(value).len() <= 96,
        !dash_or_dot(sanitized(value)[0]),
        !dash_or_dot(sanitized(value).last()),
        sanitized(value) != "."@,
        sanitized(value) != ".."@,
        forall|k: int|
            0 <= k < sanitized(value).len() ==> segment_char(#[trigger] sanitized(value)[k])
                || sanitized(value)[k] == '-',
{
    let scan = sanitize_scan(trim(value), 0, Seq::empty(), false);
    lemma_sanitize_scan_bound(trim(value), 0, Seq::empty(), false);
    lemma_lead_dash_dot(scan, 0);
    lemma_lead_dash_dot_stop(scan, 0);
    let a = lead_dash_dot(scan, 0);
    lemma_trail_dash_dot(scan, a, scan.len() as int);
    lemma_trail_dash_dot_stop(scan, a, scan.len() as int);
    let t = trim_dash_dot(scan);
    lemma_sanitize_scan_chars(trim(value), 0, Seq::empty(), false);
    if t.len() == 0 {
        assert(sanitized(value) == "untitled"@);
        assert("untitled"@ =~= seq!['u', 'n', 't', 'i', 't', 'l', 'e', 'd']) by {
            reveal_strlit("untitled");
        }
    } else {
        assert forall|k: int| 0 <= k < t.len() implies segment_char(#[trigger] t[k]) || t[k] == '-' by {
            assert(t[k] == scan[a + k]);
        }
        assert(t[0] == scan[a]);
        assert(t.last() == scan[trail_dash_dot(scan, a, scan.len() as int) - 1]);
    }
    assert("."@.len() == 1 && "."@[0] == '.') by {
        reveal_strlit(".");
    }
    assert(".."@.len() == 2 && ".."@[0] == '.') by {
        reveal_strlit("..");
    }
}


proof fn lemma_segment_comps_normal(segs: Seq<Seq<char>>, n: int, root: bool)
    requires
        0 <= n <= segs.len(),
    ensures
        forall|k: int|
            0 <= k < segment_comps(segs, n, root).len() ==> (#[trigger] segment_comps(segs, n, root)[k]
                matches PathComp::Normal(g) ==> g.len() > 0 && g != "."@ && g != ".."@ && segs.contains(g)),
    decreases n,
{
    if n > 0 {
        lemma_segment_comps_normal(segs, n - 1, root);
        let prev = segment_comps(segs, n - 1, root);
        let cur = segment_comps(segs, n, root);
        assert forall|k: int| 0 <= k < cur.len() implies (#[trigger] cur[k] matches PathComp::Normal(g)
            ==> g.len() > 0 && g != "."@ && g != ".."@ && segs.contains(g)) by {
            if k < prev.len() {
                assert(cur[k] == prev[k]);
            } else {
                let g = segs[n - 1];
                assert(segs.contains(g));
            }
        }
    }
}

/// An accepted export path is relative and splits at `/` into plain names:
/// none empty, `.` or `..`.
pub proof fn law_export_path_stays_inside(value: Seq<char>)
    ensures
        export_relative_path(value) matches Ok(r) ==> {
            &&& r.len() > 0
            &&& r[0] != '/'
            &&& forall|k: int|
                0 <= k < split_on(r, '/').len() ==> {
                    let piece = #[trigger] split_on(r, '/')[k];
                    &&& piece.len() > 0
                    &&& piece != "."@
                    &&& piece != ".."@
                    &&& !has_char(piece, '/')
                }
        },
{
    let t = trim(value);
    if let Ok(r) = export_relative_path(value) {
        let c = components(t);
        let segs = split_on(t, '/');
        assert(!is_absolute(t));
        assert(c == segment_comps(segs, segs.len() as int, false));
        lemma_segment_comps_normal(segs, segs.len() as int, false);
        lemma_split_fold_pieces(t, '/', 0, Seq::empty(), Seq::empty());
        lemma_normal_texts_all(c);
        let texts = normal_texts(c);
        assert forall|i: int| 0 <= i < texts.len() implies {
            let g = #[trigger] texts[i];
            &&& g.len() > 0
            &&& g != "."@
            &&& g != ".."@
            &&& !has_char(g, '/')
        } by {
            assert(texts[i] == comp_text(c[i]));
            assert(c[i] is Normal);
            let g = c[i]->Normal_0;
            assert(segs.contains(g));
            let j = choose|j: int| 0 <= j < segs.len() && segs[j] == g;
        }
        assert("/"@ =~= seq!['/']) by {
            reveal_strlit("/");
        }
        lemma_split_join(texts, '/');
        lemma_join_starts(texts, "/"@);
        assert(r[0] == texts[0][0]);
        assert(texts[0][0] != '/');
        assert forall|k: int| 0 <= k < split_on(r, '/').len() implies {
            let piece = #[trigger] split_on(r, '/')[k];
            &&& piece.len() > 0
            &&& piece != "."@
            &&& piece != ".."@
            &&& !has_char(piece, '/')
        } by {
            assert(split_on(r, '/')[k] == texts[k]);
        }
    }
}


/// The label a record kind is normalized to names the same kind again.
pub proof fn law_record_kind_label_is_canonical(name: Seq<char>)
    ensures
        record_kind_named(name) matches Some((label, kind)) ==> record_kind_named(label) == Some(
            (label, kind),
        ),
{
    reveal_strlit("web");
    reveal_strlit("session");
    reveal_strlit("sessions");
    assert("web"@.len() == 3);
    assert("session"@.len() == 7);
    assert("sessions"@.len() == 8);
}

} // verus!
