//! Planning a conversation sync: which sources take part, how they are
//! grouped per adapter, and how the run is summed up.

use vstd::prelude::*;
use crate::error::{AppError, AppResult};
use crate::models::ConversationSource;
use crate::order::{ascending, sorted_distinct_texts, text_views};
use crate::script_catalog::str_eq;
use crate::text::{append_chars, chars_of, decimal, decimal_text, string_of};

verus! {

/// A source takes part when it is enabled and matches the requested source
/// and adapter, if any.
pub open spec fn sync_selected(s: ConversationSource, source_id: Option<Seq<char>>, adapter_id: Option<Seq<char>>) -> bool {
    &&& s.enabled
    &&& match source_id {
        Some(id) => s.id@ == id,
        None => true,
    }
    &&& match adapter_id {
        Some(id) => s.adapter_id@ == id,
        None => true,
    }
}

/// The selected sources among the first `n`, in order.
pub open spec fn selected_sources(
    sources: Seq<ConversationSource>,
    source_id: Option<Seq<char>>,
    adapter_id: Option<Seq<char>>,
    n: int,
) -> Seq<ConversationSource>
    decreases n,
{
    if n <= 0 {
        Seq::empty()
    } else if sync_selected(sources[n - 1], source_id, adapter_id) {
        selected_sources(sources, source_id, adapter_id, n - 1).push(sources[n - 1])
    } else {
        selected_sources(sources, source_id, adapter_id, n - 1)
    }
}

pub open spec fn opt_text(o: Option<&str>) -> Option<Seq<char>> {
    match o {
        Some(t) => Some(t@),
        None => None,
    }
}

/// The sources a sync runs over, in their stored order; none is an error.
pub fn select_sync_sources(
    sources: Vec<ConversationSource>,
    source_id: Option<&str>,
    adapter_id: Option<&str>,
) -> (r: AppResult<Vec<ConversationSource>>)
    ensures
        ({
            let sel = selected_sources(sources@, opt_text(source_id), opt_text(adapter_id), sources@.len() as int);
            &&& sel.len() == 0 ==> (r matches Err(e) && e is NotFound && e->NotFound_0@
                == "no matching conversation sources"@)
            &&& sel.len() > 0 ==> (r matches Ok(v) && v@ == sel)
        }),
{
    let ghost all = sources@;
    let mut rest = sources;
    let mut out: Vec<ConversationSource> = Vec::new();
    while rest.len() > 0
        invariant
            rest@.len() <= all.len(),
            rest@ == all.skip(all.len() - rest@.len()),
            out@ == selected_sources(all, opt_text(source_id), opt_text(adapter_id), all.len() - rest@.len()),
        decreases rest.len(),
    {
        let ghost k = all.len() - rest@.len();
        let s = rest.remove(0);
        assert(s == all[k]);
        assert(rest@ =~= all.skip(k + 1));
        let keep = s.enabled && match source_id {
            Some(id) => str_eq(s.id.as_str(), id),
            None => true,
        } && match adapter_id {
            Some(id) => str_eq(s.adapter_id.as_str(), id),
            None => true,
        };
        if keep {
            out.push(s);
        }
    }
    if out.len() == 0 {
        return Err(AppError::NotFound(String::from_str("no matching conversation sources")));
    }
    Ok(out)
}

/// The sources of one adapter among the first `n`, in order.
pub open spec fn adapter_sources(sources: Seq<ConversationSource>, adapter_id: Seq<char>, n: int) -> Seq<ConversationSource>
    decreases n,
{
    if n <= 0 {
        Seq::empty()
    } else if sources[n - 1].adapter_id@ == adapter_id {
        adapter_sources(sources, adapter_id, n - 1).push(sources[n - 1])
    } else {
        adapter_sources(sources, adapter_id, n - 1)
    }
}

pub open spec fn adapter_ids(sources: Seq<ConversationSource>) -> Seq<Seq<char>> {
    sources.map_values(|s: ConversationSource| s.adapter_id@)
}

/// One adapter's share of a sync.
pub struct SyncAdapterGroup {
    pub adapter_id: String,
    pub sources: Vec<ConversationSource>,
}

/// The sources grouped per adapter: one group per adapter, adapters in
/// increasing order, each group's sources in their given order.
pub fn group_sync_sources(sources: Vec<ConversationSource>) -> (r: Vec<SyncAdapterGroup>)
    ensures
        ascending(r@.map_values(|g: SyncAdapterGroup| g.adapter_id@)),
        forall|k: Seq<char>|
            r@.map_values(|g: SyncAdapterGroup| g.adapter_id@).contains(k) <==> adapter_ids(sources@).contains(k),
        forall|i: int|
            0 <= i < r@.len() ==> (#[trigger] r@[i]).sources@ == adapter_sources(
                sources@,
                r@[i].adapter_id@,
                sources@.len() as int,
            ),
{
    let mut ids: Vec<String> = Vec::new();
    let mut j: usize = 0;
    while j < sources.len()
        invariant
            j <= sources@.len(),
            text_views(ids@) == adapter_ids(sources@).take(j as int),
        decreases sources.len() - j,
    {
        let id = sources[j].adapter_id.clone();
        assert(text_views(ids@.push(id)) =~= text_views(ids@).push(id@));
        assert(adapter_ids(sources@).take(j + 1) =~= adapter_ids(sources@).take(j as int).push(sources@[j as int].adapter_id@));
        ids.push(id);
        j = j + 1;
    }
    assert(adapter_ids(sources@).take(sources@.len() as int) =~= adapter_ids(sources@));
    let keys = sorted_distinct_texts(&ids);
    let ghost all = sources@;
    let mut groups: Vec<SyncAdapterGroup> = Vec::new();
    let mut g: usize = 0;
    while g < keys.len()
        invariant
            g <= keys@.len(),
            all == sources@,
            groups@.len() == g,
            forall|i: int| 0 <= i < g ==> (#[trigger] groups@[i]).adapter_id@ == keys@[i]@,
            forall|i: int|
                0 <= i < g ==> (#[trigger] groups@[i]).sources@ == adapter_sources(all, groups@[i].adapter_id@, all.len() as int),
        decreases keys.len() - g,
    {
        let key = keys[g].clone();
        let mut members: Vec<ConversationSource> = Vec::new();
        let mut i: usize = 0;
        while i < sources.len()
            invariant
                i <= all.len(),
                all == sources@,
                members@ == adapter_sources(all, key@, i as int),
            decreases sources.len() - i,
        {
            if str_eq(sources[i].adapter_id.as_str(), key.as_str()) {
                members.push(ConversationSource {
                    id: sources[i].id.clone(),
                    adapter_id: sources[i].adapter_id.clone(),
                    name: sources[i].name.clone(),
                    enabled: sources[i].enabled,
                });
            }
            i = i + 1;
        }
        groups.push(SyncAdapterGroup { adapter_id: key, sources: members });
        g = g + 1;
    }
    proof {
        let gv = groups@.map_values(|x: SyncAdapterGroup| x.adapter_id@);
        assert(gv =~= text_views(keys@));
    }
    groups
}

/// How a sync run ended, as its task reports it.
pub enum SyncTaskOutcome {
    Success { message: String },
    PartialSuccess { message: String, error: String },
    Failure { error: String },
}

fn decimal_string(n: usize) -> (r: Vec<char>)
    ensures
        r@ == decimal(n as nat),
{
    decimal_text(n as u64)
}

/// Sums up a sync run: nothing synced and nothing failed means no source
/// matched; else success, partial success or failure with their messages.
pub fn sync_task_outcome(result_count: usize, error_count: usize) -> (r: AppResult<SyncTaskOutcome>)
    ensures
        result_count == 0 && error_count == 0 ==> (r matches Err(e) && e is NotFound && e->NotFound_0@
            == "no matching conversation sources"@),
        result_count > 0 && error_count == 0 ==> (r matches Ok(SyncTaskOutcome::Success { message }) && message@
            == "成功同步 "@ + decimal(result_count as nat) + " 个数据源"@),
        result_count > 0 && error_count > 0 ==> (r matches Ok(SyncTaskOutcome::PartialSuccess { message, error })
            && message@ == "部分成功："@ + decimal(result_count as nat) + " 成功，"@ + decimal(error_count as nat)
            + " 失败"@ && error@ == decimal(error_count as nat) + " 个数据源同步发生异常"@),
        result_count == 0 && error_count > 0 ==> (r matches Ok(SyncTaskOutcome::Failure { error }) && error@
            == "所有数据源同步均失败（共 "@ + decimal(error_count as nat) + " 个）"@),
{
    if result_count == 0 && error_count == 0 {
        return Err(AppError::NotFound(String::from_str("no matching conversation sources")));
    }
    if error_count == 0 {
        let mut m = chars_of("成功同步 ");
        append_chars(&mut m, &decimal_string(result_count));
        append_chars(&mut m, &chars_of(" 个数据源"));
        return Ok(SyncTaskOutcome::Success { message: string_of(&m) });
    }
    if result_count > 0 {
        let mut m = chars_of("部分成功：");
        append_chars(&mut m, &decimal_string(result_count));
        append_chars(&mut m, &chars_of(" 成功，"));
        append_chars(&mut m, &decimal_string(error_count));
        append_chars(&mut m, &chars_of(" 失败"));
        let mut e = decimal_string(error_count);
        append_chars(&mut e, &chars_of(" 个数据源同步发生异常"));
        return Ok(SyncTaskOutcome::PartialSuccess { message: string_of(&m), error: string_of(&e) });
    }
    let mut e = chars_of("所有数据源同步均失败（共 ");
    append_chars(&mut e, &decimal_string(error_count));
    append_chars(&mut e, &chars_of(" 个）"));
    Ok(SyncTaskOutcome::Failure { error: string_of(&e) })
}

/// A full sync that met no error marks the current payload policy applied:
/// not a dry run, and not narrowed to a source, an adapter or a record kind.
pub fn sync_applies_payload_policy(
    dry_run: bool,
    source_id_given: bool,
    adapter_id_given: bool,
    record_kind_given: bool,
    error_count: usize,
) -> (r: bool)
    ensures
        r == (!dry_run && !source_id_given && !adapter_id_given && !record_kind_given && error_count == 0),
{
    !dry_run && !source_id_given && !adapter_id_given && !record_kind_given && error_count == 0
}

/// The session counts a source read reports.
pub struct SourceReadCounts {
    pub discovered_session_count: usize,
    pub active_session_count: usize,
    pub skipped_session_count: usize,
    pub incremental: bool,
}

/// What a sync of one source reports over the import's own result: the
/// sessions the read discovered and found active, the sessions skipped by
/// the read and by the store together, whether the read was incremental,
/// the sync mode, the legacy cards the read upgraded, and how many sessions
/// were retained.
pub struct ConversationSyncCounts<M, L> {
    pub session_count: usize,
    pub active_session_count: usize,
    pub skipped_session_count: usize,
    pub incremental: bool,
    pub mode: M,
    pub legacy_cards_upgraded: L,
    pub retained_session_count: usize,
}

/// The counts of a sync result. `store_skipped` is the skipped count the
/// import itself reported (zero when it reported none).
pub fn conversation_sync_counts<M, L>(
    read: &SourceReadCounts,
    store_skipped: usize,
    retained_session_count: usize,
    mode: M,
    legacy_cards_upgraded: L,
) -> (r: ConversationSyncCounts<M, L>)
    requires
        read.skipped_session_count + store_skipped <= usize::MAX,
    ensures
        r.session_count == read.discovered_session_count,
        r.active_session_count == read.active_session_count,
        r.skipped_session_count == read.skipped_session_count + store_skipped,
        r.incremental == read.incremental,
        r.retained_session_count == retained_session_count,
        r.mode == mode,
        r.legacy_cards_upgraded == legacy_cards_upgraded,
{
    ConversationSyncCounts {
        session_count: read.discovered_session_count,
        active_session_count: read.active_session_count,
        skipped_session_count: read.skipped_session_count + store_skipped,
        incremental: read.incremental,
        mode,
        legacy_cards_upgraded,
        retained_session_count,
    }
}

/// A member value of a JSON object, as far as the sync result reads it: a
/// non-negative integer (what `as_u64` reads), a boolean, or any other JSON
/// value kept as its text.
pub enum JsonMember {
    Count(u64),
    Flag(bool),
    Other(String),
}

/// The value of the first member with this key.
pub open spec fn member_value(fields: Seq<(String, JsonMember)>, key: Seq<char>) -> Option<JsonMember>
    decreases fields.len(),
{
    if fields.len() == 0 {
        None
    } else if fields[0].0@ == key {
        Some(fields[0].1)
    } else {
        member_value(fields.drop_first(), key)
    }
}

proof fn lemma_member_value_append(a: Seq<(String, JsonMember)>, b: Seq<(String, JsonMember)>, key: Seq<char>)
    ensures
        member_value(a + b, key) == match member_value(a, key) {
            Some(v) => Some(v),
            None => member_value(b, key),
        },
    decreases a.len(),
{
    if a.len() > 0 {
        assert((a + b).drop_first() =~= a.drop_first() + b);
        lemma_member_value_append(a.drop_first(), b, key);
    } else {
        assert(a + b =~= b);
    }
}

proof fn lemma_member_at(fields: Seq<(String, JsonMember)>, j: int, key: Seq<char>)
    requires
        0 <= j < fields.len(),
        fields[j].0@ == key,
        forall|i: int| 0 <= i < j ==> (#[trigger] fields[i]).0@ != key,
    ensures
        member_value(fields, key) == Some(fields[j].1),
    decreases j,
{
    if j > 0 {
        assert(fields[0].0@ != key);
        let rest = fields.drop_first();
        assert forall|i: int| 0 <= i < j - 1 implies (#[trigger] rest[i]).0@ != key by {
            assert(rest[i] == fields[i + 1]);
        }
        lemma_member_at(rest, j - 1, key);
    }
}

proof fn lemma_member_absent(fields: Seq<(String, JsonMember)>, key: Seq<char>)
    requires
        forall|i: int| 0 <= i < fields.len() ==> (#[trigger] fields[i]).0@ != key,
    ensures
        member_value(fields, key) is None,
    decreases fields.len(),
{
    if fields.len() > 0 {
        let rest = fields.drop_first();
        assert forall|i: int| 0 <= i < rest.len() implies (#[trigger] rest[i]).0@ != key by {
            assert(rest[i] == fields[i + 1]);
        }
        lemma_member_absent(rest, key);
    }
}

/// The members of `fields` whose key is none of `keys`, in order.
pub open spec fn members_without(fields: Seq<(String, JsonMember)>, keys: Seq<Seq<char>>) -> Seq<(String, JsonMember)> {
    fields.filter(unlisted(keys))
}

/// A member whose key is none of `keys`.
pub open spec fn unlisted(keys: Seq<Seq<char>>) -> spec_fn((String, JsonMember)) -> bool {
    |f: (String, JsonMember)| !keys.contains(f.0@)
}

proof fn lemma_member_value_without(fields: Seq<(String, JsonMember)>, keys: Seq<Seq<char>>, key: Seq<char>)
    requires
        !keys.contains(key),
    ensures
        member_value(members_without(fields, keys), key) == member_value(fields, key),
    decreases fields.len(),
{
    if fields.len() > 0 {
        let f = fields[0];
        let rest = fields.drop_first();
        assert(fields =~= seq![f] + rest);
        Seq::filter_distributes_over_add(seq![f], rest, unlisted(keys));
        lemma_member_value_without(rest, keys, key);
        lemma_member_value_append(
            seq![f].filter(unlisted(keys)),
            members_without(rest, keys),
            key,
        );
        let e = Seq::<(String, JsonMember)>::empty();
        assert(seq![f] =~= e.push(f));
        e.lemma_filter_push(f, unlisted(keys));
        assert(e.filter(unlisted(keys)).len() == 0) by {
            e.filter_lemma(unlisted(keys));
        }
        assert(seq![f].drop_first() =~= Seq::<(String, JsonMember)>::empty());
        assert(member_value(Seq::<(String, JsonMember)>::empty(), key) is None);
        if keys.contains(f.0@) {
            assert(f.0@ != key);
            assert(seq![f].filter(unlisted(keys)) =~= Seq::<(String, JsonMember)>::empty());
            assert(member_value(fields, key) == member_value(rest, key));
        } else {
            assert(seq![f].filter(unlisted(keys)) =~= seq![f]);
            assert(seq![f][0] == f);
        }
    } else {
        fields.filter_lemma(unlisted(keys));
        assert(members_without(fields, keys) =~= fields);
    }
}

/// The keys a sync sets on the import's result.
pub open spec fn sync_result_keys() -> Seq<Seq<char>> {
    seq![
        "session_count"@,
        "active_session_count"@,
        "skipped_session_count"@,
        "incremental"@,
        "mode"@,
        "legacy_cards_upgraded"@,
        "retained_session_count"@,
    ]
}

/// What the store reported as skipped: its `skipped_session_count` when it
/// is a count, else none.
pub open spec fn store_skipped(fields: Seq<(String, JsonMember)>) -> nat {
    match member_value(fields, "skipped_session_count"@) {
        Some(JsonMember::Count(n)) => n as nat,
        _ => 0,
    }
}

/// What a sync reports for one source: the import's result object with the
/// read's counts set over it (the skipped count adds the store's own),
/// whether the read was incremental, the mode, the legacy cards upgraded
/// and the sessions retained; every other member of the result stays.
pub fn conversation_sync_result(
    result: Vec<(String, JsonMember)>,
    read: &SourceReadCounts,
    legacy_cards_upgraded: JsonMember,
    mode: JsonMember,
    retained_session_count: usize,
) -> (r: Vec<(String, JsonMember)>)
    requires
        read.skipped_session_count + store_skipped(result@) <= u64::MAX,
    ensures
        member_value(r@, "session_count"@) == Some(JsonMember::Count(read.discovered_session_count as u64)),
        member_value(r@, "active_session_count"@) == Some(JsonMember::Count(read.active_session_count as u64)),
        member_value(r@, "skipped_session_count"@) == Some(
            JsonMember::Count((read.skipped_session_count + store_skipped(result@)) as u64),
        ),
        member_value(r@, "incremental"@) == Some(JsonMember::Flag(read.incremental)),
        member_value(r@, "mode"@) == Some(mode),
        member_value(r@, "legacy_cards_upgraded"@) == Some(legacy_cards_upgraded),
        member_value(r@, "retained_session_count"@) == Some(JsonMember::Count(retained_session_count as u64)),
        forall|key: Seq<char>| !sync_result_keys().contains(key) ==> member_value(r@, key) == member_value(result@, key),
{
    let mut skipped_by_store: u64 = 0;
    let mut i: usize = 0;
    let mut found = false;
    assert(result@.skip(0) =~= result@);
    while i < result.len() && !found
        invariant
            i <= result@.len(),
            member_value(result@, "skipped_session_count"@) == if found {
                Some(result@[i - 1].1)
            } else {
                member_value(result@.skip(i as int), "skipped_session_count"@)
            },
            found ==> i > 0,
            skipped_by_store as nat == if found {
                match result@[i - 1].1 {
                    JsonMember::Count(n) => n as nat,
                    _ => 0nat,
                }
            } else {
                0nat
            },
        decreases result.len() - i + if found { 0int } else { 1int },
    {
        assert(result@.skip(i as int).drop_first() =~= result@.skip(i + 1));
        if str_eq(result[i].0.as_str(), "skipped_session_count") {
            found = true;
            skipped_by_store = match &result[i].1 {
                JsonMember::Count(n) => *n,
                _ => 0,
            };
        }
        i = i + 1;
    }
    proof {
        if !found {
            assert(result@.skip(i as int).len() == 0);
        }
    }
    let skipped = read.skipped_session_count as u64 + skipped_by_store;
    let mut out: Vec<(String, JsonMember)> = vec![
        (String::from_str("session_count"), JsonMember::Count(read.discovered_session_count as u64)),
        (String::from_str("active_session_count"), JsonMember::Count(read.active_session_count as u64)),
        (String::from_str("skipped_session_count"), JsonMember::Count(skipped)),
        (String::from_str("incremental"), JsonMember::Flag(read.incremental)),
        (String::from_str("mode"), mode),
        (String::from_str("legacy_cards_upgraded"), legacy_cards_upgraded),
        (String::from_str("retained_session_count"), JsonMember::Count(retained_session_count as u64)),
    ];
    let ghost head = out@;
    proof {
        reveal_strlit("session_count");
        reveal_strlit("active_session_count");
        reveal_strlit("skipped_session_count");
        reveal_strlit("incremental");
        reveal_strlit("mode");
        reveal_strlit("legacy_cards_upgraded");
        reveal_strlit("retained_session_count");
        assert(head.map_values(|f: (String, JsonMember)| f.0@) =~= sync_result_keys());
    }
    let mut k: usize = 0;
    let ghost keys = sync_result_keys();
    while k < result.len()
        invariant
            k <= result@.len(),
            keys == sync_result_keys(),
            out@ == head + members_without(result@.take(k as int), keys),
        decreases result.len() - k,
    {
        let name = result[k].0.as_str();
        let set_here = str_eq(name, "session_count") || str_eq(name, "active_session_count") || str_eq(
            name,
            "skipped_session_count",
        ) || str_eq(name, "incremental") || str_eq(name, "mode") || str_eq(name, "legacy_cards_upgraded")
            || str_eq(name, "retained_session_count");
        proof {
            assert(result@.take(k + 1) =~= result@.take(k as int).push(result@[k as int]));
            result@.take(k as int).lemma_filter_push(result@[k as int], unlisted(keys));
            assert(set_here == keys.contains(result@[k as int].0@)) by {
                if keys.contains(result@[k as int].0@) {
                    let j = choose|j: int| 0 <= j < keys.len() && keys[j] == result@[k as int].0@;
                    assert(0 <= j < 7);
                }
            }
        }
        if !set_here {
            let member = (result[k].0.clone(), copy_member(&result[k].1));
            out.push(member);
        }
        k = k + 1;
    }
    proof {
        assert(result@.take(result@.len() as int) =~= result@);
        assert forall|key: Seq<char>| !sync_result_keys().contains(key) implies member_value(out@, key)
            == member_value(result@, key) by {
            lemma_member_value_append(head, members_without(result@, keys), key);
            lemma_member_value_without(result@, keys, key);
            assert(member_value(head, key) is None) by {
                lemma_member_absent(head, key);
            }
        }
        let full = out@;
        assert("session_count"@.len() == 13 && "active_session_count"@.len() == 20 && "skipped_session_count"@.len()
            == 21 && "incremental"@.len() == 11 && "mode"@.len() == 4 && "legacy_cards_upgraded"@.len() == 21
            && "retained_session_count"@.len() == 22);
        assert("skipped_session_count"@[0] == 's' && "legacy_cards_upgraded"@[0] == 'l');
        assert forall|j: int| 0 <= j < 7 implies member_value(full, (#[trigger] head[j]).0@) == Some(head[j].1) by {
            assert(full[j] == head[j]);
            assert forall|i: int| 0 <= i < j implies (#[trigger] full[i]).0@ != head[j].0@ by {
                assert(full[i] == head[i]);
            }
            lemma_member_at(full, j, head[j].0@);
        }
        assert(head[0].0@ == "session_count"@);
        assert(head[1].0@ == "active_session_count"@);
        assert(head[2].0@ == "skipped_session_count"@);
        assert(head[3].0@ == "incremental"@);
        assert(head[4].0@ == "mode"@);
        assert(head[5].0@ == "legacy_cards_upgraded"@);
        assert(head[6].0@ == "retained_session_count"@);
    }
    out
}

fn copy_member(m: &JsonMember) -> (r: JsonMember)
    ensures
        r == *m,
{
    match m {
        JsonMember::Count(n) => JsonMember::Count(*n),
        JsonMember::Flag(b) => JsonMember::Flag(*b),
        JsonMember::Other(t) => JsonMember::Other(t.clone()),
    }
}

} // verus!
