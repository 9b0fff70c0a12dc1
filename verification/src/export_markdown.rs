//! The rendered Markdown of a conversation session export.

use vstd::prelude::*;
use crate::records::{
    humanize_card_kind, export_question_title, humanized, question_title, turn_texts,
    ConversationCardRenderer, ConversationContentNode, ConversationQuestionDetail,
    ConversationSessionDetail, views_of,
};
use crate::script_catalog::str_eq;
use crate::text::{
    append_chars, chars_of, decimal, decimal_text, join_vec, join_with, opt_view, string_of, trim,
    trim_end, trim_end_vec, trim_vec, views,
};

verus! {

/// The trimmed turn texts that are not blank, in order.
pub open spec fn spoken_texts(texts: Seq<Seq<char>>) -> Seq<Seq<char>>
    decreases texts.len(),
{
    if texts.len() == 0 {
        Seq::empty()
    } else {
        let prev = spoken_texts(texts.drop_last());
        if trim(texts.last()).len() > 0 {
            prev.push(trim(texts.last()))
        } else {
            prev
        }
    }
}

/// The body of a card under its heading.
pub open spec fn card_body(node: ConversationContentNode) -> Seq<char> {
    let content = node.content@;
    match node.renderer {
        ConversationCardRenderer::Markdown => trim(content) + "\n"@,
        ConversationCardRenderer::Code => "```"@ + match opt_view(node.language) {
            Some(l) => l,
            None => Seq::empty(),
        } + "\n"@ + trim_end(content) + "\n```\n"@,
        ConversationCardRenderer::Json => "```json\n"@ + trim_end(content) + "\n```\n"@,
        ConversationCardRenderer::Command => "```sh\n"@ + trim_end(content) + "\n```\n"@,
        _ => "```text\n"@ + trim_end(content) + "\n```\n"@,
    }
}

/// A card's section: a level-three heading with its kind, then its body.
pub open spec fn card_section(node: ConversationContentNode) -> Seq<char> {
    "\n### "@ + humanized(node.node_type@) + "\n\n"@ + card_body(node)
}

/// The sections of the visible cards, in order.
pub open spec fn card_sections(nodes: Seq<ConversationContentNode>) -> Seq<char>
    decreases nodes.len(),
{
    if nodes.len() == 0 {
        Seq::empty()
    } else {
        card_sections(nodes.drop_last()) + if nodes.last().visible {
            card_section(nodes.last())
        } else {
            Seq::empty()
        }
    }
}

/// The section of question number `number`: heading with number and title,
/// the joined prompts, then its card sections.
pub open spec fn question_section(number: nat, q: ConversationQuestionDetail) -> Seq<char> {
    "\n## "@ + decimal(number) + ". "@ + question_title(
        opt_view(q.question.title),
        turn_texts(q.turns@),
    ) + "\n\n"@ + join_with(spoken_texts(turn_texts(q.turns@)), "\n\n"@) + "\n"@ + card_sections(
        q.projected_content_nodes@,
    )
}

/// A question is exported when no ids are requested or its id is requested.
pub open spec fn question_selected(ids: Seq<Seq<char>>, id: Seq<char>) -> bool {
    ids.len() == 0 || ids.contains(id)
}

/// Sections of the selected questions among the first `n`, numbered by
/// their place in the session.
pub open spec fn question_sections(
    questions: Seq<ConversationQuestionDetail>,
    ids: Seq<Seq<char>>,
    n: int,
) -> Seq<char>
    decreases n,
{
    if n <= 0 {
        Seq::empty()
    } else {
        question_sections(questions, ids, n - 1) + if question_selected(
            ids,
            questions[n - 1].question.id@,
        ) {
            question_section(n as nat, questions[n - 1])
        } else {
            Seq::empty()
        }
    }
}

/// The rendered Markdown export of a session.
pub open spec fn rendered_markdown(detail: ConversationSessionDetail, ids: Seq<Seq<char>>) -> Seq<
    char,
> {
    "# "@ + trim(detail.session.title@) + "\n"@ + question_sections(
        detail.questions@,
        ids,
        detail.questions@.len() as int,
    )
}

fn spoken_prompt(turns: &Vec<crate::records::ConversationTurn>) -> (r: Vec<char>)
    ensures
        r@ == join_with(spoken_texts(turn_texts(turns@)), "\n\n"@),
{
    let ghost texts = turn_texts(turns@);
    let mut parts: Vec<Vec<char>> = Vec::new();
    let mut i: usize = 0;
    while i < turns.len()
        invariant
            i <= turns@.len(),
            texts == turn_texts(turns@),
            views(parts@) == spoken_texts(texts.take(i as int)),
        decreases turns.len() - i,
    {
        let t = trim_vec(&chars_of(turns[i].user_text.as_str()));
        proof {
            let p = texts.take(i + 1);
            assert(p.drop_last() =~= texts.take(i as int));
            assert(p.last() == turns@[i as int].user_text@);
        }
        if t.len() > 0 {
            proof {
                assert(views(parts@.push(t)) =~= views(parts@).push(t@));
            }
            parts.push(t);
        }
        i = i + 1;
    }
    assert(texts.take(turns@.len() as int) =~= texts);
    join_vec(&parts, &chars_of("\n\n"))
}

fn card_section_text(node: &ConversationContentNode) -> (r: Vec<char>)
    ensures
        r@ == card_section(*node),
{
    let mut out = chars_of("\n### ");
    append_chars(&mut out, &chars_of(humanize_card_kind(node.node_type.as_str()).as_str()));
    append_chars(&mut out, &chars_of("\n\n"));
    let content = chars_of(node.content.as_str());
    match node.renderer {
        ConversationCardRenderer::Markdown => {
            append_chars(&mut out, &trim_vec(&content));
            append_chars(&mut out, &chars_of("\n"));
        },
        ConversationCardRenderer::Code => {
            append_chars(&mut out, &chars_of("```"));
            if let Some(l) = &node.language {
                append_chars(&mut out, &chars_of(l.as_str()));
            }
            append_chars(&mut out, &chars_of("\n"));
            append_chars(&mut out, &trim_end_vec(&content));
            append_chars(&mut out, &chars_of("\n```\n"));
        },
        ConversationCardRenderer::Json => {
            append_chars(&mut out, &chars_of("```json\n"));
            append_chars(&mut out, &trim_end_vec(&content));
            append_chars(&mut out, &chars_of("\n```\n"));
        },
        ConversationCardRenderer::Command => {
            append_chars(&mut out, &chars_of("```sh\n"));
            append_chars(&mut out, &trim_end_vec(&content));
            append_chars(&mut out, &chars_of("\n```\n"));
        },
        _ => {
            append_chars(&mut out, &chars_of("```text\n"));
            append_chars(&mut out, &trim_end_vec(&content));
            append_chars(&mut out, &chars_of("\n```\n"));
        },
    }
    proof {
        let b = card_body(*node);
        assert(out@ =~= "\n### "@ + humanized(node.node_type@) + "\n\n"@ + b);
    }
    out
}

fn question_section_text(number: u64, q: &ConversationQuestionDetail) -> (r: Vec<char>)
    ensures
        r@ == question_section(number as nat, *q),
{
    let mut out = chars_of("\n## ");
    append_chars(&mut out, &decimal_text(number));
    append_chars(&mut out, &chars_of(". "));
    append_chars(&mut out, &chars_of(export_question_title(q).as_str()));
    append_chars(&mut out, &chars_of("\n\n"));
    append_chars(&mut out, &spoken_prompt(&q.turns));
    append_chars(&mut out, &chars_of("\n"));
    let ghost head = out@;
    let nodes = &q.projected_content_nodes;
    let mut j: usize = 0;
    while j < nodes.len()
        invariant
            j <= nodes@.len(),
            nodes@ == q.projected_content_nodes@,
            out@ == head + card_sections(nodes@.take(j as int)),
        decreases nodes.len() - j,
    {
        proof {
            let p = nodes@.take(j + 1);
            assert(p.drop_last() =~= nodes@.take(j as int));
            assert(p.last() == nodes@[j as int]);
        }
        if nodes[j].visible {
            append_chars(&mut out, &card_section_text(&nodes[j]));
            assert(out@ =~= head + card_sections(nodes@.take(j + 1)));
        } else {
            assert(out@ =~= head + card_sections(nodes@.take(j + 1)));
        }
        j = j + 1;
    }
    assert(nodes@.take(nodes@.len() as int) =~= nodes@);
    out
}

pub(crate) fn ids_hold(ids: &[String], id: &String) -> (r: bool)
    ensures
        r == views_of(ids@).contains(id@),
{
    let ghost v = views_of(ids@);
    let mut i: usize = 0;
    while i < ids.len()
        invariant
            i <= ids@.len(),
            v == views_of(ids@),
            forall|j: int| 0 <= j < i ==> v[j] != id@,
        decreases ids.len() - i,
    {
        if str_eq(ids[i].as_str(), id.as_str()) {
            assert(v[i as int] == id@);
            return true;
        }
        i = i + 1;
    }
    proof {
        if v.contains(id@) {
            let k = choose|k: int| 0 <= k < v.len() && v[k] == id@;
            assert(v[k] != id@);
        }
    }
    false
}

/// The session as Markdown: its title, then for each selected question a
/// numbered section with its title, prompts and visible cards.
pub fn export_conversation_rendered_markdown(
    detail: &ConversationSessionDetail,
    question_ids: &[String],
) -> (r: String)
    ensures
        r@ == rendered_markdown(*detail, views_of(question_ids@)),
{
    let ghost ids = views_of(question_ids@);
    let mut out = chars_of("# ");
    append_chars(&mut out, &trim_vec(&chars_of(detail.session.title.as_str())));
    append_chars(&mut out, &chars_of("\n"));
    let ghost head = out@;
    let qs = &detail.questions;
    let mut i: usize = 0;
    while i < qs.len()
        invariant
            i <= qs@.len(),
            qs@ == detail.questions@,
            ids == views_of(question_ids@),
            out@ == head + question_sections(qs@, ids, i as int),
        decreases qs.len() - i,
    {
        let chosen = question_ids.len() == 0 || ids_hold(question_ids, &qs[i].question.id);
        if chosen {
            let section = question_section_text((i + 1) as u64, &qs[i]);
            append_chars(&mut out, &section);
        }
        assert(out@ =~= head + question_sections(qs@, ids, i + 1));
        i = i + 1;
    }
    string_of(&out)
}

} // verus!
