//! Which questions are put to whoever writes examples.
use vstd::prelude::*;

use crate::text::decimal;
use crate::train::{asked, asked_all, captured, exported_domains, hits_of, is_topic};
use crate::train::{knowledge_questions, recall_of, row_of_example, seed_questions, stage_question};
use crate::train::{stage_questions, stub, stubs, topic_questions, weak_question, weak_questions};
use crate::train::{Example, TrainingRowModel};
use crate::types::{EpisodeRowModel, KnowledgeRowModel, StageRowModel};

verus! {

/// An example is stored as it was given, at that time.
pub proof fn examples_are_stored_as_given(s: Seq<TrainingRowModel>, e: Example, id: i64, now: i64)
    ensures
        ({
            let r = row_of_example(e, id as int, now);
            &&& r.id == id && r.domain == e.domain && r.system_prompt == e.system_prompt
            &&& r.user_content == e.user_content && r.assistant_content == e.assistant_content
            &&& r.label_type == e.label_type && r.trust == e.trust && r.provenance == e.provenance
            &&& r.retrieval_ref == e.retrieval_ref && r.verify_log == e.verify_log
            &&& r.created_at == now && r.updated_at == now
        }),
        captured(s, e, now).len() == s.len() + 1,
        captured(s, e, now).drop_last() == s,
        captured(s, e, now).last().user_content == e.user_content,
        captured(s, e, now).last().assistant_content == e.assistant_content,
{
    assert(captured(s, e, now).drop_last() =~= s);
}

/// A question that is put waits for its answer, as one of the student.
pub proof fn questions_wait_for_their_answer(
    domain: Seq<char>,
    question: Seq<char>,
    label: Seq<char>,
    reference: Seq<char>,
)
    ensures
        ({
            let e = stub(domain, question, label, reference);
            &&& e.domain == domain && e.user_content == question && e.label_type == label
            &&& e.retrieval_ref == Some(reference) && e.assistant_content is None
            &&& e.trust == "proposed"@ && e.provenance == "student"@
            &&& e.system_prompt is None && e.verify_log is None
        }),
{
}

/// A question is put once in its domain.
pub proof fn questions_are_put_once(s: Seq<TrainingRowModel>, q: Example, now: i64)
    ensures
        (exists|i: int|
            0 <= i < s.len() && (#[trigger] s[i]).domain == q.domain && s[i].user_content
                == q.user_content) ==> asked(s, q, now) == s,
        (forall|i: int|
            0 <= i < s.len() && (#[trigger] s[i]).domain == q.domain ==> s[i].user_content
                != q.user_content) ==> asked(s, q, now) == captured(s, q, now),
{
    let p = |r: TrainingRowModel| r.domain == q.domain && r.user_content == q.user_content;
    if exists|i: int|
        0 <= i < s.len() && (#[trigger] s[i]).domain == q.domain && s[i].user_content
            == q.user_content {
        let i = choose|i: int|
            0 <= i < s.len() && (#[trigger] s[i]).domain == q.domain && s[i].user_content
                == q.user_content;
        assert(p(s[i]));
    }
    if forall|i: int|
        0 <= i < s.len() && (#[trigger] s[i]).domain == q.domain ==> s[i].user_content
            != q.user_content {
        if crate::train::asked_already(s, q.domain, q.user_content) {
            let i = choose|i: int| 0 <= i < s.len() && p(#[trigger] s[i]);
            assert(s[i].domain == q.domain);
        }
    }
}

/// Questions are put one after the other.
pub proof fn questions_are_put_in_order(
    s: Seq<TrainingRowModel>,
    all: Seq<Example>,
    q: Example,
    now: i64,
)
    ensures
        asked_all(s, seq![], now) == s,
        asked_all(s, all.push(q), now) == asked(asked_all(s, all, now), q, now),
{
    assert(all.push(q).drop_last() =~= all);
}

/// Every step of a run is looked at, in order, for a question.
pub proof fn steps_are_looked_at_in_order(
    episodes: Seq<EpisodeRowModel>,
    e: EpisodeRowModel,
    threshold: i64,
)
    ensures
        weak_questions(seq![], threshold).len() == 0,
        weak_question(e, threshold) matches Some(q) ==> weak_questions(episodes.push(e), threshold)
            == weak_questions(episodes, threshold).push(q),
        weak_question(e, threshold) is None ==> weak_questions(episodes.push(e), threshold)
            == weak_questions(episodes, threshold),
{
    assert(episodes.push(e).drop_last() =~= episodes);
}

/// What a recall asked, and of which domain, is read from what was logged of it; so is how
/// many hits it gave.
pub proof fn logged_recalls_are_read_back(domain: Seq<char>, query: Seq<char>, n: u32)
    requires
        domain.len() > 0,
        query.len() > 0,
        forall|i: int|
            0 <= i < domain.len() ==> !#[trigger] crate::text::stands_at(
                domain + " query="@ + query,
                " query="@,
                i,
            ),
    ensures
        recall_of("recall domain="@ + domain + " query="@ + query) == Some((domain, query)),
        hits_of("returned "@ + decimal(n as int) + " hits"@) == Some(n as int),
{
    let a = "recall domain="@;
    let b = " query="@;
    let rest = domain + b + query;
    let s = a + domain + b + query;
    assert(s.subrange(0, a.len() as int) =~= a);
    assert(s.skip(a.len() as int) =~= rest);
    let m = domain.len() as int;
    assert(rest.subrange(m, m + b.len()) =~= b);
    assert(crate::text::stands_at(rest, b, m));
    crate::text::lemma_first_at(rest, b, 0);
    assert(crate::text::first_at(rest, b, 0) == Some(m));
    assert(rest.take(m) =~= domain);
    assert(rest.skip(m + b.len()) =~= query);
    let d = decimal(n as int);
    crate::laws::text::numbers_are_read_as_written(n as int);
    let t = "returned "@ + d + " hits"@;
    let left = d + " hits"@;
    reveal_strlit("returned ");
    reveal_strlit(" hits");
    assert(t.subrange(0, 9) =~= "returned "@);
    assert(t.skip(9) =~= left);
    assert forall|i: int| 0 <= i < d.len() implies !crate::text::is_white(#[trigger] d[i]) by {
        assert(crate::text::is_digit(d[i]));
    }
    assert(crate::text::is_white(" hits"@[0]));
    crate::laws::legacy::lemma_first_word(d, " hits"@);
}

/// The items of a domain, and of a stage where one is asked for, are asked about in order;
/// each question names its item.
pub proof fn items_are_asked_about(
    domain: Seq<char>,
    stage: Option<Seq<char>>,
    all: Seq<KnowledgeRowModel>,
    k: KnowledgeRowModel,
)
    ensures
        knowledge_questions(domain, stage, seq![]).len() == 0,
        is_topic(k, domain, stage) <==> k.domain == domain && (stage matches Some(s) ==> k.stage
            == Some(s)),
        k.domain == domain && (stage matches Some(s) ==> k.stage == Some(s))
            ==> knowledge_questions(domain, stage, all.push(k)) == knowledge_questions(
            domain,
            stage,
            all,
        ) + stubs(domain, topic_questions(k), "knowledge:#"@ + decimal(k.id as int)),
        !(k.domain == domain && (stage matches Some(s) ==> k.stage == Some(s)))
            ==> knowledge_questions(domain, stage, all.push(k)) == knowledge_questions(
            domain,
            stage,
            all,
        ),
{
    assert(all.push(k).drop_last() =~= all);
}

/// Each question becomes one that waits.
pub proof fn each_question_waits(
    domain: Seq<char>,
    questions: Seq<Seq<char>>,
    reference: Seq<char>,
    i: int,
)
    requires
        0 <= i < questions.len(),
    ensures
        stubs(domain, questions, reference).len() == questions.len(),
        stubs(domain, questions, reference)[i] == stub(
            domain,
            questions[i],
            "grounded"@,
            reference,
        ),
{
}

/// A stage is asked about by its name and what it is for; where one stage is asked for, the
/// others are passed over.
pub proof fn stages_are_asked_about(
    domain: Seq<char>,
    stage: Option<Seq<char>>,
    all: Seq<StageRowModel>,
    s: StageRowModel,
)
    ensures
        stage_questions(domain, stage, seq![]).len() == 0,
        (stage matches Some(t) ==> s.name == t) ==> stage_questions(domain, stage, all.push(s))
            == stage_questions(domain, stage, all).push(
            stub(domain, stage_question(s), "grounded"@, "stage:"@ + s.name),
        ),
        (stage matches Some(t) && s.name != t) ==> stage_questions(domain, stage, all.push(s))
            == stage_questions(domain, stage, all),
        (s.description matches Some(d) && d.len() > 0) ==> stage_question(s)
            == "Walk through the \""@ + s.name + "\" stage ("@ + s.description->0
            + "). What must you verify, and in what order?"@,
        (s.description matches Some(d) ==> d.len() == 0) ==> stage_question(s)
            == "Walk through the \""@ + s.name
            + "\" stage. What must you verify, and in what order?"@,
{
    assert(all.push(s).drop_last() =~= all);
}

/// The items are asked about before the stages.
pub proof fn items_come_before_stages(
    domain: Seq<char>,
    stage: Option<Seq<char>>,
    items: Seq<KnowledgeRowModel>,
    stages: Seq<StageRowModel>,
)
    ensures
        seed_questions(domain, stage, items, stages) == knowledge_questions(domain, stage, items)
            + stage_questions(domain, stage, stages),
{
}

/// One domain is exported where one is asked for; else each that has an example that was
/// reviewed or that a user gave.
pub proof fn domains_with_examples_are_exported(s: Seq<TrainingRowModel>, d: Seq<char>)
    ensures
        exported_domains(s, Some(d)) == seq![d],
        exported_domains(s, None).contains(d) <==> exists|i: int|
            0 <= i < s.len() && (#[trigger] s[i]).domain == d && (s[i].trust == "reviewed"@
                || s[i].trust == "user"@),
{
    let p = |r: TrainingRowModel| crate::train::is_settled(r);
    let f = s.filter(p);
    let names = f.map_values(|r: TrainingRowModel| r.domain);
    crate::laws::domains::lemma_kept(s, p);
    crate::table::lemma_distinct_members(names);
    if names.contains(d) {
        let m = names.index_of(d);
        assert(f.contains(f[m]));
        let i = s.index_of(f[m]);
        assert(s[i] == f[m]);
    }
    if exists|i: int|
        0 <= i < s.len() && (#[trigger] s[i]).domain == d && (s[i].trust == "reviewed"@ || s[i].trust
            == "user"@) {
        let i = choose|i: int|
            0 <= i < s.len() && (#[trigger] s[i]).domain == d && (s[i].trust == "reviewed"@
                || s[i].trust == "user"@);
        assert(s.contains(s[i]));
        assert(f.contains(s[i]));
        let m = f.index_of(s[i]);
        assert(names[m] == d);
    }
}

} // verus!
