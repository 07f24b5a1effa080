//! Training examples: candidates are captured, gated by the trust lifecycle, and exported
//! once they are reviewed or written by a person.
//!
//! An example that the model under training wrote itself is never promoted: a model that
//! learns from its own answers collapses.
use vstd::prelude::*;

use crate::json::{quote, quoted};
use crate::order::{ints, lemma_sort_members, pair_desc, picked};
use crate::store::{fresh_id, next_id};
use crate::table::{any, as_count, count_of, count_rows, distinct, distinct_texts, find_row};
use crate::table::{first_match, list, listed, map_at, reversed_key, rewrite, some_match, top};
use crate::text::{behind, chars, copy_opt, decimal, is_text, number, opt, opt_str, own};
use crate::text::{parse_i64, parsed, parted, same, split_once, split_words, strip_prefix, text};
use crate::text::{texts, words};
use crate::types::{lemma_models_push, models, EpisodeRow, EpisodeRowModel, KnowledgeRow};
use crate::types::{KnowledgeRowModel, StageRow, StageRowModel};
use crate::unicode::alphanumeric;

verus! {

/// A training example.
#[derive(Debug)]
pub struct TrainingRow {
    pub id: i64,
    pub domain: String,
    pub system_prompt: Option<String>,
    pub user_content: String,
    pub assistant_content: Option<String>,
    pub label_type: String,
    pub trust: String,
    pub provenance: String,
    pub retrieval_ref: Option<String>,
    pub verify_log: Option<String>,
    pub created_at: i64,
    pub updated_at: i64,
}

/// What a [`TrainingRow`] holds, as mathematical values.
#[verifier::ext_equal]
pub struct TrainingRowModel {
    pub id: i64,
    pub domain: Seq<char>,
    pub system_prompt: Option<Seq<char>>,
    pub user_content: Seq<char>,
    pub assistant_content: Option<Seq<char>>,
    pub label_type: Seq<char>,
    pub trust: Seq<char>,
    pub provenance: Seq<char>,
    pub retrieval_ref: Option<Seq<char>>,
    pub verify_log: Option<Seq<char>>,
    pub created_at: i64,
    pub updated_at: i64,
}

impl View for TrainingRow {
    type V = TrainingRowModel;

    open spec fn view(&self) -> TrainingRowModel {
        TrainingRowModel {
            id: self.id,
            domain: self.domain@,
            system_prompt: opt(self.system_prompt),
            user_content: self.user_content@,
            assistant_content: opt(self.assistant_content),
            label_type: self.label_type@,
            trust: self.trust@,
            provenance: self.provenance@,
            retrieval_ref: opt(self.retrieval_ref),
            verify_log: opt(self.verify_log),
            created_at: self.created_at,
            updated_at: self.updated_at,
        }
    }
}

impl Clone for TrainingRow {
    fn clone(&self) -> (r: Self)
        ensures
            r@ == self@,
    {
        TrainingRow {
            id: self.id,
            domain: self.domain.clone(),
            system_prompt: copy_opt(&self.system_prompt),
            user_content: self.user_content.clone(),
            assistant_content: copy_opt(&self.assistant_content),
            label_type: self.label_type.clone(),
            trust: self.trust.clone(),
            provenance: self.provenance.clone(),
            retrieval_ref: copy_opt(&self.retrieval_ref),
            verify_log: copy_opt(&self.verify_log),
            created_at: self.created_at,
            updated_at: self.updated_at,
        }
    }
}

/// How many examples there are.
#[derive(PartialEq, Eq, Structural, Clone, Copy, Debug)]
pub struct TrainStats {
    pub total: i64,
    pub proposed: i64,
    pub reviewed: i64,
    pub user: i64,
    /// Those without an answer.
    pub stubs: i64,
}

/// What became of a promotion.
#[derive(PartialEq, Eq, Structural, Clone, Copy, Debug)]
pub enum PromoteOutcome {
    Promoted,
    NotFound,
    /// The example comes from the model under training.
    BlockedStudent,
}

/// A file of exported examples.
#[derive(Debug)]
pub struct ExportFile {
    pub domain: String,
    pub path: String,
    pub rows: usize,
}

/// The store of training examples.
#[derive(Debug)]
pub struct TrainStore {
    pub rows: Vec<TrainingRow>,
}

impl View for TrainStore {
    type V = Seq<TrainingRowModel>;

    open spec fn view(&self) -> Seq<TrainingRowModel> {
        models(self.rows@)
    }
}

/// The number that the next example gets.
pub open spec fn next_training_id(s: Seq<TrainingRowModel>) -> int {
    fresh_id(s, |r: TrainingRowModel| r.id)
}

/// An example that is about to be stored.
#[verifier::ext_equal]
pub struct Example {
    pub domain: Seq<char>,
    pub system_prompt: Option<Seq<char>>,
    pub user_content: Seq<char>,
    pub assistant_content: Option<Seq<char>>,
    pub label_type: Seq<char>,
    pub trust: Seq<char>,
    pub provenance: Seq<char>,
    pub retrieval_ref: Option<Seq<char>>,
    pub verify_log: Option<Seq<char>>,
}

/// The row of an example.
pub open spec fn row_of_example(e: Example, id: int, now: i64) -> TrainingRowModel {
    TrainingRowModel {
        id: id as i64,
        domain: e.domain,
        system_prompt: e.system_prompt,
        user_content: e.user_content,
        assistant_content: e.assistant_content,
        label_type: e.label_type,
        trust: e.trust,
        provenance: e.provenance,
        retrieval_ref: e.retrieval_ref,
        verify_log: e.verify_log,
        created_at: now,
        updated_at: now,
    }
}

/// The examples with one more.
pub open spec fn captured(s: Seq<TrainingRowModel>, e: Example, now: i64) -> Seq<TrainingRowModel> {
    s.push(row_of_example(e, next_training_id(s), now))
}

/// Whether an example can be promoted: it is proposed, and does not come from the model
/// under training.
pub open spec fn is_promotable(r: TrainingRowModel, id: i64) -> bool {
    r.id == id && r.trust == "proposed"@ && r.provenance != "student"@
}

/// An example after the promotion of the one with a number.
pub open spec fn promoted_row(r: TrainingRowModel, id: i64, now: i64) -> TrainingRowModel {
    if is_promotable(r, id) {
        TrainingRowModel { trust: "reviewed"@, updated_at: now, ..r }
    } else {
        r
    }
}

/// What becomes of the promotion of the example with a number.
pub open spec fn promotion(s: Seq<TrainingRowModel>, id: i64) -> PromoteOutcome {
    if some_match(s, |r: TrainingRowModel| is_promotable(r, id)) {
        PromoteOutcome::Promoted
    } else {
        match first_match(s, |r: TrainingRowModel| r.id == id) {
            Some(r) => if r.provenance == "student"@ && r.trust == "proposed"@ {
                PromoteOutcome::BlockedStudent
            } else {
                PromoteOutcome::NotFound
            },
            None => PromoteOutcome::NotFound,
        }
    }
}

/// Whether an example is of the domain and the trust tier that are asked for.
pub open spec fn is_listed(
    r: TrainingRowModel,
    domain: Option<Seq<char>>,
    trust: Option<Seq<char>>,
) -> bool {
    &&& (match domain {
        Some(d) => r.domain == d,
        None => true,
    })
    &&& (match trust {
        Some(t) => r.trust == t,
        None => true,
    })
}

/// The examples of a domain and a trust tier, where they are given, the newest first, two
/// hundred at most.
pub open spec fn training_list(
    s: Seq<TrainingRowModel>,
    domain: Option<Seq<char>>,
    trust: Option<Seq<char>>,
) -> Seq<TrainingRowModel> {
    top(
        listed(
            s,
            |r: TrainingRowModel| is_listed(r, domain, trust),
            |r: TrainingRowModel| (r.updated_at, 0i64),
        ),
        200,
    )
}

/// Whether an example is reviewed or was written by a person.
pub open spec fn is_settled(r: TrainingRowModel) -> bool {
    r.trust == "reviewed"@ || r.trust == "user"@
}

/// Whether an example has no answer.
pub open spec fn is_stub(r: TrainingRowModel) -> bool {
    match r.assistant_content {
        Some(a) => a.len() == 0,
        None => true,
    }
}

/// Whether an example is exported with a domain.
pub open spec fn is_exported(r: TrainingRowModel, domain: Seq<char>) -> bool {
    r.domain == domain && is_settled(r) && !is_stub(r)
}

/// The examples that are exported with a domain, in the order in which they came.
pub open spec fn exported(s: Seq<TrainingRowModel>, domain: Seq<char>) -> Seq<TrainingRowModel> {
    listed(
        s,
        |r: TrainingRowModel| is_exported(r, domain),
        |r: TrainingRowModel| (reversed_key(r.id), 0i64),
    )
}

/// A message of a conversation, as JSON.
pub open spec fn message(role: Seq<char>, content: Seq<char>) -> Seq<char> {
    "{\"content\":"@ + quoted(content) + ",\"role\":"@ + quoted(role) + "}"@
}

/// The line of an example: the conversation that it is.
pub open spec fn example_line(r: TrainingRowModel) -> Seq<char> {
    "{\"messages\":["@ + (match r.system_prompt {
        Some(s) => message("system"@, s) + ","@,
        None => seq![],
    }) + message("user"@, r.user_content) + ","@ + message(
        "assistant"@,
        match r.assistant_content {
            Some(a) => a,
            None => seq![],
        },
    ) + "]}\n"@
}

/// The lines of some examples.
pub open spec fn example_lines(rows: Seq<TrainingRowModel>) -> Seq<char>
    decreases rows.len(),
{
    if rows.len() == 0 {
        seq![]
    } else {
        example_lines(rows.drop_last()) + example_line(rows.last())
    }
}

/// A name made fit for a file: whatever is no letter, number, hyphen or underscore
/// becomes an underscore.
pub open spec fn file_stem(s: Seq<char>) -> Seq<char> {
    Seq::new(
        s.len(),
        |i: int|
            if alphanumeric(s[i]) || s[i] == '-' || s[i] == '_' {
                s[i]
            } else {
                '_'
            },
    )
}

/// The path of a file in a directory.
pub open spec fn path_in(dir: Seq<char>, name: Seq<char>) -> Seq<char> {
    if dir.len() == 0 || dir.last() == '/' {
        dir + name
    } else {
        dir + "/"@ + name
    }
}

/// A file that is to be written.
#[verifier::ext_equal]
pub struct Written {
    pub domain: Seq<char>,
    pub path: Seq<char>,
    pub rows: nat,
    pub content: Seq<char>,
}

/// The file of a domain.
pub open spec fn file_of(s: Seq<TrainingRowModel>, domain: Seq<char>, out_dir: Seq<char>) -> Written {
    Written {
        domain,
        path: path_in(out_dir, file_stem(domain) + ".jsonl"@),
        rows: exported(s, domain).len(),
        content: example_lines(exported(s, domain)),
    }
}

/// The domains that are exported: the one asked for, else all that hold something
/// settled, in order.
pub open spec fn exported_domains(s: Seq<TrainingRowModel>, domain: Option<Seq<char>>) -> Seq<
    Seq<char>,
> {
    match domain {
        Some(d) => seq![d],
        None => distinct(
            s.filter(|r: TrainingRowModel| is_settled(r)).map_values(
                |r: TrainingRowModel| r.domain,
            ),
        ),
    }
}

/// The files of some domains; a domain without examples to export has none.
pub open spec fn files_of(s: Seq<TrainingRowModel>, domains: Seq<Seq<char>>, out_dir: Seq<char>) -> Seq<
    Written,
>
    decreases domains.len(),
{
    if domains.len() == 0 {
        seq![]
    } else {
        let rest = files_of(s, domains.drop_last(), out_dir);
        if exported(s, domains.last()).len() == 0 {
            rest
        } else {
            rest.push(file_of(s, domains.last(), out_dir))
        }
    }
}

/// Files that are to be written and what they hold, as mathematical values.
pub open spec fn written(v: Seq<(ExportFile, String)>) -> Seq<Written> {
    Seq::new(
        v.len(),
        |i: int|
            Written {
                domain: v[i].0.domain@,
                path: v[i].0.path@,
                rows: v[i].0.rows as nat,
                content: v[i].1@,
            },
    )
}

// ---- questions ------------------------------------------------------------

/// Whether an example with this question is stored already.
pub open spec fn asked_already(s: Seq<TrainingRowModel>, domain: Seq<char>, question: Seq<char>) -> bool {
    some_match(s, |r: TrainingRowModel| r.domain == domain && r.user_content == question)
}

/// A question without an answer.
pub open spec fn stub(
    domain: Seq<char>,
    question: Seq<char>,
    label: Seq<char>,
    reference: Seq<char>,
) -> Example {
    Example {
        domain,
        system_prompt: None,
        user_content: question,
        assistant_content: None,
        label_type: label,
        trust: "proposed"@,
        provenance: "student"@,
        retrieval_ref: Some(reference),
        verify_log: None,
    }
}

/// The domain and the query of a recall, as its step tells them.
pub open spec fn recall_of(action: Seq<char>) -> Option<(Seq<char>, Seq<char>)> {
    match behind(action, "recall domain="@) {
        Some(rest) => match parted(rest, " query="@) {
            Some(x) => if x.0.len() == 0 || x.1.len() == 0 {
                None
            } else {
                Some(x)
            },
            None => None,
        },
        None => None,
    }
}

/// The number of hits of a recall, as its step tells it.
pub open spec fn hits_of(observation: Seq<char>) -> Option<int> {
    match behind(observation, "returned "@) {
        Some(rest) => if words(rest).len() == 0 {
            None
        } else {
            match parsed(words(rest)[0]) {
                Some(n) => if i64::MIN <= n <= i64::MAX {
                    Some(n)
                } else {
                    None
                },
                None => None,
            }
        },
        None => None,
    }
}

/// Whether a step was refused or failed.
pub open spec fn was_blocked(e: EpisodeRowModel) -> bool {
    e.outcome == Some("blocked"@) || e.outcome == Some("error"@)
}

/// The question of a recall that the knowledge could not answer: its hits were few, or it
/// was refused.
pub open spec fn weak_question(e: EpisodeRowModel, threshold: i64) -> Option<Example> {
    if e.stage != Some("recall"@) {
        None
    } else {
        match e.action {
            Some(action) => match recall_of(action) {
                Some(x) => {
                    let few = match e.observation {
                        Some(o) => hits_of(o) matches Some(n) && n <= threshold,
                        None => false,
                    };
                    if was_blocked(e) || few {
                        Some(
                            stub(
                                x.0,
                                x.1,
                                if was_blocked(e) {
                                    "refusal"@
                                } else {
                                    "grounded"@
                                },
                                "episode:"@ + e.run_id + "/"@ + decimal(e.step as int),
                            ),
                        )
                    } else {
                        None
                    }
                },
                None => None,
            },
            None => None,
        }
    }
}

/// The examples with a question added, unless it is stored already.
pub open spec fn asked(s: Seq<TrainingRowModel>, q: Example, now: i64) -> Seq<TrainingRowModel> {
    if asked_already(s, q.domain, q.user_content) {
        s
    } else {
        captured(s, q, now)
    }
}

/// The examples with some questions added one after the other.
pub open spec fn asked_all(s: Seq<TrainingRowModel>, q: Seq<Example>, now: i64) -> Seq<TrainingRowModel>
    decreases q.len(),
{
    if q.len() == 0 {
        s
    } else {
        asked(asked_all(s, q.drop_last(), now), q.last(), now)
    }
}

/// Whether `r` is what the examples are where numbers ran out before all the questions
/// were added: those before one that is not stored yet are.
pub open spec fn cut_short(
    s: Seq<TrainingRowModel>,
    q: Seq<Example>,
    now: i64,
    r: Seq<TrainingRowModel>,
) -> bool {
    &&& next_training_id(r) > i64::MAX
    &&& exists|k: int|
        0 <= k < q.len() && r == #[trigger] asked_all(s, q.take(k), now) && !asked_already(
            r,
            q[k].domain,
            q[k].user_content,
        )
}

/// The questions of the recalls that the knowledge could not answer.
pub open spec fn weak_questions(episodes: Seq<EpisodeRowModel>, threshold: i64) -> Seq<Example>
    decreases episodes.len(),
{
    if episodes.len() == 0 {
        seq![]
    } else {
        let rest = weak_questions(episodes.drop_last(), threshold);
        match weak_question(episodes.last(), threshold) {
            Some(q) => rest.push(q),
            None => rest,
        }
    }
}

/// The questions that an item of knowledge is asked about by, which depend on its kind.
pub open spec fn topic_questions(k: KnowledgeRowModel) -> Seq<Seq<char>> {
    if k.kind == "rule"@ {
        seq![
            "What does the rule \""@ + k.title + "\" require, and why?"@,
            "You hit a case that violates \""@ + k.title + "\" ("@ + (match k.severity {
                Some(s) => s,
                None => "the stated severity"@,
            }) + "). What's the correct remediation?"@,
            "What's wrong with code or a design that ignores \""@ + k.title + "\"?"@,
        ]
    } else if k.kind == "procedure"@ {
        seq![
            "Outline the procedure \""@ + k.title + "\" step by step."@,
            "How would you apply the procedure \""@ + k.title + "\" to a concrete task?"@,
        ]
    } else {
        seq![
            "What does \""@ + k.title + "\" state?"@,
            "How would you apply \""@ + k.title + "\" in practice?"@,
        ]
    }
}

/// Some questions of a domain that refer to the same thing.
pub open spec fn stubs(domain: Seq<char>, questions: Seq<Seq<char>>, reference: Seq<char>) -> Seq<
    Example,
> {
    Seq::new(questions.len(), |i: int| stub(domain, questions[i], "grounded"@, reference))
}

/// Whether an item is one that questions are asked about.
pub open spec fn is_topic(k: KnowledgeRowModel, domain: Seq<char>, stage: Option<Seq<char>>) -> bool {
    k.domain == domain && (stage matches Some(s) ==> k.stage == Some(s))
}

/// The questions about some knowledge of a domain.
pub open spec fn knowledge_questions(
    domain: Seq<char>,
    stage: Option<Seq<char>>,
    knowledge: Seq<KnowledgeRowModel>,
) -> Seq<Example>
    decreases knowledge.len(),
{
    if knowledge.len() == 0 {
        seq![]
    } else {
        let rest = knowledge_questions(domain, stage, knowledge.drop_last());
        let k = knowledge.last();
        if is_topic(k, domain, stage) {
            rest + stubs(domain, topic_questions(k), "knowledge:#"@ + decimal(k.id as int))
        } else {
            rest
        }
    }
}

/// The question about a stage.
pub open spec fn stage_question(s: StageRowModel) -> Seq<char> {
    match s.description {
        Some(d) => if d.len() > 0 {
            "Walk through the \""@ + s.name + "\" stage ("@ + d
                + "). What must you verify, and in what order?"@
        } else {
            "Walk through the \""@ + s.name + "\" stage. What must you verify, and in what order?"@
        },
        None => "Walk through the \""@ + s.name
            + "\" stage. What must you verify, and in what order?"@,
    }
}

/// The questions about some stages.
pub open spec fn stage_questions(
    domain: Seq<char>,
    stage: Option<Seq<char>>,
    stages: Seq<StageRowModel>,
) -> Seq<Example>
    decreases stages.len(),
{
    if stages.len() == 0 {
        seq![]
    } else {
        let rest = stage_questions(domain, stage, stages.drop_last());
        let s = stages.last();
        if stage matches Some(t) && s.name != t {
            rest
        } else {
            rest.push(stub(domain, stage_question(s), "grounded"@, "stage:"@ + s.name))
        }
    }
}

/// The questions about a domain: first about its knowledge, then about its stages.
pub open spec fn seed_questions(
    domain: Seq<char>,
    stage: Option<Seq<char>>,
    knowledge: Seq<KnowledgeRowModel>,
    stages: Seq<StageRowModel>,
) -> Seq<Example> {
    knowledge_questions(domain, stage, knowledge) + stage_questions(domain, stage, stages)
}

// ---- questions, computed --------------------------------------------------

/// A question that is about to be stored.
#[derive(Debug)]
pub struct Question {
    pub domain: String,
    pub question: String,
    pub label: String,
    pub reference: String,
}

impl View for Question {
    type V = Example;

    open spec fn view(&self) -> Example {
        stub(self.domain@, self.question@, self.label@, self.reference@)
    }
}

fn parse_recall_action(action: &str) -> (r: Option<(String, String)>)
    ensures
        match r {
            Some(x) => recall_of(action@) == Some((x.0@, x.1@)),
            None => recall_of(action@) is None,
        },
{
    let rest: String = match strip_prefix(action, "recall domain=") {
        Some(t) => t,
        None => {
            return None;
        },
    };
    match split_once(rest.as_str(), " query=") {
        Some(x) => {
            if x.0.as_str().is_empty() || x.1.as_str().is_empty() {
                None
            } else {
                Some(x)
            }
        },
        None => None,
    }
}

fn parse_hits(observation: &str) -> (r: Option<i64>)
    ensures
        match r {
            Some(n) => hits_of(observation@) == Some(n as int),
            None => hits_of(observation@) is None,
        },
{
    match strip_prefix(observation, "returned ") {
        Some(rest) => {
            let w: Vec<String> = split_words(rest.as_str());
            assert(texts(w@).len() == w@.len());
            if w.len() == 0 {
                None
            } else {
                assert(texts(w@)[0] == w@[0]@);
                parse_i64(w[0].as_str())
            }
        },
        None => None,
    }
}

fn weak_question_of(e: &EpisodeRow, threshold: i64) -> (r: Option<Question>)
    ensures
        match r {
            Some(q) => weak_question(e@, threshold) == Some(q@),
            None => weak_question(e@, threshold) is None,
        },
{
    if !is_text(&e.stage, "recall") {
        return None;
    }
    let x: (String, String) = match &e.action {
        Some(a) => match parse_recall_action(a.as_str()) {
            Some(x) => x,
            None => {
                return None;
            },
        },
        None => {
            return None;
        },
    };
    let blocked: bool = is_text(&e.outcome, "blocked") || is_text(&e.outcome, "error");
    let few: bool = match &e.observation {
        Some(o) => match parse_hits(o.as_str()) {
            Some(n) => n <= threshold,
            None => false,
        },
        None => false,
    };
    if blocked || few {
        let mut reference: String = "episode:".to_owned();
        reference.append(e.run_id.as_str());
        reference.append("/");
        reference.append(number(e.step as i128).as_str());
        let label: String = if blocked { "refusal".to_owned() } else { "grounded".to_owned() };
        Some(Question { domain: x.0, question: x.1, label, reference })
    } else {
        None
    }
}

fn wrapped(a: &str, b: &str, c: &str) -> (r: String)
    ensures
        r@ == a@ + b@ + c@,
{
    let mut r: String = a.to_owned();
    r.append(b);
    r.append(c);
    r
}

fn questions_on(k: &KnowledgeRow) -> (r: Vec<String>)
    ensures
        texts(r@) == topic_questions(k@),
{
    let t: &str = k.title.as_str();
    let mut r: Vec<String> = Vec::new();
    if same(k.kind.as_str(), "rule") {
        let severity: &str = match &k.severity {
            Some(s) => s.as_str(),
            None => "the stated severity",
        };
        let mut second: String = wrapped("You hit a case that violates \"", t, "\" (");
        second.append(severity);
        second.append("). What's the correct remediation?");
        r.push(wrapped("What does the rule \"", t, "\" require, and why?"));
        r.push(second);
        r.push(wrapped("What's wrong with code or a design that ignores \"", t, "\"?"));
    } else if same(k.kind.as_str(), "procedure") {
        r.push(wrapped("Outline the procedure \"", t, "\" step by step."));
        r.push(wrapped("How would you apply the procedure \"", t, "\" to a concrete task?"));
    } else {
        r.push(wrapped("What does \"", t, "\" state?"));
        r.push(wrapped("How would you apply \"", t, "\" in practice?"));
    }
    assert(texts(r@) =~= topic_questions(k@));
    r
}

fn question_on_stage(s: &StageRow) -> (r: String)
    ensures
        r@ == stage_question(s@),
{
    if let Some(d) = &s.description {
        if !d.as_str().is_empty() {
            let mut r: String = wrapped("Walk through the \"", s.name.as_str(), "\" stage (");
            r.append(d.as_str());
            r.append("). What must you verify, and in what order?");
            return r;
        }
    }
    wrapped(
        "Walk through the \"",
        s.name.as_str(),
        "\" stage. What must you verify, and in what order?",
    )
}

fn put_stubs(out: &mut Vec<Question>, domain: &str, questions: &Vec<String>, reference: &str)
    ensures
        models(final(out)@) == models(old(out)@) + stubs(domain@, texts(questions@), reference@),
{
    let ghost new = stubs(domain@, texts(questions@), reference@);
    let ghost s = models(out@);
    let mut i: usize = 0;
    assert(models(out@) =~= s + new.take(0));
    while i < questions.len()
        invariant
            i <= questions@.len(),
            new == stubs(domain@, texts(questions@), reference@),
            models(out@) == s + new.take(i as int),
        decreases questions.len() - i,
    {
        broadcast use lemma_models_push;

        let q: Question = Question {
            domain: domain.to_owned(),
            question: questions[i].clone(),
            label: "grounded".to_owned(),
            reference: reference.to_owned(),
        };
        assert(q@ == new[i as int]);
        out.push(q);
        assert(models(out@) =~= s + new.take(i + 1));
        i += 1;
    }
    assert(new.take(i as int) =~= new);
}

fn seeds(
    domain: &str,
    stage: Option<&str>,
    knowledge: &[KnowledgeRow],
    stages: &[StageRow],
) -> (r: Vec<Question>)
    ensures
        models(r@) == seed_questions(
            domain@,
            opt_str(stage),
            models(knowledge@),
            models(stages@),
        ),
{
    let ghost st = opt_str(stage);
    let ghost ks = models(knowledge@);
    let ghost ss = models(stages@);
    let mut r: Vec<Question> = Vec::new();
    let mut i: usize = 0;
    assert(models(r@) =~= knowledge_questions(domain@, st, ks.take(0)));
    while i < knowledge.len()
        invariant
            i <= knowledge@.len(),
            ks == models(knowledge@),
            st == opt_str(stage),
            models(r@) == knowledge_questions(domain@, st, ks.take(i as int)),
        decreases knowledge.len() - i,
    {
        assert(ks.take(i + 1).drop_last() =~= ks.take(i as int));
        let k: &KnowledgeRow = &knowledge[i];
        let on_stage: bool = match stage {
            Some(s) => is_text(&k.stage, s),
            None => true,
        };
        if same(k.domain.as_str(), domain) && on_stage {
            let mut reference: String = "knowledge:#".to_owned();
            reference.append(number(k.id as i128).as_str());
            put_stubs(&mut r, domain, &questions_on(k), reference.as_str());
        }
        i += 1;
    }
    assert(ks.take(i as int) =~= ks);
    let ghost first = models(r@);
    let mut j: usize = 0;
    assert(models(r@) =~= first + stage_questions(domain@, st, ss.take(0)));
    while j < stages.len()
        invariant
            j <= stages@.len(),
            ss == models(stages@),
            st == opt_str(stage),
            models(r@) == first + stage_questions(domain@, st, ss.take(j as int)),
        decreases stages.len() - j,
    {
        broadcast use lemma_models_push;

        assert(ss.take(j + 1).drop_last() =~= ss.take(j as int));
        let s: &StageRow = &stages[j];
        let asked: bool = match stage {
            Some(t) => same(s.name.as_str(), t),
            None => true,
        };
        if asked {
            let mut reference: String = "stage:".to_owned();
            reference.append(s.name.as_str());
            let q: Question = Question {
                domain: domain.to_owned(),
                question: question_on_stage(s),
                label: "grounded".to_owned(),
                reference,
            };
            let ghost one = q@;
            let ghost before = models(r@);
            r.push(q);
            assert(models(r@) =~= before.push(one));
            assert(models(r@) =~= first + stage_questions(domain@, st, ss.take(j + 1)));
        }
        j += 1;
    }
    assert(ss.take(j as int) =~= ss);
    r
}

// ---- exporting ------------------------------------------------------------

fn put_message(s: &mut String, role: &str, content: &str)
    ensures
        final(s)@ == old(s)@ + message(role@, content@),
{
    let ghost before = s@;
    s.append("{\"content\":");
    s.append(quote(content).as_str());
    s.append(",\"role\":");
    s.append(quote(role).as_str());
    s.append("}");
    assert(s@ =~= before + message(role@, content@));
}

fn put_example(s: &mut String, r: &TrainingRow)
    ensures
        final(s)@ == old(s)@ + example_line(r@),
{
    let ghost before = s@;
    s.append("{\"messages\":[");
    if let Some(p) = &r.system_prompt {
        put_message(s, "system", p.as_str());
        s.append(",");
    }
    put_message(s, "user", r.user_content.as_str());
    s.append(",");
    match &r.assistant_content {
        Some(a) => put_message(s, "assistant", a.as_str()),
        None => {
            let none: String = String::new();
            assert(none@ =~= seq![]);
            put_message(s, "assistant", none.as_str())
        },
    }
    s.append("]}\n");
    assert(s@ =~= before + example_line(r@));
}

/// A name made fit for a file.
pub fn sanitize_filename(s: &str) -> (r: String)
    ensures
        r@ == file_stem(s@),
{
    let v: Vec<char> = chars(s);
    let mut out: Vec<char> = Vec::new();
    let mut i: usize = 0;
    while i < v.len()
        invariant
            i <= v@.len(),
            v@ == s@,
            out@ =~= file_stem(s@).take(i as int),
        decreases v.len() - i,
    {
        let c: char = v[i];
        if c.is_alphanumeric() || c == '-' || c == '_' {
            out.push(c);
        } else {
            out.push('_');
        }
        i += 1;
    }
    let r: String = text(&out);
    assert(r@ =~= file_stem(s@));
    r
}

/// The path of a file in a directory.
pub fn join_path(dir: &str, name: &str) -> (r: String)
    ensures
        r@ == path_in(dir@, name@),
{
    let v: Vec<char> = chars(dir);
    let mut r: String = dir.to_owned();
    if v.len() > 0 && v[v.len() - 1] != '/' {
        r.append("/");
    }
    r.append(name);
    r
}

impl TrainStore {
    /// A store without an example.
    pub fn new() -> (r: Self)
        ensures
            r@ == Seq::<TrainingRowModel>::empty(),
    {
        let r: TrainStore = TrainStore { rows: Vec::new() };
        assert(r@ =~= Seq::<TrainingRowModel>::empty());
        r
    }

    fn insert_row(
        &mut self,
        domain: &str,
        system_prompt: Option<&str>,
        user_content: &str,
        assistant_content: Option<&str>,
        label_type: &str,
        trust: &str,
        provenance: &str,
        retrieval_ref: Option<&str>,
        verify_log: Option<&str>,
        now: i64,
    ) -> (r: Option<i64>)
        ensures
            match r {
                Some(id) => id == next_training_id(old(self)@) && final(self)@ == captured(
                    old(self)@,
                    (Example {
                        domain: domain@,
                        system_prompt: opt_str(system_prompt),
                        user_content: user_content@,
                        assistant_content: opt_str(assistant_content),
                        label_type: label_type@,
                        trust: trust@,
                        provenance: provenance@,
                        retrieval_ref: opt_str(retrieval_ref),
                        verify_log: opt_str(verify_log),
                    }),
                    now,
                ),
                None => next_training_id(old(self)@) > i64::MAX && final(self)@ == old(self)@,
            },
    {
        broadcast use lemma_models_push;

        let number_of = |r: &TrainingRow| -> (n: i64)
            ensures
                n == r@.id,
            { r.id };
        let id: i64 = match next_id(&self.rows, number_of, Ghost(|r: TrainingRowModel| r.id)) {
            Some(n) => n,
            None => {
                return None;
            },
        };
        let row: TrainingRow = TrainingRow {
            id,
            domain: domain.to_owned(),
            system_prompt: own(system_prompt),
            user_content: user_content.to_owned(),
            assistant_content: own(assistant_content),
            label_type: label_type.to_owned(),
            trust: trust.to_owned(),
            provenance: provenance.to_owned(),
            retrieval_ref: own(retrieval_ref),
            verify_log: own(verify_log),
            created_at: now,
            updated_at: now,
        };
        self.rows.push(row);
        Some(id)
    }

    /// Stores a candidate: it is proposed, and whoever hands it in says where it comes
    /// from. Gives its number; `None`, and nothing stored, where no number is left.
    pub fn capture_example(
        &mut self,
        domain: &str,
        system_prompt: Option<&str>,
        user_content: &str,
        assistant_content: Option<&str>,
        label_type: &str,
        provenance: &str,
        retrieval_ref: Option<&str>,
        verify_log: Option<&str>,
        now: i64,
    ) -> (r: Option<i64>)
        ensures
            match r {
                Some(id) => id == next_training_id(old(self)@) && final(self)@ == captured(
                    old(self)@,
                    (Example {
                        domain: domain@,
                        system_prompt: opt_str(system_prompt),
                        user_content: user_content@,
                        assistant_content: opt_str(assistant_content),
                        label_type: label_type@,
                        trust: "proposed"@,
                        provenance: provenance@,
                        retrieval_ref: opt_str(retrieval_ref),
                        verify_log: opt_str(verify_log),
                    }),
                    now,
                ),
                None => next_training_id(old(self)@) > i64::MAX && final(self)@ == old(self)@,
            },
    {
        self.insert_row(
            domain,
            system_prompt,
            user_content,
            assistant_content,
            label_type,
            "proposed",
            provenance,
            retrieval_ref,
            verify_log,
            now,
        )
    }

    /// Stores an example that a person wrote: it can be exported at once. Gives its
    /// number; `None`, and nothing stored, where no number is left.
    pub fn author_example(
        &mut self,
        domain: &str,
        system_prompt: Option<&str>,
        user_content: &str,
        assistant_content: &str,
        label_type: &str,
        retrieval_ref: Option<&str>,
        verify_log: Option<&str>,
        now: i64,
    ) -> (r: Option<i64>)
        ensures
            match r {
                Some(id) => id == next_training_id(old(self)@) && final(self)@ == captured(
                    old(self)@,
                    (Example {
                        domain: domain@,
                        system_prompt: opt_str(system_prompt),
                        user_content: user_content@,
                        assistant_content: Some(assistant_content@),
                        label_type: label_type@,
                        trust: "user"@,
                        provenance: "human"@,
                        retrieval_ref: opt_str(retrieval_ref),
                        verify_log: opt_str(verify_log),
                    }),
                    now,
                ),
                None => next_training_id(old(self)@) > i64::MAX && final(self)@ == old(self)@,
            },
    {
        self.insert_row(
            domain,
            system_prompt,
            user_content,
            Some(assistant_content),
            label_type,
            "user",
            "human",
            retrieval_ref,
            verify_log,
            now,
        )
    }

    /// Promotes a proposed example to a reviewed one. One that comes from the model under
    /// training is refused.
    pub fn promote_example(&mut self, id: i64, now: i64) -> (r: PromoteOutcome)
        ensures
            r == promotion(old(self)@, id),
            final(self)@ == old(self)@.map_values(|t: TrainingRowModel| promoted_row(t, id, now)),
    {
        let can = |t: &TrainingRow| -> (b: bool)
            ensures
                b == is_promotable(t@, id),
            {
                t.id == id && same(t.trust.as_str(), "proposed") && !same(
                    t.provenance.as_str(),
                    "student",
                )
            };
        let found: bool = any(
            &self.rows,
            can,
            Ghost(|t: TrainingRowModel| is_promotable(t, id)),
        );
        let by_id = |t: &TrainingRow| -> (b: bool)
            ensures
                b == (t@.id == id),
            { t.id == id };
        let at: Option<usize> = find_row(
            &self.rows,
            by_id,
            Ghost(|t: TrainingRowModel| t.id == id),
        );
        let r: PromoteOutcome = if found {
            PromoteOutcome::Promoted
        } else {
            match at {
                Some(i) => if same(self.rows[i].provenance.as_str(), "student") && same(
                    self.rows[i].trust.as_str(),
                    "proposed",
                ) {
                    PromoteOutcome::BlockedStudent
                } else {
                    PromoteOutcome::NotFound
                },
                None => PromoteOutcome::NotFound,
            }
        };
        let lift = |t: TrainingRow| -> (q: TrainingRow)
            ensures
                q@ == promoted_row(t@, id, now),
            {
                let mut q: TrainingRow = t;
                if q.id == id && same(q.trust.as_str(), "proposed") && !same(
                    q.provenance.as_str(),
                    "student",
                ) {
                    q.trust = "reviewed".to_owned();
                    q.updated_at = now;
                }
                q
            };
        rewrite(
            &mut self.rows,
            lift,
            Ghost(|t: TrainingRowModel| promoted_row(t, id, now)),
        );
        r
    }

    /// Lists the examples of a domain and a trust tier, where they are given, the newest
    /// first, two hundred at most.
    pub fn list_training(&self, domain: Option<&str>, trust: Option<&str>) -> (r: Vec<TrainingRow>)
        ensures
            models(r@) == training_list(self@, opt_str(domain), opt_str(trust)),
    {
        let keep = |t: &TrainingRow| -> (b: bool)
            ensures
                b == is_listed(t@, opt_str(domain), opt_str(trust)),
            {
                (match domain {
                    Some(d) => same(t.domain.as_str(), d),
                    None => true,
                }) && (match trust {
                    Some(x) => same(t.trust.as_str(), x),
                    None => true,
                })
            };
        let key = |t: &TrainingRow| -> (k: (i64, i64))
            ensures
                k == (t@.updated_at, 0i64),
            { (t.updated_at, 0) };
        let at: Vec<usize> = list(
            &self.rows,
            keep,
            key,
            200,
            Ghost(|t: TrainingRowModel| is_listed(t, opt_str(domain), opt_str(trust))),
            Ghost(|t: TrainingRowModel| (t.updated_at, 0i64)),
        );
        self.rows_at(&at)
    }

    fn rows_at(&self, at: &Vec<usize>) -> (r: Vec<TrainingRow>)
        requires
            forall|i: int| 0 <= i < at@.len() ==> #[trigger] at@[i] < self.rows@.len(),
        ensures
            models(r@) == picked(self@, ints(at@)),
    {
        let copy = |t: &TrainingRow| -> (q: TrainingRow)
            ensures
                q@ == t@,
            { t.clone() };
        let r: Vec<TrainingRow> = map_at(&self.rows, at, copy, Ghost(|t: TrainingRowModel| t));
        assert(models(r@) =~= picked(self@, ints(at@)));
        r
    }

    fn export_rows(&self, domain: &str) -> (r: Vec<TrainingRow>)
        ensures
            models(r@) == exported(self@, domain@),
    {
        let keep = |t: &TrainingRow| -> (b: bool)
            ensures
                b == is_exported(t@, domain@),
            {
                same(t.domain.as_str(), domain) && (same(t.trust.as_str(), "reviewed") || same(
                    t.trust.as_str(),
                    "user",
                )) && (match &t.assistant_content {
                    Some(a) => !a.as_str().is_empty(),
                    None => false,
                })
            };
        let key = |t: &TrainingRow| -> (k: (i64, i64))
            ensures
                k == (reversed_key(t@.id), 0i64),
            { (-1 - t.id, 0) };
        let at: Vec<usize> = list(
            &self.rows,
            keep,
            key,
            usize::MAX,
            Ghost(|t: TrainingRowModel| is_exported(t, domain@)),
            Ghost(|t: TrainingRowModel| (reversed_key(t.id), 0i64)),
        );
        proof {
            crate::table::lemma_listed_len(
                self@,
                |t: TrainingRowModel| is_exported(t, domain@),
                |t: TrainingRowModel| (reversed_key(t.id), 0i64),
            );
            assert(self@.len() == self.rows.len());
        }
        self.rows_at(&at)
    }

    fn export_domains(&self, domain: Option<&str>) -> (r: Vec<String>)
        ensures
            texts(r@) == exported_domains(self@, opt_str(domain)),
    {
        if let Some(d) = domain {
            let mut one: Vec<String> = Vec::new();
            one.push(d.to_owned());
            assert(texts(one@) =~= seq![d@]);
            return one;
        }
        let ghost settled = |t: TrainingRowModel| is_settled(t);
        let ghost name = |t: TrainingRowModel| t.domain;
        let mut all: Vec<String> = Vec::new();
        let mut i: usize = 0;
        proof {
            reveal(Seq::filter);
        }
        assert(texts(all@) =~= self@.take(0).filter(settled).map_values(name));
        while i < self.rows.len()
            invariant
                i <= self.rows@.len(),
                settled == (|t: TrainingRowModel| is_settled(t)),
                name == (|t: TrainingRowModel| t.domain),
                texts(all@) == self@.take(i as int).filter(settled).map_values(name),
            decreases self.rows.len() - i,
        {
            broadcast use crate::text::lemma_texts_push;

            proof {
                reveal(Seq::filter);
            }
            assert(self@.take(i + 1).drop_last() =~= self@.take(i as int));
            let t: &TrainingRow = &self.rows[i];
            if same(t.trust.as_str(), "reviewed") || same(t.trust.as_str(), "user") {
                all.push(t.domain.clone());
                assert(self@.take(i as int).filter(settled).push(self@[i as int]).map_values(name)
                    =~= self@.take(i as int).filter(settled).map_values(name).push(
                    self@[i as int].domain,
                ));
            }
            i += 1;
        }
        assert(self@.take(i as int) =~= self@);
        distinct_texts(&all)
    }

    /// The files of the dataset, one for each domain, and what they hold: the
    /// conversations of the examples that are reviewed or were written by a person, and
    /// have an answer.
    pub fn export_dataset(&self, domain: Option<&str>, out_dir: &str) -> (r: Vec<
        (ExportFile, String),
    >)
        ensures
            written(r@) == files_of(
                self@,
                exported_domains(self@, opt_str(domain)),
                out_dir@,
            ),
    {
        let domains: Vec<String> = self.export_domains(domain);
        let ghost all = texts(domains@);
        let mut r: Vec<(ExportFile, String)> = Vec::new();
        let mut i: usize = 0;
        assert(written(r@) =~= files_of(self@, all.take(0), out_dir@));
        while i < domains.len()
            invariant
                i <= domains@.len(),
                all == texts(domains@),
                written(r@) == files_of(self@, all.take(i as int), out_dir@),
            decreases domains.len() - i,
        {
            assert(all.take(i + 1).drop_last() =~= all.take(i as int));
            let rows: Vec<TrainingRow> = self.export_rows(domains[i].as_str());
            let ghost found = exported(self@, all[i as int]);
            assert(models(rows@).len() == rows@.len());
            if rows.len() > 0 {
                let mut content: String = String::new();
                let mut k: usize = 0;
                assert(content@ =~= example_lines(found.take(0)));
                while k < rows.len()
                    invariant
                        k <= rows@.len(),
                        found == models(rows@),
                        content@ == example_lines(found.take(k as int)),
                    decreases rows.len() - k,
                {
                    assert(found.take(k + 1).drop_last() =~= found.take(k as int));
                    put_example(&mut content, &rows[k]);
                    k += 1;
                }
                assert(found.take(k as int) =~= found);
                let mut name: String = sanitize_filename(domains[i].as_str());
                name.append(".jsonl");
                let file: ExportFile = ExportFile {
                    domain: domains[i].clone(),
                    path: join_path(out_dir, name.as_str()),
                    rows: rows.len(),
                };
                let ghost before = written(r@);
                r.push((file, content));
                assert(written(r@) =~= before.push(file_of(self@, all[i as int], out_dir@)));
            }
            i += 1;
        }
        assert(all.take(i as int) =~= all);
        r
    }

    fn row_exists(&self, domain: &str, user_content: &str) -> (r: bool)
        ensures
            r == asked_already(self@, domain@, user_content@),
    {
        let is = |t: &TrainingRow| -> (b: bool)
            ensures
                b == (t@.domain == domain@ && t@.user_content == user_content@),
            { same(t.domain.as_str(), domain) && same(t.user_content.as_str(), user_content) };
        any(
            &self.rows,
            is,
            Ghost(|t: TrainingRowModel| t.domain == domain@ && t.user_content == user_content@),
        )
    }

    fn ask_all(&mut self, questions: &Vec<Question>, now: i64) -> (r: Option<usize>)
        ensures
            match r {
                Some(n) => final(self)@ == asked_all(old(self)@, models(questions@), now) && n
                    == final(self)@.len() - old(self)@.len(),
                None => cut_short(old(self)@, models(questions@), now, final(self)@),
            },
    {
        let ghost s = old(self)@;
        let ghost all = models(questions@);
        let mut n: usize = 0;
        let mut i: usize = 0;
        assert(all.take(0) =~= seq![]);
        while i < questions.len()
            invariant
                i <= questions@.len(),
                n <= i,
                s == old(self)@,
                all == models(questions@),
                self@ == asked_all(s, all.take(i as int), now),
                n == self@.len() - s.len(),
            decreases questions.len() - i,
        {
            assert(all.take(i + 1).drop_last() =~= all.take(i as int));
            let q: &Question = &questions[i];
            assert(all[i as int] == q@);
            if !self.row_exists(q.domain.as_str(), q.question.as_str()) {
                let id: Option<i64> = self.capture_example(
                    q.domain.as_str(),
                    None,
                    q.question.as_str(),
                    None,
                    q.label.as_str(),
                    "student",
                    Some(q.reference.as_str()),
                    None,
                    now,
                );
                if id.is_none() {
                    assert(self@ == asked_all(s, all.take(i as int), now));
                    return None;
                }
                n += 1;
            }
            i += 1;
        }
        assert(all.take(i as int) =~= all);
        Some(n)
    }

    /// Files the questions of the recalls that the knowledge could not answer, and says
    /// how many they were: those with `threshold` hits at most, and those that were
    /// refused. A question that is stored already is not filed again. `None` where no
    /// numbers are left.
    pub fn queue_weak(&mut self, episodes: &[EpisodeRow], threshold: i64, now: i64) -> (r: Option<
        usize,
    >)
        ensures
            ({
                let questions = weak_questions(models(episodes@), threshold);
                match r {
                    Some(n) => final(self)@ == asked_all(old(self)@, questions, now)
                        && n == final(self)@.len() - old(self)@.len(),
                    None => cut_short(old(self)@, questions, now, final(self)@),
                }
            }),
    {
        let ghost all = models(episodes@);
        let mut questions: Vec<Question> = Vec::new();
        let mut i: usize = 0;
        assert(models(questions@) =~= weak_questions(all.take(0), threshold));
        while i < episodes.len()
            invariant
                i <= episodes@.len(),
                all == models(episodes@),
                models(questions@) == weak_questions(all.take(i as int), threshold),
            decreases episodes.len() - i,
        {
            broadcast use lemma_models_push;

            assert(all.take(i + 1).drop_last() =~= all.take(i as int));
            if let Some(q) = weak_question_of(&episodes[i], threshold) {
                questions.push(q);
            }
            i += 1;
        }
        assert(all.take(i as int) =~= all);
        assert(models(questions@).len() == questions@.len());
        self.ask_all(&questions, now)
    }

    /// Files questions about the knowledge and the stages of a domain, of one stage only
    /// where one is given, and says how many they were. A question that is stored already
    /// is not filed again. `None` where no numbers are left.
    pub fn seed_from_topics(
        &mut self,
        domain: &str,
        stage: Option<&str>,
        knowledge: &[KnowledgeRow],
        stages: &[StageRow],
        now: i64,
    ) -> (r: Option<usize>)
        ensures
            ({
                let questions = seed_questions(
                    domain@,
                    opt_str(stage),
                    models(knowledge@),
                    models(stages@),
                );
                match r {
                    Some(n) => final(self)@ == asked_all(old(self)@, questions, now)
                        && n == final(self)@.len() - old(self)@.len(),
                    None => cut_short(old(self)@, questions, now, final(self)@),
                }
            }),
    {
        let questions: Vec<Question> = seeds(domain, stage, knowledge, stages);
        assert(models(questions@).len() == questions@.len());
        self.ask_all(&questions, now)
    }

    fn count_trust(&self, trust: &str) -> (n: i64)
        ensures
            n == count_of(
                self@.filter(|t: TrainingRowModel| t.trust == trust@).len() as int,
            ),
    {
        let is = |t: &TrainingRow| -> (b: bool)
            ensures
                b == (t@.trust == trust@),
            { same(t.trust.as_str(), trust) };
        as_count(count_rows(&self.rows, is, Ghost(|t: TrainingRowModel| t.trust == trust@)))
    }

    /// How many examples there are.
    pub fn stats(&self) -> (r: TrainStats)
        ensures
            r == (TrainStats {
                total: count_of(self@.len() as int),
                proposed: count_of(
                    self@.filter(|t: TrainingRowModel| t.trust == "proposed"@).len() as int,
                ),
                reviewed: count_of(
                    self@.filter(|t: TrainingRowModel| t.trust == "reviewed"@).len() as int,
                ),
                user: count_of(
                    self@.filter(|t: TrainingRowModel| t.trust == "user"@).len() as int,
                ),
                stubs: count_of(self@.filter(|t: TrainingRowModel| is_stub(t)).len() as int),
            }),
    {
        let empty = |t: &TrainingRow| -> (b: bool)
            ensures
                b == is_stub(t@),
            {
                match &t.assistant_content {
                    Some(a) => a.as_str().is_empty(),
                    None => true,
                }
            };
        TrainStats {
            total: as_count(self.rows.len()),
            proposed: self.count_trust("proposed"),
            reviewed: self.count_trust("reviewed"),
            user: self.count_trust("user"),
            stubs: as_count(
                count_rows(&self.rows, empty, Ghost(|t: TrainingRowModel| is_stub(t))),
            ),
        }
    }

    /// Removes all examples, and says how many they were.
    pub fn clear_all(&mut self) -> (r: usize)
        ensures
            r == old(self)@.len(),
            final(self)@ == Seq::<TrainingRowModel>::empty(),
    {
        let n: usize = self.rows.len();
        self.rows = Vec::new();
        assert(self@ =~= Seq::<TrainingRowModel>::empty());
        n
    }
}

/// What an example is searched by: its question, and its answer where it has one.
pub fn training_body(user_content: &str, assistant_content: Option<&str>) -> (r: String)
    ensures
        r@ == (match assistant_content {
            Some(a) => if a@.len() > 0 {
                user_content@ + "\n"@ + a@
            } else {
                user_content@
            },
            None => user_content@,
        }),
{
    let mut r: String = user_content.to_owned();
    if let Some(a) = assistant_content {
        if !a.is_empty() {
            r.append("\n");
            r.append(a);
        }
    }
    r
}

// ---- what holds of examples -----------------------------------------------

/// Whether no example that comes from the model under training is settled.
pub open spec fn is_guarded(s: Seq<TrainingRowModel>) -> bool {
    forall|i: int|
        0 <= i < s.len() && (#[trigger] s[i]).provenance == "student"@ ==> s[i].trust == "proposed"@
}

/// An example that comes from the model under training is never promoted: its promotion
/// leaves it as it is, and no operation settles one.
pub proof fn students_are_never_promoted(s: Seq<TrainingRowModel>, id: i64, now: i64)
    requires
        is_guarded(s),
    ensures
        is_guarded(s.map_values(|t: TrainingRowModel| promoted_row(t, id, now))),
        forall|i: int|
            0 <= i < s.len() && (#[trigger] s[i]).provenance == "student"@ ==> promoted_row(
                s[i],
                id,
                now,
            ) == s[i],
        forall|e: Example|
            (e.trust == "proposed"@ || e.provenance == "human"@) ==> is_guarded(
                #[trigger] captured(s, e, now),
            ),
{
    reveal_strlit("human");
    reveal_strlit("student");
    let t = s.map_values(|t: TrainingRowModel| promoted_row(t, id, now));
    assert forall|i: int|
        0 <= i < t.len() && (#[trigger] t[i]).provenance == "student"@ implies t[i].trust
        == "proposed"@ by {
        assert(s[i].provenance == "student"@);
    }
    assert forall|e: Example|
        (e.trust == "proposed"@ || e.provenance == "human"@) implies is_guarded(
        #[trigger] captured(s, e, now),
    ) by {
        let c = captured(s, e, now);
        assert forall|i: int|
            0 <= i < c.len() && (#[trigger] c[i]).provenance == "student"@ implies c[i].trust
            == "proposed"@ by {
            if i < s.len() {
                assert(c[i] == s[i]);
            } else {
                assert("human"@.len() != "student"@.len());
            }
        }
    }
}

/// Only examples that are reviewed or were written by a person, and have an answer, are
/// exported; none of them comes from the model under training.
pub proof fn only_settled_examples_are_exported(s: Seq<TrainingRowModel>, domain: Seq<char>)
    requires
        is_guarded(s),
    ensures
        forall|i: int|
            0 <= i < exported(s, domain).len() ==> {
                let r = #[trigger] exported(s, domain)[i];
                s.contains(r) && is_exported(r, domain) && r.provenance != "student"@
            },
        forall|i: int|
            0 <= i < s.len() && is_exported(#[trigger] s[i], domain) ==> exported(
                s,
                domain,
            ).contains(s[i]),
{
    broadcast use vstd::seq_lib::group_filter_ensures;

    reveal_strlit("proposed");
    reveal_strlit("reviewed");
    reveal_strlit("user");
    let p = |r: TrainingRowModel| is_exported(r, domain);
    let key = |r: TrainingRowModel| (reversed_key(r.id), 0i64);
    let f = s.filter(p);
    let all = exported(s, domain);
    crate::table::lemma_positions(s, p);
    lemma_sort_members(f, |a: TrainingRowModel, b: TrainingRowModel| pair_desc(key(a), key(b)));
    assert forall|i: int| 0 <= i < all.len() implies {
        let r = #[trigger] all[i];
        s.contains(r) && is_exported(r, domain) && r.provenance != "student"@
    } by {
        assert(all.contains(all[i]));
        assert(f.contains(all[i]));
        let k = choose|k: int| 0 <= k < f.len() && f[k] == all[i];
        assert(p(f[k]));
        let m = crate::table::positions(s, p)[k];
        assert(f[k] == picked(s, crate::table::positions(s, p))[k]);
        assert(0 <= m < s.len() && s[m] == f[k]);
        assert(s[m].provenance == "student"@ ==> s[m].trust == "proposed"@);
        assert("proposed"@[0] != "reviewed"@[0]);
        assert("proposed"@.len() != "user"@.len());
    }
    assert forall|i: int| 0 <= i < s.len() && is_exported(#[trigger] s[i], domain) implies exported(
        s,
        domain,
    ).contains(s[i]) by {
        assert(p(s[i]));
        assert(f.contains(s[i]));
    }
}

proof fn lemma_asked_step(
    s: Seq<TrainingRowModel>,
    q: Example,
    now: i64,
    domain: Seq<char>,
    question: Seq<char>,
)
    ensures
        asked_already(s, domain, question) ==> asked_already(asked(s, q, now), domain, question),
        asked_already(asked(s, q, now), q.domain, q.user_content),
{
    let t = asked(s, q, now);
    let p = |r: TrainingRowModel| r.domain == domain && r.user_content == question;
    if asked_already(s, domain, question) {
        let i = choose|i: int| 0 <= i < s.len() && p(#[trigger] s[i]);
        assert(p(t[i]));
    }
    if !asked_already(s, q.domain, q.user_content) {
        let z = |r: TrainingRowModel| r.domain == q.domain && r.user_content == q.user_content;
        assert(z(t[s.len() as int]));
    }
}

proof fn lemma_all_asked(s: Seq<TrainingRowModel>, q: Seq<Example>, now: i64)
    ensures
        forall|i: int|
            0 <= i < q.len() ==> asked_already(
                asked_all(s, q, now),
                (#[trigger] q[i]).domain,
                q[i].user_content,
            ),
    decreases q.len(),
{
    if q.len() > 0 {
        let before = asked_all(s, q.drop_last(), now);
        lemma_all_asked(s, q.drop_last(), now);
        assert forall|i: int| 0 <= i < q.len() implies asked_already(
            asked_all(s, q, now),
            (#[trigger] q[i]).domain,
            q[i].user_content,
        ) by {
            if i < q.len() - 1 {
                assert(q.drop_last()[i] == q[i]);
                lemma_asked_step(before, q.last(), now, q[i].domain, q[i].user_content);
            } else {
                lemma_asked_step(before, q.last(), now, q[i].domain, q[i].user_content);
            }
        }
    }
}

proof fn lemma_none_new(s: Seq<TrainingRowModel>, q: Seq<Example>, now: i64)
    requires
        forall|i: int|
            0 <= i < q.len() ==> asked_already(s, (#[trigger] q[i]).domain, q[i].user_content),
    ensures
        asked_all(s, q, now) == s,
    decreases q.len(),
{
    if q.len() > 0 {
        assert forall|i: int| 0 <= i < q.drop_last().len() implies asked_already(
            s,
            (#[trigger] q.drop_last()[i]).domain,
            q.drop_last()[i].user_content,
        ) by {
            assert(q.drop_last()[i] == q[i]);
        }
        lemma_none_new(s, q.drop_last(), now);
        assert(asked_already(s, q[q.len() - 1].domain, q[q.len() - 1].user_content));
    }
}

/// Filing the same questions again files nothing, whenever it is done: neither those of
/// weak recalls nor those about topics.
pub proof fn questions_are_filed_once(
    s: Seq<TrainingRowModel>,
    q: Seq<Example>,
    now: i64,
    later: i64,
)
    ensures
        asked_all(asked_all(s, q, now), q, later) == asked_all(s, q, now),
{
    lemma_all_asked(s, q, now);
    lemma_none_new(asked_all(s, q, now), q, later);
}

} // verus!
