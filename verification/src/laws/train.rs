//! What becomes of training examples: what is promoted, exported and asked.
use vstd::prelude::*;

use crate::json::{json_chars, quoted};
use crate::laws::listing::{lemma_lists, lists};
use crate::order::{lemma_sort_in_order, lemma_sort_members, pair_desc};
use crate::table::{lemma_first_match, reversed_key, some_match};
use crate::text::{decimal, first_at, has, lemma_first_at, stands_at};
use crate::train::{example_line, example_lines, exported, exported_domains, file_of, file_stem};
use crate::train::{files_of, hits_of, is_exported, is_listed, path_in, promoted_row, promotion};
use crate::train::{recall_of, topic_questions, training_list, weak_question, PromoteOutcome};
use crate::train::TrainingRowModel;
use crate::types::{EpisodeRowModel, KnowledgeRowModel};

verus! {

proof fn lemma_plain_quoted(s: Seq<char>)
    requires
        forall|i: int| 0 <= i < s.len() ==> 'a' <= #[trigger] s[i] && s[i] <= 'z',
    ensures
        json_chars(s) == s,
        quoted(s) == seq!['"'] + s + seq!['"'],
    decreases s.len(),
{
    if s.len() > 0 {
        lemma_plain_quoted(s.drop_last());
        assert('a' <= s[s.len() - 1] && s[s.len() - 1] <= 'z');
        assert(json_chars(s) =~= s);
    } else {
        assert(json_chars(s) =~= s);
    }
}

/// In the line of an example the question is what the user says and the answer is what the
/// assistant says, in that order, behind what the system says where that is given.
pub proof fn exported_lines_name_the_speakers(
    r: TrainingRowModel,
    question: Seq<char>,
    answer: Seq<char>,
)
    requires
        r.user_content == question,
        r.assistant_content == Some(answer),
    ensures
        r.system_prompt is None ==> example_line(r) == "{\"messages\":[{\"content\":"@ + quoted(
            question,
        ) + ",\"role\":\"user\"},{\"content\":"@ + quoted(answer) + ",\"role\":\"assistant\"}]}\n"@,
        r.system_prompt matches Some(system) ==> example_line(r) == "{\"messages\":[{\"content\":"@
            + quoted(system) + ",\"role\":\"system\"},{\"content\":"@ + quoted(question)
            + ",\"role\":\"user\"},{\"content\":"@ + quoted(answer)
            + ",\"role\":\"assistant\"}]}\n"@,
{
    reveal_strlit("user");
    reveal_strlit("assistant");
    reveal_strlit("system");
    lemma_plain_quoted("user"@);
    lemma_plain_quoted("assistant"@);
    lemma_plain_quoted("system"@);
    reveal_strlit("{\"content\":");
    reveal_strlit(",\"role\":");
    reveal_strlit("}");
    reveal_strlit(",");
    reveal_strlit("{\"messages\":[");
    reveal_strlit("]}\n");
    reveal_strlit("{\"messages\":[{\"content\":");
    reveal_strlit(",\"role\":\"user\"},{\"content\":");
    reveal_strlit(",\"role\":\"system\"},{\"content\":");
    reveal_strlit(",\"role\":\"assistant\"}]}\n");
    match r.system_prompt {
        None => {
            assert(example_line(r) =~= "{\"messages\":[{\"content\":"@ + quoted(question)
                + ",\"role\":\"user\"},{\"content\":"@ + quoted(answer)
                + ",\"role\":\"assistant\"}]}\n"@);
        },
        Some(system) => {
            assert(example_line(r) =~= "{\"messages\":[{\"content\":"@ + quoted(system)
                + ",\"role\":\"system\"},{\"content\":"@ + quoted(question)
                + ",\"role\":\"user\"},{\"content\":"@ + quoted(answer)
                + ",\"role\":\"assistant\"}]}\n"@);
        },
    }
}

/// The lines of a file are those of its examples one after the other.
pub proof fn lines_follow_each_other(
    a: Seq<TrainingRowModel>,
    b: Seq<TrainingRowModel>,
    r: TrainingRowModel,
)
    ensures
        example_lines(a + b) == example_lines(a) + example_lines(b),
        example_lines(seq![r]) == example_line(r),
    decreases b.len(),
{
    reveal_with_fuel(example_lines, 2);
    assert(seq![r].drop_last() =~= seq![]);
    assert(example_lines(seq![r]) =~= example_line(r));
    if b.len() == 0 {
        assert(a + b =~= a);
        assert(example_lines(a + b) =~= example_lines(a) + example_lines(b));
    } else {
        assert((a + b).drop_last() =~= a + b.drop_last());
        lines_follow_each_other(a, b.drop_last(), r);
        assert(example_lines(a + b) =~= example_lines(a) + example_lines(b));
    }
}

/// What is exported with a domain: its examples that are reviewed or written by a person
/// and have an answer, all of them, in the order of their numbers.
pub proof fn settled_examples_are_exported_in_order(s: Seq<TrainingRowModel>, domain: Seq<char>)
    ensures
        ({
            let rows = exported(s, domain);
            &&& forall|r: TrainingRowModel| #[trigger]
                rows.contains(r) <==> s.contains(r) && r.domain == domain && (r.trust == "reviewed"@
                    || r.trust == "user"@) && (r.assistant_content matches Some(a) && a.len() > 0)
            &&& forall|i: int, j: int|
                0 <= i < j < rows.len() ==> (#[trigger] rows[i]).id <= (#[trigger] rows[j]).id
        }),
{
    broadcast use vstd::seq_lib::group_filter_ensures;

    let p = |r: TrainingRowModel| is_exported(r, domain);
    let key = |r: TrainingRowModel| (reversed_key(r.id), 0i64);
    let le = |a: TrainingRowModel, b: TrainingRowModel| pair_desc(key(a), key(b));
    let f = s.filter(p);
    let rows = exported(s, domain);
    lemma_sort_members(f, le);
    lemma_sort_in_order(f, le);
    assert forall|r: TrainingRowModel| #[trigger] rows.contains(r) <==> s.contains(r) && r.domain
        == domain && (r.trust == "reviewed"@ || r.trust == "user"@) && (
    r.assistant_content matches Some(a) && a.len() > 0) by {
        if rows.contains(r) {
            s.lemma_filter_contains_rev(p, r);
            assert(p(f[f.index_of(r)]));
        }
        if s.contains(r) && p(r) {
            assert(f.contains(s[s.index_of(r)]));
        }
    }
    assert forall|i: int, j: int| 0 <= i < j < rows.len() implies (#[trigger] rows[i]).id <= (
    #[trigger] rows[j]).id by {
        assert(le(rows[i], rows[j]));
    }
}

/// A domain that has something to export gives one file, named after it, with as many rows
/// as it has examples to export; a domain that has nothing gives none.
pub proof fn each_domain_has_its_file(s: Seq<TrainingRowModel>, domain: Seq<char>, dir: Seq<char>)
    ensures
        ({
            let files = files_of(s, exported_domains(s, Some(domain)), dir);
            let rows = exported(s, domain);
            &&& rows.len() == 0 ==> files.len() == 0
            &&& rows.len() > 0 ==> files.len() == 1 && files[0].domain == domain && files[0].rows
                == rows.len() && files[0].content == example_lines(rows)
        }),
{
    reveal_with_fuel(files_of, 2);
    assert(seq![domain].drop_last() =~= seq![]);
}

/// A promotion makes a proposal of a teacher reviewed, and leaves every other example as
/// it is: one of a student above all.
pub proof fn promotion_changes_one_proposal(
    s: Seq<TrainingRowModel>,
    id: i64,
    now: i64,
    i: int,
)
    requires
        0 <= i < s.len(),
    ensures
        ({
            let r = s[i];
            let q = promoted_row(r, id, now);
            &&& r.id == id && r.trust == "proposed"@ && r.provenance != "student"@ ==> q == (
            TrainingRowModel { trust: "reviewed"@, updated_at: now, ..r }) && promotion(s, id)
                == PromoteOutcome::Promoted
            &&& r.id != id || r.trust != "proposed"@ || r.provenance == "student"@ ==> q == r
        }),
        (forall|j: int| 0 <= j < s.len() && j != i ==> (#[trigger] s[j]).id != id) && s[i].id == id
            ==> (promotion(s, id) == PromoteOutcome::BlockedStudent <==> s[i].provenance
            == "student"@ && s[i].trust == "proposed"@),
        (forall|j: int| 0 <= j < s.len() ==> (#[trigger] s[j]).id != id) ==> promotion(s, id)
            == PromoteOutcome::NotFound,
{
    let can = |r: TrainingRowModel| crate::train::is_promotable(r, id);
    let own = |r: TrainingRowModel| r.id == id;
    lemma_first_match(s, own);
    if can(s[i]) {
        assert(some_match(s, can));
    }
    if s[i].id == id {
        assert(own(s[i]));
    }
}

/// The examples are listed the latest first, two hundred at most, and none of the domain
/// and the tier that are asked for is left out for less.
pub proof fn the_latest_examples_are_listed(
    s: Seq<TrainingRowModel>,
    domain: Option<Seq<char>>,
    trust: Option<Seq<char>>,
)
    ensures
        lists(
            training_list(s, domain, trust),
            s,
            |r: TrainingRowModel|
                (domain matches Some(d) ==> r.domain == d) && (trust matches Some(t) ==> r.trust
                    == t),
            |r: TrainingRowModel| r.updated_at as int,
            200,
        ),
{
    let p = |r: TrainingRowModel| is_listed(r, domain, trust);
    let q = |r: TrainingRowModel|
        (domain matches Some(d) ==> r.domain == d) && (trust matches Some(t) ==> r.trust == t);
    assert(p =~= q);
    lemma_lists(
        s,
        p,
        |r: TrainingRowModel| (r.updated_at, 0i64),
        |r: TrainingRowModel| r.updated_at as int,
        200,
    );
}

/// A recall that was refused, failed, or gave no more hits than the threshold is asked
/// again as a question of its domain, without an answer, proposed, of the student; it is
/// to be refused where the recall was. Any other recall is not.
pub proof fn weak_recalls_are_asked_again(
    e: EpisodeRowModel,
    domain: Seq<char>,
    query: Seq<char>,
    threshold: i64,
)
    requires
        e.stage == Some("recall"@),
        e.action == Some("recall domain="@ + domain + " query="@ + query),
        domain.len() > 0,
        query.len() > 0,
        forall|i: int| 0 <= i < domain.len() ==> #[trigger] domain[i] != ' ',
    ensures
        ({
            let refused = e.outcome == Some("blocked"@) || e.outcome == Some("error"@);
            let few = e.observation matches Some(o) && (hits_of(o) matches Some(n) && n <= threshold);
            &&& weak_question(e, threshold) is Some <==> refused || few
            &&& weak_question(e, threshold) matches Some(q) ==> {
                &&& q.domain == domain && q.user_content == query
                &&& q.assistant_content is None && q.system_prompt is None
                &&& q.trust == "proposed"@ && q.provenance == "student"@
                &&& q.label_type == if refused {
                    "refusal"@
                } else {
                    "grounded"@
                }
                &&& q.retrieval_ref == Some(
                    "episode:"@ + e.run_id + "/"@ + decimal(e.step as int),
                )
            }
        }),
{
    reveal_strlit("recall domain=");
    reveal_strlit(" query=");
    let action = e.action->0;
    let n = "recall domain="@.len() as int;
    let m = " query="@.len() as int;
    assert(action.subrange(0, n) =~= "recall domain="@);
    let rest = domain + " query="@ + query;
    assert(action.skip(n) =~= rest);
    let at = domain.len() as int;
    assert(rest.subrange(at, at + m) =~= " query="@);
    assert(stands_at(rest, " query="@, at));
    lemma_first_at(rest, " query="@, 0);
    let f = first_at(rest, " query="@, 0)->0;
    if f < at {
        assert(rest.subrange(f, f + m)[0] == domain[f]);
    }
    assert(rest.take(at) =~= domain);
    assert(rest.skip(at + m) =~= query);
    assert(recall_of(action) == Some((domain, query)));
}

/// Every question about an item names it in quotes. There are three about a rule, one of
/// which tells its severity, and two about anything else.
pub proof fn questions_name_their_topic(k: KnowledgeRowModel)
    ensures
        ({
            let q = topic_questions(k);
            let named = "\""@ + k.title + "\""@;
            &&& q.len() == if k.kind == "rule"@ {
                3int
            } else {
                2int
            }
            &&& forall|i: int| 0 <= i < q.len() ==> has(#[trigger] q[i], named)
            &&& forall|i: int, j: int|
                0 <= i < j < q.len() ==> (#[trigger] q[i]) != (#[trigger] q[j])
            &&& k.kind == "rule"@ ==> (k.severity matches Some(s) ==> has(
                q[1],
                "("@ + s + ")"@,
            ))
        }),
{
    reveal_strlit("\"");
    reveal_strlit("(");
    reveal_strlit(")");
    reveal_strlit("the stated severity");
    reveal_strlit("What does the rule \"");
    reveal_strlit("\" require, and why?");
    reveal_strlit("You hit a case that violates \"");
    reveal_strlit("\" (");
    reveal_strlit("). What's the correct remediation?");
    reveal_strlit("What's wrong with code or a design that ignores \"");
    reveal_strlit("\"?");
    reveal_strlit("Outline the procedure \"");
    reveal_strlit("\" step by step.");
    reveal_strlit("How would you apply the procedure \"");
    reveal_strlit("\" to a concrete task?");
    reveal_strlit("What does \"");
    reveal_strlit("\" state?");
    reveal_strlit("How would you apply \"");
    reveal_strlit("\" in practice?");
    let q = topic_questions(k);
    let n = "\""@ + k.title + "\""@;
    let t = k.title.len() as int;
    let at = |i: int|
        if k.kind == "rule"@ {
            if i == 0 {
                "What does the rule \""@.len() - 1
            } else if i == 1 {
                "You hit a case that violates \""@.len() - 1
            } else {
                "What's wrong with code or a design that ignores \""@.len() - 1
            }
        } else if k.kind == "procedure"@ {
            if i == 0 {
                "Outline the procedure \""@.len() - 1
            } else {
                "How would you apply the procedure \""@.len() - 1
            }
        } else if i == 0 {
            "What does \""@.len() - 1
        } else {
            "How would you apply \""@.len() - 1
        };
    assert forall|i: int| 0 <= i < q.len() implies has(#[trigger] q[i], n) by {
        assert(q[i].subrange(at(i), at(i) + t + 2) =~= n);
        assert(stands_at(q[i], n, at(i)));
    }
    if k.kind == "rule"@ {
        assert(q[0][0] == 'W' && q[1][0] == 'Y' && q[2][0] == 'W');
        assert(q[0][4] == ' ' && q[2][4] == '\'');
        if let Some(s) = k.severity {
            let p = "("@ + s + ")"@;
            let from = "You hit a case that violates \""@.len() + t + 2;
            assert(q[1].subrange(from, from + s.len() + 2) =~= p);
            assert(stands_at(q[1], p, from));
        }
    } else if k.kind == "procedure"@ {
        assert(q[0][0] == 'O' && q[1][0] == 'H');
    } else {
        assert(q[0][0] == 'W' && q[1][0] == 'H');
    }
}

/// The file of a domain is named by it, with an underscore for each character that is no
/// letter, digit, dash or underscore.
pub proof fn files_are_named_by_domain(
    s: Seq<TrainingRowModel>,
    domain: Seq<char>,
    dir: Seq<char>,
    i: int,
)
    requires
        dir.len() > 0,
        dir.last() != '/',
        0 <= i < domain.len(),
    ensures
        file_of(s, domain, dir).path == dir + seq!['/'] + file_stem(domain) + ".jsonl"@,
        file_of(s, domain, dir + seq!['/']).path == dir + seq!['/'] + file_stem(domain) + ".jsonl"@,
        file_stem(domain).len() == domain.len(),
        file_stem(domain)[i] == if crate::unicode::alphanumeric(domain[i]) || domain[i] == '-'
            || domain[i] == '_' {
            domain[i]
        } else {
            '_'
        },
{
    reveal_strlit("/");
    assert("/"@ =~= seq!['/']);
    let n = file_stem(domain) + ".jsonl"@;
    assert(path_in(dir, n) =~= dir + seq!['/'] + file_stem(domain) + ".jsonl"@);
    assert(path_in(dir + seq!['/'], n) =~= dir + seq!['/'] + file_stem(domain) + ".jsonl"@);
}

/// An example is exported where it is of the domain, was reviewed or given by a user, and
/// has an answer.
pub proof fn answered_examples_are_exported(r: TrainingRowModel, domain: Seq<char>)
    ensures
        is_exported(r, domain) <==> r.domain == domain && (r.trust == "reviewed"@ || r.trust
            == "user"@) && (r.assistant_content matches Some(a) && a.len() > 0),
{
}

} // verus!
