//! How items of knowledge are changed, and how conflicts between them end.
use vstd::prelude::*;

use crate::store::{Conflict, KnowledgeItemModel, StoreModel};
use crate::store::knowledge::{edited_item, forgotten, is_resolution, known, merge_note, opponent};
use crate::store::knowledge::{promotable, promoted, resolved, retained_item, with_source, Edit};
use crate::table::lemma_first_match;
use crate::text::decimal;
use crate::types::{kind_name, kind_named, trust_name, trust_named, Kind, SourceRowModel, Trust};

verus! {

/// Keeping both ends the conflict and changes nothing else.
pub proof fn keeping_keeps_both(s: StoreModel, id: i64, other: i64)
    ensures
        ({
            let t = resolved(s, id, other, "keep"@);
            &&& t.knowledge.len() == s.knowledge.len()
            &&& forall|i: int|
                0 <= i < s.knowledge.len() ==> #[trigger] t.knowledge[i] == if s.knowledge[i].id
                    == id || s.knowledge[i].id == other {
                    KnowledgeItemModel {
                        conflict_status: Some(Conflict::Resolved),
                        ..s.knowledge[i]
                    }
                } else {
                    s.knowledge[i]
                }
            &&& t == (StoreModel { knowledge: t.knowledge, ..s })
        }),
{
}

/// Accepting an item takes the other one out, and leaves the texts as they are.
pub proof fn accepting_takes_the_other_out(s: StoreModel, id: i64, other: i64)
    requires
        id != other,
    ensures
        ({
            let t = resolved(s, id, other, "accept"@);
            &&& forall|k: KnowledgeItemModel| #[trigger]
                t.knowledge.contains(k) ==> k.id != other && exists|i: int|
                    0 <= i < s.knowledge.len() && (#[trigger] s.knowledge[i]).id == k.id
                        && s.knowledge[i].title == k.title && s.knowledge[i].body == k.body
                        && s.knowledge[i].trust == k.trust
            &&& forall|i: int|
                0 <= i < s.knowledge.len() && (#[trigger] s.knowledge[i]).id != other
                    && s.knowledge[i].id != id ==> t.knowledge.contains(s.knowledge[i])
            &&& forall|i: int|
                0 <= i < s.knowledge.len() && (#[trigger] s.knowledge[i]).id == id
                    ==> t.knowledge.contains(
                    KnowledgeItemModel {
                        conflict_with_id: None,
                        conflict_status: Some(Conflict::Resolved),
                        ..s.knowledge[i]
                    },
                )
        }),
{
    reveal_strlit("keep");
    reveal_strlit("accept");
    assert("keep"@.len() == 4 && "accept"@.len() == 6);
    let t = resolved(s, id, other, "accept"@);
    let p = |r: KnowledgeItemModel| r.id != other;
    let f = s.knowledge.filter(p);
    crate::laws::domains::lemma_kept(s.knowledge, p);
    assert forall|k: KnowledgeItemModel| #[trigger] t.knowledge.contains(k) implies k.id != other
        && exists|i: int|
        0 <= i < s.knowledge.len() && (#[trigger] s.knowledge[i]).id == k.id && s.knowledge[i].title
            == k.title && s.knowledge[i].body == k.body && s.knowledge[i].trust == k.trust by {
        let m = t.knowledge.index_of(k);
        assert(f.contains(f[m]));
        let i = s.knowledge.index_of(f[m]);
        assert(s.knowledge[i] == f[m]);
        assert(f[m].body + Seq::<char>::empty() =~= f[m].body);
    }
    assert forall|i: int|
        0 <= i < s.knowledge.len() && (#[trigger] s.knowledge[i]).id != other && s.knowledge[i].id
            != id implies t.knowledge.contains(s.knowledge[i]) by {
        assert(s.knowledge.contains(s.knowledge[i]));
        assert(f.contains(s.knowledge[i]));
        let m = f.index_of(s.knowledge[i]);
        assert(t.knowledge[m] == s.knowledge[i]);
    }
    assert forall|i: int|
        0 <= i < s.knowledge.len() && (#[trigger] s.knowledge[i]).id
            == id implies t.knowledge.contains(
        KnowledgeItemModel {
            conflict_with_id: None,
            conflict_status: Some(Conflict::Resolved),
            ..s.knowledge[i]
        },
    ) by {
        assert(s.knowledge.contains(s.knowledge[i]));
        assert(f.contains(s.knowledge[i]));
        let m = f.index_of(s.knowledge[i]);
        assert(f[m].body + Seq::<char>::empty() =~= f[m].body);
        assert(t.knowledge[m] == (KnowledgeItemModel {
            conflict_with_id: None,
            conflict_status: Some(Conflict::Resolved),
            ..s.knowledge[i]
        }));
    }
}

/// Merging takes the other one out as well, and notes in the body where it went.
pub proof fn merging_notes_the_other(s: StoreModel, id: i64, other: i64)
    requires
        id != other,
    ensures
        ({
            let t = resolved(s, id, other, "merge"@);
            &&& forall|k: KnowledgeItemModel| #[trigger] t.knowledge.contains(k) ==> k.id != other
            &&& forall|i: int|
                0 <= i < s.knowledge.len() && (#[trigger] s.knowledge[i]).id != other
                    && s.knowledge[i].id != id ==> t.knowledge.contains(s.knowledge[i])
            &&& forall|i: int|
                0 <= i < s.knowledge.len() && (#[trigger] s.knowledge[i]).id == id
                    ==> t.knowledge.contains(
                    KnowledgeItemModel {
                        body: s.knowledge[i].body + ("\nMerged from knowledge #"@ + decimal(
                            other as int,
                        )),
                        conflict_with_id: None,
                        conflict_status: Some(Conflict::Resolved),
                        ..s.knowledge[i]
                    },
                )
        }),
        merge_note(other) == "\nMerged from knowledge #"@ + decimal(other as int),
{
    reveal_strlit("keep");
    reveal_strlit("accept");
    reveal_strlit("merge");
    assert("keep"@.len() == 4 && "accept"@.len() == 6 && "merge"@.len() == 5);
    let t = resolved(s, id, other, "merge"@);
    let p = |r: KnowledgeItemModel| r.id != other;
    let g = |r: KnowledgeItemModel|
        crate::store::knowledge::settled_item(r, id, merge_note(other));
    let all = s.knowledge.map_values(g);
    crate::laws::domains::lemma_kept(all, p);
    assert(t.knowledge == all.filter(p));
    assert forall|i: int|
        0 <= i < s.knowledge.len() && (#[trigger] s.knowledge[i]).id != other && s.knowledge[i].id
            != id implies t.knowledge.contains(s.knowledge[i]) by {
        assert(all[i] == s.knowledge[i]);
        assert(all.contains(all[i]));
    }
    assert forall|i: int|
        0 <= i < s.knowledge.len() && (#[trigger] s.knowledge[i]).id
            == id implies t.knowledge.contains(
        KnowledgeItemModel {
            body: s.knowledge[i].body + ("\nMerged from knowledge #"@ + decimal(other as int)),
            conflict_with_id: None,
            conflict_status: Some(Conflict::Resolved),
            ..s.knowledge[i]
        },
    ) by {
        assert(all.contains(all[i]));
    }
}

/// A conflict ends in one of three ways.
pub proof fn conflicts_end_in_three_ways(action: Seq<char>)
    ensures
        is_resolution(action) <==> action == "keep"@ || action == "accept"@ || action == "merge"@,
{
}

/// An item is known, or waits for promotion, where there is such an item.
pub proof fn items_are_known_by_number(s: StoreModel, id: i64)
    ensures
        known(s, id) <==> exists|i: int|
            0 <= i < s.knowledge.len() && (#[trigger] s.knowledge[i]).id == id,
        promotable(s, id) <==> exists|i: int|
            0 <= i < s.knowledge.len() && (#[trigger] s.knowledge[i]).id == id
                && s.knowledge[i].trust == Trust::Proposed,
{
    let p = |r: KnowledgeItemModel| r.id == id;
    let q = |r: KnowledgeItemModel| r.id == id && r.trust == Trust::Proposed;
    if exists|i: int| 0 <= i < s.knowledge.len() && (#[trigger] s.knowledge[i]).id == id {
        let i = choose|i: int|
            0 <= i < s.knowledge.len() && (#[trigger] s.knowledge[i]).id == id;
        assert(p(s.knowledge[i]));
    }
    if known(s, id) {
        let i = choose|i: int| 0 <= i < s.knowledge.len() && p(#[trigger] s.knowledge[i]);
        assert(s.knowledge[i].id == id);
    }
    if exists|i: int|
        0 <= i < s.knowledge.len() && (#[trigger] s.knowledge[i]).id == id && s.knowledge[i].trust
            == Trust::Proposed {
        let i = choose|i: int|
            0 <= i < s.knowledge.len() && (#[trigger] s.knowledge[i]).id == id
                && s.knowledge[i].trust == Trust::Proposed;
        assert(q(s.knowledge[i]));
    }
    if promotable(s, id) {
        let i = choose|i: int| 0 <= i < s.knowledge.len() && q(#[trigger] s.knowledge[i]);
        assert(s.knowledge[i].id == id);
    }
}

/// Promoting and forgetting touch the item of that number alone.
pub proof fn changes_touch_one_number(s: StoreModel, id: i64, now: i64)
    ensures
        forall|k: KnowledgeItemModel| #[trigger]
            forgotten(s, id).knowledge.contains(k) <==> s.knowledge.contains(k) && k.id != id,
        promoted(s, id, now).knowledge.len() == s.knowledge.len(),
        forall|i: int|
            0 <= i < s.knowledge.len() ==> #[trigger] promoted(s, id, now).knowledge[i] == if (
            s.knowledge[i].id == id && s.knowledge[i].trust == Trust::Proposed) {
                KnowledgeItemModel { trust: Trust::Reviewed, updated_at: now, ..s.knowledge[i] }
            } else {
                s.knowledge[i]
            },
{
    crate::laws::domains::lemma_kept(s.knowledge, |r: KnowledgeItemModel| r.id != id);
}

/// An edit takes the texts that it gives, at that time, of the item of its number.
pub proof fn edits_take_their_texts(
    r: KnowledgeItemModel,
    id: i64,
    e: Edit,
    days: Option<i64>,
    now: i64,
)
    ensures
        r.id != id ==> edited_item(r, id, e, now) == r && retained_item(r, id, days) == r,
        r.id == id ==> {
            let x = edited_item(r, id, e, now);
            &&& x.title == e.title && x.body == e.body && x.stage == e.stage
            &&& x.trigger == e.trigger && x.severity == e.severity
            &&& x.remediation == e.remediation && x.updated_at == now
            &&& x.id == r.id && x.kind == r.kind && x.domain == r.domain && x.trust == r.trust
            &&& x.created_at == r.created_at && x.source_id == r.source_id
            &&& retained_item(r, id, days) == (KnowledgeItemModel { retention_days: days, ..r })
        },
{
}

/// An item is shown with its source; the item that it is at odds with is the one that its
/// row names.
pub proof fn items_are_shown_with_their_source(s: StoreModel, at: int, source: int)
    requires
        0 <= at < s.knowledge.len(),
        0 <= source < s.sources.len(),
        s.knowledge[at].source_id == Some(s.sources[source].id),
        forall|j: int| 0 <= j < at ==> (#[trigger] s.knowledge[j]).id != s.knowledge[at].id,
        forall|j: int| 0 <= j < source ==> (#[trigger] s.sources[j]).id != s.sources[source].id,
    ensures
        with_source(s, s.knowledge[at].id) matches Some(x) && x.row.id == s.knowledge[at].id
            && x.row.title == s.knowledge[at].title && x.row.body == s.knowledge[at].body
            && x.source_title == s.sources[source].title && x.source_uri == s.sources[source].uri,
        opponent(s, s.knowledge[at].id) == s.knowledge[at].conflict_with_id,
{
    let id = s.knowledge[at].id;
    lemma_first_item(s.knowledge, at, id);
    lemma_first_source(s.sources, source, s.sources[source].id);
}

/// No item is shown under a number that none has.
pub proof fn unknown_numbers_show_nothing(s: StoreModel, id: i64)
    requires
        forall|j: int| 0 <= j < s.knowledge.len() ==> (#[trigger] s.knowledge[j]).id != id,
    ensures
        with_source(s, id) is None,
        opponent(s, id) is None,
{
    let p = |r: KnowledgeItemModel| r.id == id;
    lemma_first_match(s.knowledge, p);
    if let Some(x) = crate::table::first_match(s.knowledge, p) {
        assert(s.knowledge[s.knowledge.index_of(x)] == x);
    }
}

proof fn lemma_first_item(rows: Seq<KnowledgeItemModel>, at: int, id: i64)
    requires
        0 <= at < rows.len(),
        rows[at].id == id,
        forall|j: int| 0 <= j < at ==> (#[trigger] rows[j]).id != id,
    ensures
        crate::table::first_match(rows, |r: KnowledgeItemModel| r.id == id) == Some(rows[at]),
    decreases at,
{
    if at > 0 {
        assert(rows[0].id != id);
        let rest = rows.skip(1);
        assert forall|j: int| 0 <= j < at - 1 implies (#[trigger] rest[j]).id != id by {
            assert(rest[j] == rows[j + 1]);
        }
        lemma_first_item(rest, at - 1, id);
    }
}

proof fn lemma_first_source(rows: Seq<SourceRowModel>, at: int, id: i64)
    requires
        0 <= at < rows.len(),
        rows[at].id == id,
        forall|j: int| 0 <= j < at ==> (#[trigger] rows[j]).id != id,
    ensures
        crate::table::first_match(rows, |r: SourceRowModel| r.id == id) == Some(rows[at]),
    decreases at,
{
    if at > 0 {
        assert(rows[0].id != id);
        let rest = rows.skip(1);
        assert forall|j: int| 0 <= j < at - 1 implies (#[trigger] rest[j]).id != id by {
            assert(rest[j] == rows[j + 1]);
        }
        lemma_first_source(rest, at - 1, id);
    }
}

/// A kind or a tier is read by its name, in any case and with white around it; a kind of
/// another name is none, and a tier of another name is not trusted.
pub proof fn names_are_read_loosely(s: Seq<char>)
    ensures
        ({
            let t = crate::text::lower(crate::text::trim(s));
            &&& kind_named(s) == if t == "fact"@ {
                Some(Kind::Fact)
            } else if t == "rule"@ {
                Some(Kind::Rule)
            } else if t == "procedure"@ {
                Some(Kind::Procedure)
            } else {
                None
            }
            &&& trust_named(s) == if t == "user"@ {
                Trust::User
            } else if t == "reviewed"@ {
                Trust::Reviewed
            } else if t == "proposed"@ {
                Trust::Proposed
            } else {
                Trust::Untrusted
            }
        }),
        kind_name(Kind::Fact) == "fact"@,
        kind_name(Kind::Rule) == "rule"@,
        kind_name(Kind::Procedure) == "procedure"@,
        trust_name(Trust::Untrusted) == "untrusted"@,
        trust_name(Trust::Proposed) == "proposed"@,
        trust_name(Trust::Reviewed) == "reviewed"@,
        trust_name(Trust::User) == "user"@,
{
}

} // verus!
