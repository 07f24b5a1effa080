//! What a session leaves behind, and what is taken up again.
use vstd::prelude::*;

use crate::codebase::CodeStats;
use crate::laws::listing::{lemma_lists, lists};
use crate::session::{entry_of, is_asked_for, is_entry_of, is_outdated, journal_list, replayed};
use crate::store::StoreModel;
use crate::store::registry::Advice;
use crate::tools::session::{advice_text, asked_entries, is_entry_kind, replay_mode, signal_of};
use crate::tools::session::tier_of;
use crate::types::JournalRowModel;

verus! {

/// A replay shows the entries of a repository, of one kind or checkpoints only where that is
/// asked for, the latest first, and leaves out none unless so many are shown as were asked
/// for.
pub proof fn the_latest_entries_are_replayed(
    s: Seq<JournalRowModel>,
    repo: Seq<char>,
    kind: Option<Seq<char>>,
    limit: nat,
    checkpoints_only: bool,
)
    ensures
        lists(
            replayed(s, repo, kind, limit as int, checkpoints_only),
            s,
            |r: JournalRowModel|
                r.repo == repo && (kind matches Some(k) ==> r.kind == k) && (checkpoints_only
                    ==> r.is_checkpoint),
            |r: JournalRowModel| r.ts as int,
            limit as int,
        ),
{
    let p = |r: JournalRowModel| is_asked_for(r, repo, kind, checkpoints_only);
    let q = |r: JournalRowModel|
        r.repo == repo && (kind matches Some(k) ==> r.kind == k) && (checkpoints_only
            ==> r.is_checkpoint);
    assert(p =~= q);
    lemma_lists(
        s,
        p,
        |r: JournalRowModel| (r.ts, r.id),
        |r: JournalRowModel| r.ts as int,
        limit as int,
    );
}

/// The journal is listed the latest first, three hundred entries at most.
pub proof fn the_latest_journal_is_listed(s: Seq<JournalRowModel>, repo: Option<Seq<char>>)
    ensures
        lists(
            journal_list(s, repo),
            s,
            |r: JournalRowModel| repo matches Some(p) ==> r.repo == p,
            |r: JournalRowModel| r.ts as int,
            300,
        ),
{
    let p = |r: JournalRowModel| is_entry_of(r, repo);
    let q = |r: JournalRowModel| repo matches Some(p) ==> r.repo == p;
    assert(p =~= q);
    lemma_lists(
        s,
        p,
        |r: JournalRowModel| (r.ts, r.id),
        |r: JournalRowModel| r.ts as int,
        300,
    );
}

/// An entry is outdated once its days are over, at the second.
pub proof fn entries_live_their_days(r: JournalRowModel, days: i64, now: i64)
    ensures
        is_outdated(r, days, now) <==> now - r.ts >= days * 86400,
{
}

/// An entry holds what was said of it, its title and body without what must not be kept.
pub proof fn entries_hold_what_was_said(
    id: i64,
    repo: Seq<char>,
    kind: Seq<char>,
    title: Seq<char>,
    body: Option<Seq<char>>,
    now: i64,
    is_checkpoint: bool,
)
    ensures
        ({
            let e = entry_of(id as int, repo, kind, title, body, now, is_checkpoint);
            &&& e.id == id && e.repo == repo && e.kind == kind && e.ts == now
            &&& e.is_checkpoint == is_checkpoint
            &&& e.title == crate::redact::redacted(title)
            &&& body is None <==> e.body is None
            &&& body matches Some(b) ==> e.body == Some(crate::redact::redacted(b))
        }),
{
}

/// Thirty entries are replayed where no number is given; an entry is of one of five kinds.
pub proof fn sessions_have_their_defaults(k: u32)
    ensures
        asked_entries(None) == 30,
        asked_entries(Some(k)) == k,
        replay_mode(None) == "recent_context"@,
        forall|m: Seq<char>| #[trigger] replay_mode(Some(m)) == m,
        forall|m: Seq<char>| #[trigger]
            is_entry_kind(m) <==> m == "done"@ || m == "failed"@ || m == "avoid"@ || m
                == "decision"@ || m == "note"@,
{
}

/// A task is high from fifty on and medium from ten on; code counts by its files and a
/// quarter of its chunks.
pub proof fn tiers_begin_at_ten_and_fifty(s: StoreModel, size: CodeStats, domain: Option<Seq<char>>)
    requires
        size.files >= 0 && size.chunks >= 0,
    ensures
        size.files > 0 ==> {
            let n = signal_of(s, size, domain);
            &&& 4 * (n - size.files) <= size.chunks < 4 * (n - size.files) + 4
            &&& 4 * size.files + size.chunks >= 200 ==> tier_of(n) == "high"@
            &&& 40 <= 4 * size.files + size.chunks < 200 ==> tier_of(n) == "medium"@
            &&& 4 * size.files + size.chunks < 40 ==> tier_of(n) == "low"@
        },
        size.files == 0 && domain is None ==> tier_of(signal_of(s, size, domain)) == "low"@,
{
}

/// Advice shows the model and why it was chosen; without any it says so.
pub proof fn advice_is_shown_with_its_reason(a: Advice)
    ensures
        advice_text(Some(a)) == a.model_id + " ("@ + a.reason + ")"@,
        advice_text(None) == "none"@,
{
}

} // verus!
