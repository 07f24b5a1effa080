//! What the router file says.
use vstd::prelude::*;

use crate::skill::{domain_line, domain_lines, domain_part, preference_lines, preference_part};
use crate::skill::{router, router_head, stage_line, stage_lines, stage_part, subject};
use crate::skill::RouterInputsModel;
use crate::text::{decimal, joined};
use crate::types::{DomainRowModel, StageRowModel};

verus! {

/// The router has its parts in their order.
pub proof fn the_router_has_its_parts(i: RouterInputsModel)
    ensures
        router(i) == router_head(i) + domain_part(i.domains) + stage_part(i.taxonomy, i.stages)
            + crate::skill::RETRIEVAL_PROTOCOL@ + crate::skill::ACTION_GATING@
            + crate::skill::TRUST_RULES@ + preference_part(i.preferences)
            + crate::skill::WRITE_BACK@,
{
}

/// A domain is a line with its name, what it is for, and its counts.
pub proof fn domains_are_routed_on_a_line(d: DomainRowModel, all: Seq<DomainRowModel>)
    ensures
        d.description is Some && d.query_hint is Some ==> domain_line(d) == "- **"@ + d.name
            + "** — "@ + d.description->0 + (" ("@ + d.query_hint->0 + ")"@) + "  _["@ + decimal(
            d.doc_count as int,
        ) + " docs, "@ + decimal(d.rule_count as int) + " enforced rules]_\n"@,
        d.description is None && d.query_hint is None ==> domain_line(d) == "- **"@ + d.name
            + "** — "@ + "  _["@ + decimal(d.doc_count as int) + " docs, "@ + decimal(
            d.rule_count as int,
        ) + " enforced rules]_\n"@,
        domain_lines(all.push(d)) == domain_lines(all) + domain_line(d),
        domain_lines(seq![]).len() == 0,
        all.len() > 0 ==> domain_part(all) == "## Domains\n"@ + domain_lines(all) + "\n"@,
        domain_part(seq![]) == "## Domains\n"@
            + "_No domains registered yet. Use register_domain / ingest to populate._\n"@ + "\n"@,
{
    assert(all.push(d).drop_last() =~= all);
    let e = Seq::<char>::empty();
    if d.description is None && d.query_hint is None {
        assert("- **"@ + d.name + "** — "@ + e + e =~= "- **"@ + d.name + "** — "@);
    }
}

/// A stage is a line with its name and what it is for.
pub proof fn stages_are_routed_on_a_line(
    taxonomy: Seq<char>,
    s: StageRowModel,
    all: Seq<StageRowModel>,
)
    ensures
        s.description matches Some(d) ==> stage_line(s) == "- **"@ + s.name + "** — "@ + d + "\n"@,
        stage_lines(all.push(s)) == stage_lines(all) + stage_line(s),
        stage_lines(seq![]).len() == 0,
        all.len() > 0 ==> stage_part(taxonomy, all) == "## Stage map — taxonomy: "@ + taxonomy
            + "\n"@ + "At each workflow stage, recall the listed domains and enforce their rules.\n"@
            + stage_lines(all) + "\n"@,
        stage_part(taxonomy, seq![]) == "## Stage map — taxonomy: "@ + taxonomy + "\n"@
            + "At each workflow stage, recall the listed domains and enforce their rules.\n"@
            + "_No stage taxonomy defined. Infer the relevant domain(s) from the task and recall those._\n"@
            + "\n"@,
{
    assert(all.push(s).drop_last() =~= all);
}

/// A preference is a line.
pub proof fn preferences_are_routed_on_a_line(p: Seq<char>, all: Seq<Seq<char>>)
    ensures
        preference_lines(all.push(p)) == preference_lines(all) + "- "@ + p + "\n"@,
        preference_lines(seq![]).len() == 0,
        all.len() > 0 ==> preference_part(all) == "## Preferences (always honored)\n"@
            + preference_lines(all) + "\n"@,
        preference_part(seq![]) == "## Preferences (always honored)\n"@ + "_None set._\n"@ + "\n"@,
{
    assert(all.push(p).drop_last() =~= all);
}

/// The subject names the domains, with commas between them.
pub proof fn the_subject_names_the_domains(all: Seq<DomainRowModel>, d: DomainRowModel)
    ensures
        subject(seq![]) == "(no domains yet)"@,
        d.name.len() > 0 ==> subject(seq![d]) == d.name,
        all.len() > 0 && subject(all) != "(no domains yet)"@ ==> subject(all.push(d)) == subject(all)
            + ", "@ + d.name,
{
    let names = crate::skill::domain_names(all);
    reveal_strlit(", ");
    assert(", "@.len() == 2);
    assert(crate::skill::domain_names(all.push(d)) =~= names.push(d.name));
    assert(names.push(d.name).drop_last() =~= names);
    assert(crate::skill::domain_names(seq![d]) =~= seq![d.name]);
    assert(joined(names.push(d.name), ", "@) == joined(names, ", "@) + ", "@ + d.name || all.len()
        == 0);
}

} // verus!
