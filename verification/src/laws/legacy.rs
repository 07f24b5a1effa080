//! Which symbols lines of older languages begin.
use vstd::prelude::*;

use crate::laws::symbols::{lemma_not, lemma_run};
use crate::symbols::{first_word, folded_symbol, folded_word, is_ident, keyword_word};
use crate::symbols::{natural_keywords, power_routines, power_types, rpg_keywords, symbol};
use crate::symbols::{without_trailing, Keyword};
use crate::text::{begins, byte_len, ends, has, is_white, lead, lower, stands_at, trim, trim_start};
use crate::text::{word_len, words};
use crate::unicode::uppercase;

verus! {

/// Whether a text is one word.
pub open spec fn is_word(name: Seq<char>) -> bool {
    name.len() > 0 && forall|i: int| 0 <= i < name.len() ==> !is_white(#[trigger] name[i])
}

/// Whether nothing follows, or what follows begins with white.
pub open spec fn ends_there(rest: Seq<char>) -> bool {
    rest.len() == 0 || is_white(rest[0])
}

pub proof fn lemma_first_word(name: Seq<char>, rest: Seq<char>)
    requires
        is_word(name),
        ends_there(rest),
    ensures
        words(name + rest).len() > 0,
        words(name + rest)[0] == name,
        first_word(name + rest) == name,
{
    let s = name + rest;
    assert(s[0] == name[0]);
    assert(!is_white(name[0]));
    assert(lead(s) == 0);
    assert(trim_start(s) =~= s);
    lemma_word_len(name, rest);
    assert(s.take(name.len() as int) =~= name);
    assert(words(s)[0] == name);
}

pub proof fn lemma_word_len(name: Seq<char>, rest: Seq<char>)
    requires
        forall|i: int| 0 <= i < name.len() ==> !is_white(#[trigger] name[i]),
        ends_there(rest),
    ensures
        word_len(name + rest) == name.len(),
    decreases name.len(),
{
    if name.len() > 0 {
        assert(!is_white(name[0]));
        assert((name + rest).skip(1) =~= name.skip(1) + rest);
        assert forall|i: int| 0 <= i < name.skip(1).len() implies !is_white(
            #[trigger] name.skip(1)[i],
        ) by {
            assert(name.skip(1)[i] == name[i + 1]);
        }
        lemma_word_len(name.skip(1), rest);
    } else {
        assert(name + rest =~= rest);
    }
}

proof fn lemma_word_table(s: Seq<char>, table: Seq<Keyword>, i: int)
    requires
        0 <= i < table.len(),
        forall|j: int| 0 <= j < i ==> !begins(s, (#[trigger] table[j]).0),
        begins(s, table[i].0),
        is_ident(first_word(s.skip(table[i].0.len() as int))),
    ensures
        keyword_word(s, table) == Some((table[i].1, first_word(s.skip(table[i].0.len() as int)))),
    decreases i,
{
    if i > 0 {
        assert(!begins(s, table[0].0));
        let rest = table.skip(1);
        assert forall|j: int| 0 <= j < i - 1 implies !begins(s, (#[trigger] rest[j]).0) by {
            assert(rest[j] == table[j + 1]);
        }
        lemma_word_table(s, rest, i - 1);
    }
}

proof fn lemma_word(s: Seq<char>, table: Seq<Keyword>, i: int, name: Seq<char>, rest: Seq<char>)
    requires
        0 <= i < table.len(),
        s == table[i].0 + name + rest,
        forall|j: int| 0 <= j < i ==> !begins(s, (#[trigger] table[j]).0),
        is_ident(name),
        is_word(name),
        ends_there(rest),
    ensures
        keyword_word(s, table) == Some((table[i].1, name)),
{
    let p = table[i].0;
    assert(s.subrange(0, p.len() as int) =~= p);
    assert(s.skip(p.len() as int) =~= name + rest);
    lemma_first_word(name, rest);
    lemma_word_table(s, table, i);
}

proof fn lemma_folded_word(
    s: Seq<char>,
    table: Seq<Keyword>,
    i: int,
    name: Seq<char>,
    rest: Seq<char>,
)
    requires
        0 <= i < table.len(),
        s.skip(table[i].0.len() as int) == name + rest,
        begins(lower(s), table[i].0),
        forall|j: int| 0 <= j < i ==> !begins(lower(s), (#[trigger] table[j]).0),
        is_ident(name),
        is_word(name),
        ends_there(rest),
    ensures
        folded_word(s, table) == Some((table[i].1, name)),
    decreases i,
{
    lemma_first_word(name, rest);
    if i > 0 {
        assert(!begins(lower(s), table[0].0));
        let tail = table.skip(1);
        assert forall|j: int| 0 <= j < i - 1 implies !begins(lower(s), (#[trigger] tail[j]).0) by {
            assert(tail[j] == table[j + 1]);
        }
        lemma_folded_word(s, tail, i - 1, name, rest);
    }
}

proof fn lemma_folded(
    s: Seq<char>,
    table: Seq<Keyword>,
    stops: Seq<char>,
    i: int,
    name: Seq<char>,
    rest: Seq<char>,
)
    requires
        0 <= i < table.len(),
        s.skip(table[i].0.len() as int) == name + rest,
        begins(lower(s), table[i].0),
        forall|j: int| 0 <= j < i ==> !begins(lower(s), (#[trigger] table[j]).0),
        is_ident(name),
        forall|i: int| 0 <= i < name.len() ==> !stops.contains(#[trigger] name[i]),
        rest.len() == 0 || stops.contains(rest[0]),
    ensures
        folded_symbol(s, table, stops) == Some((table[i].1, name)),
    decreases i,
{
    lemma_run(name, rest, stops);
    if i > 0 {
        assert(!begins(lower(s), table[0].0));
        let tail = table.skip(1);
        assert forall|j: int| 0 <= j < i - 1 implies !begins(lower(s), (#[trigger] tail[j]).0) by {
            assert(tail[j] == table[j + 1]);
        }
        lemma_folded(s, tail, stops, i - 1, name, rest);
    }
}

/// A definition of RPG is named by the word behind its keyword.
pub proof fn rpg_definitions_are_named(
    line: Seq<char>,
    kw: Seq<char>,
    kind: Seq<char>,
    name: Seq<char>,
    rest: Seq<char>,
)
    requires
        (kw == "DCL-PROC "@ && kind == "procedure"@)
            || (kw == "DCL-DS "@ && kind == "data-struct"@)
            || (kw == "DCL-S "@ && kind == "variable"@)
            || (kw == "DCL-C "@ && kind == "constant"@)
            || (kw == "DCL-F "@ && kind == "file"@),
        is_ident(name),
        is_word(name),
        ends_there(rest),
        uppercase(trim(line)) == kw + name + rest,
    ensures
        symbol("rpg"@, line) == Some((kind, name)),
{
    reveal_strlit("rust");
    reveal_strlit("python");
    reveal_strlit("javascript");
    reveal_strlit("typescript");
    reveal_strlit("tsx");
    reveal_strlit("jsx");
    reveal_strlit("go");
    reveal_strlit("java");
    reveal_strlit("kotlin");
    reveal_strlit("csharp");
    reveal_strlit("cobol");
    reveal_strlit("natural");
    reveal_strlit("rpg");
    assert("rust"@.len() != "rpg"@.len());
    assert("python"@.len() != "rpg"@.len());
    assert("javascript"@.len() != "rpg"@.len());
    assert("typescript"@.len() != "rpg"@.len());
    assert("tsx"@[0] != "rpg"@[0]);
    assert("jsx"@[0] != "rpg"@[0]);
    assert("go"@.len() != "rpg"@.len());
    assert("java"@.len() != "rpg"@.len());
    assert("kotlin"@.len() != "rpg"@.len());
    assert("csharp"@.len() != "rpg"@.len());
    assert("cobol"@.len() != "rpg"@.len());
    assert("natural"@.len() != "rpg"@.len());
    reveal_strlit("DCL-PROC ");
    reveal_strlit("DCL-DS ");
    reveal_strlit("DCL-S ");
    reveal_strlit("DCL-C ");
    reveal_strlit("DCL-F ");
    let s = uppercase(trim(line));
    if kw == "DCL-PROC "@ {
        lemma_word(s, rpg_keywords(), 0, name, rest);
    }
    if kw == "DCL-DS "@ {
        lemma_not(s, "DCL-PROC "@, 4);
        lemma_word(s, rpg_keywords(), 1, name, rest);
    }
    if kw == "DCL-S "@ {
        lemma_not(s, "DCL-PROC "@, 4);
        lemma_not(s, "DCL-DS "@, 4);
        lemma_word(s, rpg_keywords(), 2, name, rest);
    }
    if kw == "DCL-C "@ {
        lemma_not(s, "DCL-PROC "@, 4);
        lemma_not(s, "DCL-DS "@, 4);
        lemma_not(s, "DCL-S "@, 4);
        lemma_word(s, rpg_keywords(), 3, name, rest);
    }
    if kw == "DCL-F "@ {
        lemma_not(s, "DCL-PROC "@, 4);
        lemma_not(s, "DCL-DS "@, 4);
        lemma_not(s, "DCL-S "@, 4);
        lemma_not(s, "DCL-C "@, 4);
        lemma_word(s, rpg_keywords(), 4, name, rest);
    }
}

/// A subroutine of RPG is named by the word behind its keyword.
pub proof fn rpg_subroutines_are_named(line: Seq<char>, name: Seq<char>, rest: Seq<char>)
    requires
        is_ident(name),
        is_word(name),
        ends_there(rest),
        uppercase(trim(line)) == "BEGSR "@ + name + rest,
    ensures
        symbol("rpg"@, line) == Some(("subroutine"@, name)),
{
    reveal_strlit("rust");
    reveal_strlit("python");
    reveal_strlit("javascript");
    reveal_strlit("typescript");
    reveal_strlit("tsx");
    reveal_strlit("jsx");
    reveal_strlit("go");
    reveal_strlit("java");
    reveal_strlit("kotlin");
    reveal_strlit("csharp");
    reveal_strlit("cobol");
    reveal_strlit("natural");
    reveal_strlit("rpg");
    assert("rust"@.len() != "rpg"@.len());
    assert("python"@.len() != "rpg"@.len());
    assert("javascript"@.len() != "rpg"@.len());
    assert("typescript"@.len() != "rpg"@.len());
    assert("tsx"@[0] != "rpg"@[0]);
    assert("jsx"@[0] != "rpg"@[0]);
    assert("go"@.len() != "rpg"@.len());
    assert("java"@.len() != "rpg"@.len());
    assert("kotlin"@.len() != "rpg"@.len());
    assert("csharp"@.len() != "rpg"@.len());
    assert("cobol"@.len() != "rpg"@.len());
    assert("natural"@.len() != "rpg"@.len());
    reveal_strlit("DCL-PROC ");
    reveal_strlit("DCL-DS ");
    reveal_strlit("DCL-S ");
    reveal_strlit("DCL-C ");
    reveal_strlit("DCL-F ");
    reveal_strlit("BEGSR ");
    reveal_strlit("P");
    let s = uppercase(trim(line));
    lemma_not(s, "DCL-PROC "@, 0);
    lemma_not(s, "DCL-DS "@, 0);
    lemma_not(s, "DCL-S "@, 0);
    lemma_not(s, "DCL-C "@, 0);
    lemma_not(s, "DCL-F "@, 0);
    lemma_not(s, "P"@, 0);
    lemma_no_word(s, rpg_keywords());
    lemma_word(s, crate::symbols::rpg_subroutines(), 0, name, rest);
}

proof fn lemma_no_word(s: Seq<char>, table: Seq<Keyword>)
    requires
        forall|j: int| 0 <= j < table.len() ==> !begins(s, (#[trigger] table[j]).0),
    ensures
        keyword_word(s, table) is None,
    decreases table.len(),
{
    if table.len() > 0 {
        assert(!begins(s, table[0].0));
        let rest = table.skip(1);
        assert forall|j: int| 0 <= j < rest.len() implies !begins(s, (#[trigger] rest[j]).0) by {
            assert(rest[j] == table[j + 1]);
        }
        lemma_no_word(s, rest);
    }
}

proof fn lemma_no_folded_word(s: Seq<char>, table: Seq<Keyword>)
    requires
        forall|j: int| 0 <= j < table.len() ==> !begins(lower(s), (#[trigger] table[j]).0),
    ensures
        folded_word(s, table) is None,
    decreases table.len(),
{
    if table.len() > 0 {
        assert(!begins(lower(s), table[0].0));
        let rest = table.skip(1);
        assert forall|j: int| 0 <= j < rest.len() implies !begins(
            lower(s),
            (#[trigger] rest[j]).0,
        ) by {
            assert(rest[j] == table[j + 1]);
        }
        lemma_no_folded_word(s, rest);
    }
}

/// A type of PowerScript is named by the word behind its keyword, in any case.
pub proof fn power_types_are_named(
    line: Seq<char>,
    p: Seq<char>,
    kw: Seq<char>,
    kind: Seq<char>,
    name: Seq<char>,
    rest: Seq<char>,
)
    requires
        (kw == "type "@ && kind == "type"@)
            || (kw == "global type "@ && kind == "global-type"@),
        lower(p) == kw,
        is_ident(name),
        is_word(name),
        ends_there(rest),
        trim(line) == p + name + rest,
    ensures
        symbol("powerscript"@, line) == Some((kind, name)),
{
    reveal_strlit("rust");
    reveal_strlit("python");
    reveal_strlit("javascript");
    reveal_strlit("typescript");
    reveal_strlit("tsx");
    reveal_strlit("jsx");
    reveal_strlit("go");
    reveal_strlit("java");
    reveal_strlit("kotlin");
    reveal_strlit("csharp");
    reveal_strlit("cobol");
    reveal_strlit("natural");
    reveal_strlit("rpg");
    reveal_strlit("powerscript");
    assert("rust"@.len() != "powerscript"@.len());
    assert("python"@.len() != "powerscript"@.len());
    assert("javascript"@.len() != "powerscript"@.len());
    assert("typescript"@.len() != "powerscript"@.len());
    assert("tsx"@.len() != "powerscript"@.len());
    assert("jsx"@.len() != "powerscript"@.len());
    assert("go"@.len() != "powerscript"@.len());
    assert("java"@.len() != "powerscript"@.len());
    assert("kotlin"@.len() != "powerscript"@.len());
    assert("csharp"@.len() != "powerscript"@.len());
    assert("cobol"@.len() != "powerscript"@.len());
    assert("natural"@.len() != "powerscript"@.len());
    assert("rpg"@.len() != "powerscript"@.len());
    reveal_strlit("forward\n");
    reveal_strlit("type ");
    reveal_strlit("global type ");
    let s = trim(line);
    lemma_lowered(p, name + rest);
    assert(s =~= p + (name + rest));
    if kw == "type "@ {
        lemma_not(lower(s), "forward\n"@, 0);
        lemma_folded_word(s, power_types(), 1, name, rest);
    }
    if kw == "global type "@ {
        lemma_not(lower(s), "forward\n"@, 0);
        lemma_not(lower(s), "type "@, 0);
        lemma_folded_word(s, power_types(), 2, name, rest);
    }
}

/// A routine of PowerScript is named by what stands between its keyword and its bracket, in
/// any case.
pub proof fn power_routines_are_named(
    line: Seq<char>,
    p: Seq<char>,
    kw: Seq<char>,
    kind: Seq<char>,
    name: Seq<char>,
    rest: Seq<char>,
)
    requires
        (kw == "public function "@ && kind == "function"@)
            || (kw == "private function "@ && kind == "function"@)
            || (kw == "protected function "@ && kind == "function"@)
            || (kw == "function "@ && kind == "function"@)
            || (kw == "public subroutine "@ && kind == "subroutine"@)
            || (kw == "private subroutine "@ && kind == "subroutine"@)
            || (kw == "subroutine "@ && kind == "subroutine"@)
            || (kw == "on "@ && kind == "event"@)
            || (kw == "event "@ && kind == "event"@),
        lower(p) == kw,
        is_ident(name),
        forall|i: int| 0 <= i < name.len() ==> #[trigger] name[i] != '(' && name[i] != ' ',
        rest.len() == 0 || rest[0] == '(' || rest[0] == ' ',
        trim(line) == p + name + rest,
    ensures
        symbol("powerscript"@, line) == Some((kind, name)),
{
    reveal_strlit("rust");
    reveal_strlit("python");
    reveal_strlit("javascript");
    reveal_strlit("typescript");
    reveal_strlit("tsx");
    reveal_strlit("jsx");
    reveal_strlit("go");
    reveal_strlit("java");
    reveal_strlit("kotlin");
    reveal_strlit("csharp");
    reveal_strlit("cobol");
    reveal_strlit("natural");
    reveal_strlit("rpg");
    reveal_strlit("powerscript");
    assert("rust"@.len() != "powerscript"@.len());
    assert("python"@.len() != "powerscript"@.len());
    assert("javascript"@.len() != "powerscript"@.len());
    assert("typescript"@.len() != "powerscript"@.len());
    assert("tsx"@.len() != "powerscript"@.len());
    assert("jsx"@.len() != "powerscript"@.len());
    assert("go"@.len() != "powerscript"@.len());
    assert("java"@.len() != "powerscript"@.len());
    assert("kotlin"@.len() != "powerscript"@.len());
    assert("csharp"@.len() != "powerscript"@.len());
    assert("cobol"@.len() != "powerscript"@.len());
    assert("natural"@.len() != "powerscript"@.len());
    assert("rpg"@.len() != "powerscript"@.len());
    reveal_strlit("forward\n");
    reveal_strlit("type ");
    reveal_strlit("global type ");
    reveal_strlit("public function ");
    reveal_strlit("private function ");
    reveal_strlit("protected function ");
    reveal_strlit("function ");
    reveal_strlit("public subroutine ");
    reveal_strlit("private subroutine ");
    reveal_strlit("subroutine ");
    reveal_strlit("on ");
    reveal_strlit("event ");
    reveal_strlit("( ");
    let s = trim(line);
    assert("( "@ =~= seq!['(', ' ']);
    assert("( "@[0] == '(' && "( "@[1] == ' ');
    lemma_lowered(p, name + rest);
    assert(s =~= p + (name + rest));
    if kw == "public function "@ {
        lemma_not(lower(s), "forward\n"@, 0);
        lemma_not(lower(s), "type "@, 0);
        lemma_not(lower(s), "global type "@, 0);
        lemma_no_folded_word(s, power_types());
        lemma_folded(s, power_routines(), "( "@, 0, name, rest);
    }
    if kw == "private function "@ {
        lemma_not(lower(s), "public function "@, 1);
        lemma_not(lower(s), "forward\n"@, 0);
        lemma_not(lower(s), "type "@, 0);
        lemma_not(lower(s), "global type "@, 0);
        lemma_no_folded_word(s, power_types());
        lemma_folded(s, power_routines(), "( "@, 1, name, rest);
    }
    if kw == "protected function "@ {
        lemma_not(lower(s), "public function "@, 1);
        lemma_not(lower(s), "private function "@, 2);
        lemma_not(lower(s), "forward\n"@, 0);
        lemma_not(lower(s), "type "@, 0);
        lemma_not(lower(s), "global type "@, 0);
        lemma_no_folded_word(s, power_types());
        lemma_folded(s, power_routines(), "( "@, 2, name, rest);
    }
    if kw == "function "@ {
        lemma_not(lower(s), "public function "@, 0);
        lemma_not(lower(s), "private function "@, 0);
        lemma_not(lower(s), "protected function "@, 0);
        lemma_not(lower(s), "forward\n"@, 1);
        lemma_not(lower(s), "type "@, 0);
        lemma_not(lower(s), "global type "@, 0);
        lemma_no_folded_word(s, power_types());
        lemma_folded(s, power_routines(), "( "@, 3, name, rest);
    }
    if kw == "public subroutine "@ {
        lemma_not(lower(s), "public function "@, 7);
        lemma_not(lower(s), "private function "@, 1);
        lemma_not(lower(s), "protected function "@, 1);
        lemma_not(lower(s), "function "@, 0);
        lemma_not(lower(s), "forward\n"@, 0);
        lemma_not(lower(s), "type "@, 0);
        lemma_not(lower(s), "global type "@, 0);
        lemma_no_folded_word(s, power_types());
        lemma_folded(s, power_routines(), "( "@, 4, name, rest);
    }
    if kw == "private subroutine "@ {
        lemma_not(lower(s), "public function "@, 1);
        lemma_not(lower(s), "private function "@, 8);
        lemma_not(lower(s), "protected function "@, 2);
        lemma_not(lower(s), "function "@, 0);
        lemma_not(lower(s), "public subroutine "@, 1);
        lemma_not(lower(s), "forward\n"@, 0);
        lemma_not(lower(s), "type "@, 0);
        lemma_not(lower(s), "global type "@, 0);
        lemma_no_folded_word(s, power_types());
        lemma_folded(s, power_routines(), "( "@, 5, name, rest);
    }
    if kw == "subroutine "@ {
        lemma_not(lower(s), "public function "@, 0);
        lemma_not(lower(s), "private function "@, 0);
        lemma_not(lower(s), "protected function "@, 0);
        lemma_not(lower(s), "function "@, 0);
        lemma_not(lower(s), "public subroutine "@, 0);
        lemma_not(lower(s), "private subroutine "@, 0);
        lemma_not(lower(s), "forward\n"@, 0);
        lemma_not(lower(s), "type "@, 0);
        lemma_not(lower(s), "global type "@, 0);
        lemma_no_folded_word(s, power_types());
        lemma_folded(s, power_routines(), "( "@, 6, name, rest);
    }
    if kw == "on "@ {
        lemma_not(lower(s), "public function "@, 0);
        lemma_not(lower(s), "private function "@, 0);
        lemma_not(lower(s), "protected function "@, 0);
        lemma_not(lower(s), "function "@, 0);
        lemma_not(lower(s), "public subroutine "@, 0);
        lemma_not(lower(s), "private subroutine "@, 0);
        lemma_not(lower(s), "subroutine "@, 0);
        lemma_not(lower(s), "forward\n"@, 0);
        lemma_not(lower(s), "type "@, 0);
        lemma_not(lower(s), "global type "@, 0);
        lemma_no_folded_word(s, power_types());
        lemma_folded(s, power_routines(), "( "@, 7, name, rest);
    }
    if kw == "event "@ {
        lemma_not(lower(s), "public function "@, 0);
        lemma_not(lower(s), "private function "@, 0);
        lemma_not(lower(s), "protected function "@, 0);
        lemma_not(lower(s), "function "@, 0);
        lemma_not(lower(s), "public subroutine "@, 0);
        lemma_not(lower(s), "private subroutine "@, 0);
        lemma_not(lower(s), "subroutine "@, 0);
        lemma_not(lower(s), "on "@, 0);
        lemma_not(lower(s), "forward\n"@, 0);
        lemma_not(lower(s), "type "@, 0);
        lemma_not(lower(s), "global type "@, 0);
        lemma_no_folded_word(s, power_types());
        lemma_folded(s, power_routines(), "( "@, 8, name, rest);
    }
}

proof fn lemma_lowered(p: Seq<char>, rest: Seq<char>)
    ensures
        begins(lower(p + rest), lower(p)),
        (p + rest).skip(lower(p).len() as int) == rest,
        forall|i: int| 0 <= i < p.len() ==> #[trigger] lower(p + rest)[i] == lower(p)[i],
{
    assert(lower(p + rest).subrange(0, p.len() as int) =~= lower(p));
    assert((p + rest).skip(p.len() as int) =~= rest);
}

/// A division and a section of COBOL are named by the word before that, and a paragraph by
/// the one word of its line.
pub proof fn cobol_parts_are_named(line: Seq<char>, head: Seq<char>)
    requires
        words(head).len() > 0,
    ensures
        uppercase(trim(line)) == head + " DIVISION."@ ==> symbol("cobol"@, line) == Some(
            ("division"@, words(head).last()),
        ),
        uppercase(trim(line)) == head + " SECTION."@ ==> symbol("cobol"@, line) == Some(
            ("section"@, words(head).last()),
        ),
{
    reveal_strlit("rust");
    reveal_strlit("python");
    reveal_strlit("javascript");
    reveal_strlit("typescript");
    reveal_strlit("tsx");
    reveal_strlit("jsx");
    reveal_strlit("go");
    reveal_strlit("java");
    reveal_strlit("kotlin");
    reveal_strlit("csharp");
    reveal_strlit("cobol");
    assert("rust"@.len() != "cobol"@.len());
    assert("python"@.len() != "cobol"@.len());
    assert("javascript"@.len() != "cobol"@.len());
    assert("typescript"@.len() != "cobol"@.len());
    assert("tsx"@.len() != "cobol"@.len());
    assert("jsx"@.len() != "cobol"@.len());
    assert("go"@.len() != "cobol"@.len());
    assert("java"@.len() != "cobol"@.len());
    assert("kotlin"@.len() != "cobol"@.len());
    assert("csharp"@.len() != "cobol"@.len());
    reveal_strlit(" DIVISION.");
    reveal_strlit(" SECTION.");
    let s = uppercase(trim(line));
    let n = head.len() as int;
    if s == head + " DIVISION."@ {
        assert(s.subrange(n, n + 10) =~= " DIVISION."@);
        assert(s.take(n) =~= head);
    }
    if s == head + " SECTION."@ {
        assert(s.subrange(n, n + 9) =~= " SECTION."@);
        assert(s.take(n) =~= head);
        if ends(s, " DIVISION."@) {
            let t = s.subrange(n - 1, n + 9);
            assert(t[5] == s[n + 4]);
        }
    }
}

/// A paragraph of COBOL is named by the one word of its line.
pub proof fn cobol_paragraphs_are_named(line: Seq<char>, name: Seq<char>)
    requires
        name.len() > 0,
        byte_len(name) <= 64,
        byte_len(name + seq!['.']) > 1,
        name.last() != '.',
        forall|i: int| 0 <= i < name.len() ==> #[trigger] name[i] != ' ',
        uppercase(trim(line)) == name + seq!['.'],
    ensures
        symbol("cobol"@, line) == Some(("paragraph"@, name)),
{
    reveal_strlit("rust");
    reveal_strlit("python");
    reveal_strlit("javascript");
    reveal_strlit("typescript");
    reveal_strlit("tsx");
    reveal_strlit("jsx");
    reveal_strlit("go");
    reveal_strlit("java");
    reveal_strlit("kotlin");
    reveal_strlit("csharp");
    reveal_strlit("cobol");
    assert("rust"@.len() != "cobol"@.len());
    assert("python"@.len() != "cobol"@.len());
    assert("javascript"@.len() != "cobol"@.len());
    assert("typescript"@.len() != "cobol"@.len());
    assert("tsx"@.len() != "cobol"@.len());
    assert("jsx"@.len() != "cobol"@.len());
    assert("go"@.len() != "cobol"@.len());
    assert("java"@.len() != "cobol"@.len());
    assert("kotlin"@.len() != "cobol"@.len());
    assert("csharp"@.len() != "cobol"@.len());
    reveal_strlit(" DIVISION.");
    reveal_strlit(" SECTION.");
    reveal_strlit(".");
    reveal_strlit(" ");
    let s = uppercase(trim(line));
    let n = name.len() as int;
    assert forall|i: int| 0 <= i < s.len() implies #[trigger] s[i] != ' ' by {
        if i < n {
            assert(name[i] != ' ');
        }
    }
    if ends(s, " DIVISION."@) {
        assert(s.subrange(s.len() - 10, s.len() as int)[0] == s[s.len() - 10]);
    }
    if ends(s, " SECTION."@) {
        assert(s.subrange(s.len() - 9, s.len() as int)[0] == s[s.len() - 9]);
    }
    if has(s, " "@) {
        let i = choose|i: int| stands_at(s, " "@, i);
        assert(s.subrange(i, i + 1)[0] == s[i]);
    }
    assert(s.subrange(n, n + 1) =~= "."@);
    assert(s.drop_last() =~= name);
    reveal_with_fuel(without_trailing, 2);
    assert(without_trailing(s, '.') == name);
}

/// A call of COBOL is named by the word that it calls.
pub proof fn cobol_calls_are_named(line: Seq<char>, kw: Seq<char>, name: Seq<char>, rest: Seq<char>)
    requires
        kw == "PERFORM "@ || kw == "CALL "@,
        is_word(name),
        byte_len(name) <= 64,
        name.last() != '.',
        ends_there(rest),
        uppercase(trim(line)) == kw + name + rest,
        (kw + name + rest).last() != '.',
    ensures
        symbol("cobol"@, line) == Some(("call"@, name)),
{
    reveal_strlit("rust");
    reveal_strlit("python");
    reveal_strlit("javascript");
    reveal_strlit("typescript");
    reveal_strlit("tsx");
    reveal_strlit("jsx");
    reveal_strlit("go");
    reveal_strlit("java");
    reveal_strlit("kotlin");
    reveal_strlit("csharp");
    reveal_strlit("cobol");
    assert("rust"@.len() != "cobol"@.len());
    assert("python"@.len() != "cobol"@.len());
    assert("javascript"@.len() != "cobol"@.len());
    assert("typescript"@.len() != "cobol"@.len());
    assert("tsx"@.len() != "cobol"@.len());
    assert("jsx"@.len() != "cobol"@.len());
    assert("go"@.len() != "cobol"@.len());
    assert("java"@.len() != "cobol"@.len());
    assert("kotlin"@.len() != "cobol"@.len());
    assert("csharp"@.len() != "cobol"@.len());
    reveal_strlit(" DIVISION.");
    reveal_strlit(" SECTION.");
    reveal_strlit(".");
    reveal_strlit("PERFORM ");
    reveal_strlit("CALL ");
    let s = uppercase(trim(line));
    if ends(s, " DIVISION."@) {
        assert(s.subrange(s.len() - 10, s.len() as int)[9] == s[s.len() - 1]);
    }
    if ends(s, " SECTION."@) {
        assert(s.subrange(s.len() - 9, s.len() as int)[8] == s[s.len() - 1]);
    }
    if ends(s, "."@) {
        assert(s.subrange(s.len() - 1, s.len() as int)[0] == s[s.len() - 1]);
    }
    assert(s.subrange(0, kw.len() as int) =~= kw);
    assert(s.skip(kw.len() as int) =~= name + rest);
    lemma_first_word(name, rest);
    if kw == "CALL "@ {
        lemma_not(s, "PERFORM "@, 0);
    }
}

/// A definition of Natural is named by the word behind what it defines.
pub proof fn natural_definitions_are_named(
    line: Seq<char>,
    kw: Seq<char>,
    kind: Seq<char>,
    name: Seq<char>,
    rest: Seq<char>,
)
    requires
        (kw == "DEFINE SUBROUTINE "@ && kind == "subroutine"@)
            || (kw == "DEFINE FUNCTION "@ && kind == "function"@)
            || (kw == "DEFINE DATA "@ && kind == "data-section"@)
            || (kw == "DEFINE WINDOW "@ && kind == "window"@)
            || (kw == "SUBROUTINE "@ && kind == "subroutine"@ && is_ident(name))
            || (kw == "FUNCTION "@ && kind == "subroutine"@ && is_ident(name)),
        is_word(name),
        ends_there(rest),
        uppercase(trim(line)) == kw + name + rest,
    ensures
        symbol("natural"@, line) == Some((kind, name)),
{
    reveal_strlit("rust");
    reveal_strlit("python");
    reveal_strlit("javascript");
    reveal_strlit("typescript");
    reveal_strlit("tsx");
    reveal_strlit("jsx");
    reveal_strlit("go");
    reveal_strlit("java");
    reveal_strlit("kotlin");
    reveal_strlit("csharp");
    reveal_strlit("cobol");
    reveal_strlit("natural");
    assert("rust"@.len() != "natural"@.len());
    assert("python"@.len() != "natural"@.len());
    assert("javascript"@.len() != "natural"@.len());
    assert("typescript"@.len() != "natural"@.len());
    assert("tsx"@.len() != "natural"@.len());
    assert("jsx"@.len() != "natural"@.len());
    assert("go"@.len() != "natural"@.len());
    assert("java"@.len() != "natural"@.len());
    assert("kotlin"@.len() != "natural"@.len());
    assert("csharp"@.len() != "natural"@.len());
    assert("cobol"@.len() != "natural"@.len());
    reveal_strlit("DEFINE SUBROUTINE ");
    reveal_strlit("DEFINE FUNCTION ");
    reveal_strlit("DEFINE DATA ");
    reveal_strlit("DEFINE DATA");
    reveal_strlit("DEFINE WINDOW ");
    reveal_strlit("SUBROUTINE ");
    reveal_strlit("FUNCTION ");
    let s = uppercase(trim(line));
    lemma_first_word(name, rest);
    assert(s.subrange(0, kw.len() as int) =~= kw);
    assert(s.skip(kw.len() as int) =~= name + rest);
    if kw == "DEFINE FUNCTION "@ {
        lemma_not(s, "DEFINE SUBROUTINE "@, 7);
    }
    if kw == "DEFINE DATA "@ {
        lemma_not(s, "DEFINE SUBROUTINE "@, 7);
        lemma_not(s, "DEFINE FUNCTION "@, 7);
        assert(s.subrange(0, 11) =~= "DEFINE DATA"@);
        let t = s.skip(11);
        assert(t =~= seq![' '] + (name + rest));
        assert(t.skip(1) =~= name + rest);
        assert((name + rest)[0] == name[0]);
        assert(!is_white(name[0]));
        assert(lead(name + rest) == 0);
        assert(is_white(' '));
        assert(lead(t) == 1);
        assert(trim_start(t) =~= name + rest);
        assert(lead(name + rest) == 0);
        assert(trim_start(name + rest) =~= name + rest);
        lemma_word_len(name, rest);
        assert((name + rest).take(name.len() as int) =~= name);
        assert(words(t)[0] == name);
    }
    if kw == "DEFINE WINDOW "@ {
        lemma_not(s, "DEFINE SUBROUTINE "@, 7);
        lemma_not(s, "DEFINE FUNCTION "@, 7);
        lemma_not(s, "DEFINE DATA"@, 7);
    }
    if kw == "SUBROUTINE "@ || kw == "FUNCTION "@ {
        lemma_not(s, "DEFINE SUBROUTINE "@, 0);
        lemma_not(s, "DEFINE FUNCTION "@, 0);
        lemma_not(s, "DEFINE DATA"@, 0);
        lemma_not(s, "DEFINE WINDOW "@, 0);
    }
    if kw == "SUBROUTINE "@ {
        lemma_word(s, natural_keywords(), 0, name, rest);
    }
    if kw == "FUNCTION "@ {
        lemma_not(s, "SUBROUTINE "@, 0);
        lemma_word(s, natural_keywords(), 1, name, rest);
    }
}

/// A job and a data definition of JCL are named by the word before that.
pub proof fn jcl_statements_are_named(line: Seq<char>, t: Seq<char>)
    requires
        uppercase(trim(line)) == "//"@ + t,
        words(t).len() >= 2,
        words(t)[0].len() > 0,
        byte_len(words(t)[0]) <= 8,
    ensures
        words(t)[1] == "JOB"@ ==> symbol("jcl"@, line) == Some(("job"@, words(t)[0])),
        words(t)[1] == "DD"@ && !(has(t, "EXEC "@)) ==> symbol("jcl"@, line) == Some(
            ("dd"@, words(t)[0]),
        ),
{
    reveal_strlit("rust");
    reveal_strlit("python");
    reveal_strlit("javascript");
    reveal_strlit("typescript");
    reveal_strlit("tsx");
    reveal_strlit("jsx");
    reveal_strlit("go");
    reveal_strlit("java");
    reveal_strlit("kotlin");
    reveal_strlit("csharp");
    reveal_strlit("cobol");
    reveal_strlit("natural");
    reveal_strlit("rpg");
    reveal_strlit("powerscript");
    reveal_strlit("jcl");
    assert("rust"@.len() != "jcl"@.len());
    assert("python"@.len() != "jcl"@.len());
    assert("javascript"@.len() != "jcl"@.len());
    assert("typescript"@.len() != "jcl"@.len());
    assert("tsx"@[0] != "jcl"@[0]);
    assert("jsx"@[1] != "jcl"@[1]);
    assert("go"@.len() != "jcl"@.len());
    assert("java"@.len() != "jcl"@.len());
    assert("kotlin"@.len() != "jcl"@.len());
    assert("csharp"@.len() != "jcl"@.len());
    assert("cobol"@.len() != "jcl"@.len());
    assert("natural"@.len() != "jcl"@.len());
    assert("rpg"@[0] != "jcl"@[0]);
    assert("powerscript"@.len() != "jcl"@.len());
    reveal_strlit("//");
    reveal_strlit("JOB");
    reveal_strlit("DD");
    let s = uppercase(trim(line));
    assert(s.subrange(0, 2) =~= "//"@);
    assert(s.skip(2) =~= t);
    assert("JOB"@.len() != "DD"@.len());
    crate::text::lemma_first_at(t, "EXEC "@, 0);
}

/// A step of JCL is named by the word before it, and without one by what it runs.
pub proof fn jcl_steps_are_named(
    line: Seq<char>,
    before: Seq<char>,
    p: Seq<char>,
    target: Seq<char>,
    rest: Seq<char>,
)
    requires
        p == "PGM="@ || p == "PROC="@,
        target.len() > 0,
        forall|i: int|
            0 <= i < target.len() ==> #[trigger] target[i] != ',' && !is_white(target[i]),
        rest.len() == 0 || rest[0] == ',' || is_white(rest[0]),
        ({
            let t = before + "EXEC "@ + p + target + rest;
            &&& uppercase(trim(line)) == "//"@ + t
            &&& forall|i: int| 0 <= i < before.len() ==> !#[trigger] stands_at(t, "EXEC "@, i)
            &&& words(t).len() < 2 || words(t)[1] != "JOB"@
        }),
    ensures
        words(before).len() > 0 ==> symbol("jcl"@, line) == Some(("step"@, words(before).last())),
        words(before).len() == 0 ==> symbol("jcl"@, line) == Some(("step"@, target)),
{
    reveal_strlit("rust");
    reveal_strlit("python");
    reveal_strlit("javascript");
    reveal_strlit("typescript");
    reveal_strlit("tsx");
    reveal_strlit("jsx");
    reveal_strlit("go");
    reveal_strlit("java");
    reveal_strlit("kotlin");
    reveal_strlit("csharp");
    reveal_strlit("cobol");
    reveal_strlit("natural");
    reveal_strlit("rpg");
    reveal_strlit("powerscript");
    reveal_strlit("jcl");
    assert("rust"@.len() != "jcl"@.len());
    assert("python"@.len() != "jcl"@.len());
    assert("javascript"@.len() != "jcl"@.len());
    assert("typescript"@.len() != "jcl"@.len());
    assert("tsx"@[0] != "jcl"@[0]);
    assert("jsx"@[1] != "jcl"@[1]);
    assert("go"@.len() != "jcl"@.len());
    assert("java"@.len() != "jcl"@.len());
    assert("kotlin"@.len() != "jcl"@.len());
    assert("csharp"@.len() != "jcl"@.len());
    assert("cobol"@.len() != "jcl"@.len());
    assert("natural"@.len() != "jcl"@.len());
    assert("rpg"@[0] != "jcl"@[0]);
    assert("powerscript"@.len() != "jcl"@.len());
    reveal_strlit("//");
    reveal_strlit("EXEC ");
    reveal_strlit("PGM=");
    reveal_strlit("PROC=");
    let s = uppercase(trim(line));
    let t = before + "EXEC "@ + p + target + rest;
    assert(s.subrange(0, 2) =~= "//"@);
    assert(s.skip(2) =~= t);
    let n = before.len() as int;
    assert(t.subrange(n, n + 5) =~= "EXEC "@);
    assert(stands_at(t, "EXEC "@, n));
    crate::text::lemma_first_at(t, "EXEC "@, 0);
    assert(crate::text::first_at(t, "EXEC "@, 0) == Some(n));
    let after = p + target + rest;
    assert(t.take(n) =~= before);
    assert(t.skip(n + 5) =~= after);
    assert(after[0] == 'P');
    assert(!is_white('P'));
    assert(lead(after) == 0);
    assert(trim_start(after) =~= after);
    assert(after.subrange(0, p.len() as int) =~= p);
    assert(after.skip(p.len() as int) =~= target + rest);
    lemma_operand(target, rest);
    assert((target + rest).take(target.len() as int) =~= target);
    if p == "PROC="@ {
        lemma_not(after, "PGM="@, 1);
    }
}

proof fn lemma_operand(target: Seq<char>, rest: Seq<char>)
    requires
        forall|i: int|
            0 <= i < target.len() ==> #[trigger] target[i] != ',' && !is_white(target[i]),
        rest.len() == 0 || rest[0] == ',' || is_white(rest[0]),
    ensures
        crate::symbols::operand_len(target + rest) == target.len(),
    decreases target.len(),
{
    if target.len() > 0 {
        assert(target[0] != ',' && !is_white(target[0]));
        assert((target + rest).skip(1) =~= target.skip(1) + rest);
        assert forall|i: int| 0 <= i < target.skip(1).len() implies #[trigger] target.skip(1)[i]
            != ',' && !is_white(target.skip(1)[i]) by {
            assert(target.skip(1)[i] == target[i + 1]);
        }
        lemma_operand(target.skip(1), rest);
    } else {
        assert(target + rest =~= rest);
    }
}

} // verus!
