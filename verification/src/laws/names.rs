//! Which lines begin no symbol, and what a name is.
use vstd::prelude::*;

use crate::laws::symbols::lemma_no_keyword;
use crate::symbols::{is_ident, is_jcl_name, is_short_name, js_keywords, python_keywords};
use crate::symbols::{rust_keywords, symbol};
use crate::text::{begins, byte_len, has, trim};
use crate::unicode::alphanumeric;

verus! {

/// A name is made of letters, digits and underscores, begins with no digit, and takes
/// sixty-four bytes at most.
pub proof fn names_are_letters_and_digits(s: Seq<char>)
    ensures
        is_ident(s) <==> s.len() > 0 && byte_len(s) <= 64 && !('0' <= s[0] && s[0] <= '9') && forall|
            i: int,
        |
            0 <= i < s.len() ==> alphanumeric(#[trigger] s[i]) || s[i] == '_',
        is_short_name(s) <==> s.len() > 0 && byte_len(s) <= 64,
        is_jcl_name(s) <==> s.len() > 0 && byte_len(s) <= 8,
{
}

/// A line of Rust that begins with none of the keywords begins no symbol.
pub proof fn other_lines_of_rust_begin_none(line: Seq<char>)
    requires
        !begins(trim(line), "pub async fn "@),
        !begins(trim(line), "pub fn "@),
        !begins(trim(line), "async fn "@),
        !begins(trim(line), "fn "@),
        !begins(trim(line), "pub struct "@),
        !begins(trim(line), "struct "@),
        !begins(trim(line), "pub enum "@),
        !begins(trim(line), "enum "@),
        !begins(trim(line), "pub trait "@),
        !begins(trim(line), "trait "@),
        !begins(trim(line), "pub type "@),
        !begins(trim(line), "type "@),
        !begins(trim(line), "pub impl "@),
        !begins(trim(line), "impl "@),
    ensures
        symbol("rust"@, line) is None,
{
    lemma_no_keyword(trim(line), rust_keywords(), "(<{ \n"@);
}

/// A line of Python that begins with none of the keywords begins no symbol.
pub proof fn other_lines_of_python_begin_none(line: Seq<char>)
    requires
        !begins(trim(line), "async def "@),
        !begins(trim(line), "def "@),
        !begins(trim(line), "class "@),
    ensures
        symbol("python"@, line) is None,
{
    reveal_strlit("rust");
    reveal_strlit("python");
    assert("rust"@.len() != "python"@.len());
    lemma_no_keyword(trim(line), python_keywords(), "(: "@);
}

/// A line of a script that begins with none of the keywords begins no symbol; a constant
/// begins one only where it is a function.
pub proof fn other_lines_of_scripts_begin_none(lang: Seq<char>, line: Seq<char>)
    requires
        lang == "javascript"@ || lang == "typescript"@ || lang == "tsx"@ || lang == "jsx"@,
        !begins(trim(line), "export default async function "@),
        !begins(trim(line), "export async function "@),
        !begins(trim(line), "export function "@),
        !begins(trim(line), "async function "@),
        !begins(trim(line), "function "@),
        !begins(trim(line), "export default class "@),
        !begins(trim(line), "export abstract class "@),
        !begins(trim(line), "export class "@),
        !begins(trim(line), "abstract class "@),
        !begins(trim(line), "class "@),
        (!begins(trim(line), "export const "@) && !begins(trim(line), "const "@)) || (!(has(
            trim(line),
            "=>"@,
        )) && !(has(trim(line), "= function"@))),
    ensures
        symbol(lang, line) is None,
{
    let s = trim(line);
    reveal_strlit("rust");
    reveal_strlit("python");
    reveal_strlit("javascript");
    assert("rust"@.len() != "javascript"@.len());
    assert("python"@.len() != "javascript"@.len());
    reveal_strlit("typescript");
    reveal_strlit("tsx");
    reveal_strlit("jsx");
    assert("typescript"@.len() == 10 && "tsx"@.len() == 3 && "jsx"@.len() == 3);
    assert("javascript"@.len() == 10 && "rust"@.len() == 4 && "python"@.len() == 6);
    lemma_no_keyword(s, js_keywords(), "(<{ "@);
    lemma_part(s, "export const "@.len() as int, "=>"@);
    lemma_part(s, "export const "@.len() as int, "= function"@);
    lemma_part(s, "const "@.len() as int, "=>"@);
    lemma_part(s, "const "@.len() as int, "= function"@);
}

proof fn lemma_part(s: Seq<char>, n: int, p: Seq<char>)
    ensures
        0 <= n <= s.len() && has(s.skip(n), p) ==> has(s, p),
{
    if 0 <= n <= s.len() && has(s.skip(n), p) {
        let i = choose|i: int| crate::text::stands_at(s.skip(n), p, i);
        assert(s.subrange(n + i, n + i + p.len()) =~= s.skip(n).subrange(i, i + p.len()));
        assert(crate::text::stands_at(s, p, n + i));
    }
}

/// A line of Go that begins with none of the keywords begins no symbol.
pub proof fn other_lines_of_go_begin_none(line: Seq<char>)
    requires
        !begins(trim(line), "func "@),
        !begins(trim(line), "type "@),
    ensures
        symbol("go"@, line) is None,
{
    reveal_strlit("rust");
    reveal_strlit("python");
    reveal_strlit("javascript");
    reveal_strlit("typescript");
    reveal_strlit("tsx");
    reveal_strlit("jsx");
    reveal_strlit("go");
    assert("rust"@.len() != "go"@.len());
    assert("python"@.len() != "go"@.len());
    assert("javascript"@.len() != "go"@.len());
    assert("typescript"@.len() != "go"@.len());
    assert("tsx"@.len() != "go"@.len());
    assert("jsx"@.len() != "go"@.len());
}

/// A line without a bracket is no method.
pub proof fn methods_have_brackets(lang: Seq<char>, line: Seq<char>)
    requires
        lang == "java"@ || lang == "kotlin"@ || lang == "csharp"@,
        !(has(trim(line), "("@)),
    ensures
        symbol(lang, line) is None,
{
    reveal_strlit("rust");
    reveal_strlit("python");
    reveal_strlit("javascript");
    reveal_strlit("typescript");
    reveal_strlit("tsx");
    reveal_strlit("jsx");
    reveal_strlit("go");
    reveal_strlit("java");
    assert("rust"@[0] != "java"@[0]);
    assert("python"@.len() != "java"@.len());
    assert("javascript"@.len() != "java"@.len());
    assert("typescript"@.len() != "java"@.len());
    assert("tsx"@.len() != "java"@.len());
    assert("jsx"@.len() != "java"@.len());
    assert("go"@.len() != "java"@.len());
    reveal_strlit("kotlin");
    assert("rust"@.len() != "kotlin"@.len());
    assert("python"@[0] != "kotlin"@[0]);
    assert("javascript"@.len() != "kotlin"@.len());
    assert("typescript"@.len() != "kotlin"@.len());
    assert("tsx"@.len() != "kotlin"@.len());
    assert("jsx"@.len() != "kotlin"@.len());
    assert("go"@.len() != "kotlin"@.len());
    assert("java"@.len() != "kotlin"@.len());
    reveal_strlit("csharp");
    assert("rust"@.len() != "csharp"@.len());
    assert("python"@[0] != "csharp"@[0]);
    assert("javascript"@.len() != "csharp"@.len());
    assert("typescript"@.len() != "csharp"@.len());
    assert("tsx"@.len() != "csharp"@.len());
    assert("jsx"@.len() != "csharp"@.len());
    assert("go"@.len() != "csharp"@.len());
    assert("java"@.len() != "csharp"@.len());
    assert("kotlin"@[0] != "csharp"@[0]);
}

/// A language that is not known has no symbols.
pub proof fn other_languages_have_no_symbols(lang: Seq<char>, line: Seq<char>)
    requires
        lang != "rust"@,
        lang != "python"@,
        lang != "javascript"@,
        lang != "typescript"@,
        lang != "tsx"@,
        lang != "jsx"@,
        lang != "go"@,
        lang != "java"@,
        lang != "kotlin"@,
        lang != "csharp"@,
        lang != "cobol"@,
        lang != "natural"@,
        lang != "rpg"@,
        lang != "powerscript"@,
        lang != "jcl"@,
    ensures
        symbol(lang, line) is None,
{
}

} // verus!
