//! Which symbols lines of code begin.
use vstd::prelude::*;

use crate::symbols::{before_any, first_symbol, head_lines, impl_symbol, is_ident, js_keywords};
use crate::symbols::{keyword_symbol, python_keywords, run_len, rust_keywords, symbol, Keyword};
use crate::text::{begins, first_at, has, lemma_first_at, parted, stands_at, trim, words};

verus! {

/// Whether a text is a name without any of the characters that may follow one.
pub open spec fn is_plain(name: Seq<char>) -> bool {
    &&& is_ident(name)
    &&& forall|i: int|
        0 <= i < name.len() ==> {
            let c = #[trigger] name[i];
            c != '(' && c != '<' && c != '{' && c != '[' && c != ':' && c != '=' && c != ' ' && c
                != '\n'
        }
}

/// Whether nothing follows, or what follows begins with one of some characters.
pub open spec fn follows(rest: Seq<char>, stops: Seq<char>) -> bool {
    rest.len() == 0 || stops.contains(rest[0])
}

pub proof fn lemma_not(s: Seq<char>, p: Seq<char>, i: int)
    requires
        0 <= i < p.len(),
        i < s.len() ==> s[i] != p[i],
    ensures
        !begins(s, p),
{
    if begins(s, p) {
        assert(s.subrange(0, p.len() as int)[i] == s[i]);
    }
}

pub proof fn lemma_run(name: Seq<char>, rest: Seq<char>, stops: Seq<char>)
    requires
        forall|i: int| 0 <= i < name.len() ==> !stops.contains(#[trigger] name[i]),
        follows(rest, stops),
    ensures
        run_len(name + rest, stops) == name.len(),
        before_any(name + rest, stops) == name,
    decreases name.len(),
{
    let s = name + rest;
    if name.len() == 0 {
        assert(s =~= rest);
    } else {
        assert(!stops.contains(name[0]));
        assert(s.skip(1) =~= name.skip(1) + rest);
        assert forall|i: int| 0 <= i < name.skip(1).len() implies !stops.contains(
            #[trigger] name.skip(1)[i],
        ) by {
            assert(!stops.contains(name[i + 1]));
        }
        lemma_run(name.skip(1), rest, stops);
    }
    assert(s.take(name.len() as int) =~= name);
}

proof fn lemma_table(s: Seq<char>, table: Seq<Keyword>, stops: Seq<char>, i: int)
    requires
        0 <= i < table.len(),
        forall|j: int| 0 <= j < i ==> !begins(s, (#[trigger] table[j]).0),
        begins(s, table[i].0),
        is_ident(before_any(s.skip(table[i].0.len() as int), stops)),
    ensures
        keyword_symbol(s, table, stops) == Some(
            (table[i].1, before_any(s.skip(table[i].0.len() as int), stops)),
        ),
    decreases i,
{
    if i > 0 {
        assert(!begins(s, table[0].0));
        let rest = table.skip(1);
        assert forall|j: int| 0 <= j < i - 1 implies !begins(s, (#[trigger] rest[j]).0) by {
            assert(rest[j] == table[j + 1]);
        }
        lemma_table(s, rest, stops, i - 1);
    }
}

pub proof fn lemma_no_keyword(s: Seq<char>, table: Seq<Keyword>, stops: Seq<char>)
    requires
        forall|j: int| 0 <= j < table.len() ==> !begins(s, (#[trigger] table[j]).0),
    ensures
        keyword_symbol(s, table, stops) is None,
    decreases table.len(),
{
    if table.len() > 0 {
        assert(!begins(s, table[0].0));
        let rest = table.skip(1);
        assert forall|j: int| 0 <= j < rest.len() implies !begins(s, (#[trigger] rest[j]).0) by {
            assert(rest[j] == table[j + 1]);
        }
        lemma_no_keyword(s, rest, stops);
    }
}

proof fn lemma_keyword(
    s: Seq<char>,
    table: Seq<Keyword>,
    stops: Seq<char>,
    i: int,
    name: Seq<char>,
    rest: Seq<char>,
)
    requires
        0 <= i < table.len(),
        s == table[i].0 + name + rest,
        forall|j: int| 0 <= j < i ==> !begins(s, (#[trigger] table[j]).0),
        is_ident(name),
        forall|i: int| 0 <= i < name.len() ==> !stops.contains(#[trigger] name[i]),
        follows(rest, stops),
    ensures
        keyword_symbol(s, table, stops) == Some((table[i].1, name)),
{
    let p = table[i].0;
    assert(s.subrange(0, p.len() as int) =~= p);
    assert(s.skip(p.len() as int) =~= name + rest);
    lemma_run(name, rest, stops);
    lemma_table(s, table, stops, i);
}

/// The keyword that a line of Rust begins with tells the kind of its symbol, and what
/// follows is its name.
pub proof fn rust_definitions_are_named(
    lang: Seq<char>,
    line: Seq<char>,
    kw: Seq<char>,
    kind: Seq<char>,
    name: Seq<char>,
    rest: Seq<char>,
)
    requires
        lang == "rust"@,
        (kw == "pub async fn "@ && kind == "fn"@)
            || (kw == "pub fn "@ && kind == "fn"@)
            || (kw == "async fn "@ && kind == "fn"@)
            || (kw == "fn "@ && kind == "fn"@)
            || (kw == "pub struct "@ && kind == "struct"@)
            || (kw == "struct "@ && kind == "struct"@)
            || (kw == "pub enum "@ && kind == "enum"@)
            || (kw == "enum "@ && kind == "enum"@)
            || (kw == "pub trait "@ && kind == "trait"@)
            || (kw == "trait "@ && kind == "trait"@)
            || (kw == "pub type "@ && kind == "type"@)
            || (kw == "type "@ && kind == "type"@),
        is_plain(name),
        follows(rest, seq!['(', '<', '{', ' ', '\n']),
        trim(line) == kw + name + rest,
    ensures
        symbol(lang, line) == Some((kind, name)),
{
    reveal_strlit("pub async fn ");
    reveal_strlit("pub fn ");
    reveal_strlit("async fn ");
    reveal_strlit("fn ");
    reveal_strlit("pub struct ");
    reveal_strlit("struct ");
    reveal_strlit("pub enum ");
    reveal_strlit("enum ");
    reveal_strlit("pub trait ");
    reveal_strlit("trait ");
    reveal_strlit("pub type ");
    reveal_strlit("type ");
    reveal_strlit("(<{ \n");
    let s = trim(line);
    let stops = "(<{ \n"@;
    assert(stops =~= seq!['(', '<', '{', ' ', '\n']);

    if kw == "pub async fn "@ {
        lemma_keyword(s, rust_keywords(), stops, 0, name, rest);
    }
    if kw == "pub fn "@ {
        lemma_not(s, "pub async fn "@, 4);
        lemma_keyword(s, rust_keywords(), stops, 1, name, rest);
    }
    if kw == "async fn "@ {
        lemma_not(s, "pub async fn "@, 0);
        lemma_not(s, "pub fn "@, 0);
        lemma_keyword(s, rust_keywords(), stops, 2, name, rest);
    }
    if kw == "fn "@ {
        lemma_not(s, "pub async fn "@, 0);
        lemma_not(s, "pub fn "@, 0);
        lemma_not(s, "async fn "@, 0);
        lemma_keyword(s, rust_keywords(), stops, 3, name, rest);
    }
    if kw == "pub struct "@ {
        lemma_not(s, "pub async fn "@, 4);
        lemma_not(s, "pub fn "@, 4);
        lemma_not(s, "async fn "@, 0);
        lemma_not(s, "fn "@, 0);
        lemma_keyword(s, rust_keywords(), stops, 4, name, rest);
    }
    if kw == "struct "@ {
        lemma_not(s, "pub async fn "@, 0);
        lemma_not(s, "pub fn "@, 0);
        lemma_not(s, "async fn "@, 0);
        lemma_not(s, "fn "@, 0);
        lemma_not(s, "pub struct "@, 0);
        lemma_keyword(s, rust_keywords(), stops, 5, name, rest);
    }
    if kw == "pub enum "@ {
        lemma_not(s, "pub async fn "@, 4);
        lemma_not(s, "pub fn "@, 4);
        lemma_not(s, "async fn "@, 0);
        lemma_not(s, "fn "@, 0);
        lemma_not(s, "pub struct "@, 4);
        lemma_not(s, "struct "@, 0);
        lemma_keyword(s, rust_keywords(), stops, 6, name, rest);
    }
    if kw == "enum "@ {
        lemma_not(s, "pub async fn "@, 0);
        lemma_not(s, "pub fn "@, 0);
        lemma_not(s, "async fn "@, 0);
        lemma_not(s, "fn "@, 0);
        lemma_not(s, "pub struct "@, 0);
        lemma_not(s, "struct "@, 0);
        lemma_not(s, "pub enum "@, 0);
        lemma_keyword(s, rust_keywords(), stops, 7, name, rest);
    }
    if kw == "pub trait "@ {
        lemma_not(s, "pub async fn "@, 4);
        lemma_not(s, "pub fn "@, 4);
        lemma_not(s, "async fn "@, 0);
        lemma_not(s, "fn "@, 0);
        lemma_not(s, "pub struct "@, 4);
        lemma_not(s, "struct "@, 0);
        lemma_not(s, "pub enum "@, 4);
        lemma_not(s, "enum "@, 0);
        lemma_keyword(s, rust_keywords(), stops, 8, name, rest);
    }
    if kw == "trait "@ {
        lemma_not(s, "pub async fn "@, 0);
        lemma_not(s, "pub fn "@, 0);
        lemma_not(s, "async fn "@, 0);
        lemma_not(s, "fn "@, 0);
        lemma_not(s, "pub struct "@, 0);
        lemma_not(s, "struct "@, 0);
        lemma_not(s, "pub enum "@, 0);
        lemma_not(s, "enum "@, 0);
        lemma_not(s, "pub trait "@, 0);
        lemma_keyword(s, rust_keywords(), stops, 9, name, rest);
    }
    if kw == "pub type "@ {
        lemma_not(s, "pub async fn "@, 4);
        lemma_not(s, "pub fn "@, 4);
        lemma_not(s, "async fn "@, 0);
        lemma_not(s, "fn "@, 0);
        lemma_not(s, "pub struct "@, 4);
        lemma_not(s, "struct "@, 0);
        lemma_not(s, "pub enum "@, 4);
        lemma_not(s, "enum "@, 0);
        lemma_not(s, "pub trait "@, 5);
        lemma_not(s, "trait "@, 0);
        lemma_keyword(s, rust_keywords(), stops, 10, name, rest);
    }
    if kw == "type "@ {
        lemma_not(s, "pub async fn "@, 0);
        lemma_not(s, "pub fn "@, 0);
        lemma_not(s, "async fn "@, 0);
        lemma_not(s, "fn "@, 0);
        lemma_not(s, "pub struct "@, 0);
        lemma_not(s, "struct "@, 0);
        lemma_not(s, "pub enum "@, 0);
        lemma_not(s, "enum "@, 0);
        lemma_not(s, "pub trait "@, 0);
        lemma_not(s, "trait "@, 1);
        lemma_not(s, "pub type "@, 0);
        lemma_keyword(s, rust_keywords(), stops, 11, name, rest);
    }
}

/// The keyword that a line of Python begins with tells the kind of its symbol, and what
/// follows is its name.
pub proof fn python_definitions_are_named(
    lang: Seq<char>,
    line: Seq<char>,
    kw: Seq<char>,
    kind: Seq<char>,
    name: Seq<char>,
    rest: Seq<char>,
)
    requires
        lang == "python"@,
        (kw == "async def "@ && kind == "fn"@)
            || (kw == "def "@ && kind == "fn"@)
            || (kw == "class "@ && kind == "class"@),
        is_plain(name),
        follows(rest, seq!['(', ':', ' ']),
        trim(line) == kw + name + rest,
    ensures
        symbol(lang, line) == Some((kind, name)),
{
    reveal_strlit("async def ");
    reveal_strlit("def ");
    reveal_strlit("class ");
    reveal_strlit("(: ");
    let s = trim(line);
    let stops = "(: "@;
    assert(stops =~= seq!['(', ':', ' ']);
    reveal_strlit("rust");
    reveal_strlit("python");
    assert("rust"@.len() != "python"@.len());
    if kw == "async def "@ {
        lemma_keyword(s, python_keywords(), stops, 0, name, rest);
    }
    if kw == "def "@ {
        lemma_not(s, "async def "@, 0);
        lemma_keyword(s, python_keywords(), stops, 1, name, rest);
    }
    if kw == "class "@ {
        lemma_not(s, "async def "@, 0);
        lemma_not(s, "def "@, 0);
        lemma_keyword(s, python_keywords(), stops, 2, name, rest);
    }
}

/// The keyword that a line of JavaScript or TypeScript begins with tells the kind of its
/// symbol, and what follows is its name.
pub proof fn script_definitions_are_named(
    lang: Seq<char>,
    line: Seq<char>,
    kw: Seq<char>,
    kind: Seq<char>,
    name: Seq<char>,
    rest: Seq<char>,
)
    requires
        lang == "javascript"@ || lang == "typescript"@ || lang == "tsx"@ || lang == "jsx"@,
        (kw == "export default async function "@ && kind == "fn"@)
            || (kw == "export async function "@ && kind == "fn"@)
            || (kw == "export function "@ && kind == "fn"@)
            || (kw == "async function "@ && kind == "fn"@)
            || (kw == "function "@ && kind == "fn"@)
            || (kw == "export default class "@ && kind == "class"@)
            || (kw == "export abstract class "@ && kind == "class"@)
            || (kw == "export class "@ && kind == "class"@)
            || (kw == "abstract class "@ && kind == "class"@)
            || (kw == "class "@ && kind == "class"@),
        is_plain(name),
        follows(rest, seq!['(', '<', '{', ' ']),
        trim(line) == kw + name + rest,
    ensures
        symbol(lang, line) == Some((kind, name)),
{
    reveal_strlit("export default async function ");
    reveal_strlit("export async function ");
    reveal_strlit("export function ");
    reveal_strlit("async function ");
    reveal_strlit("function ");
    reveal_strlit("export default class ");
    reveal_strlit("export abstract class ");
    reveal_strlit("export class ");
    reveal_strlit("abstract class ");
    reveal_strlit("class ");
    reveal_strlit("(<{ ");
    let s = trim(line);
    let stops = "(<{ "@;
    assert(stops =~= seq!['(', '<', '{', ' ']);
    reveal_strlit("rust");
    reveal_strlit("python");
    reveal_strlit("javascript");
    reveal_strlit("typescript");
    reveal_strlit("tsx");
    reveal_strlit("jsx");
    assert("rust"@.len() == 4 && "python"@.len() == 6);
    if kw == "export default async function "@ {
        lemma_keyword(s, js_keywords(), stops, 0, name, rest);
    }
    if kw == "export async function "@ {
        lemma_not(s, "export default async function "@, 7);
        lemma_keyword(s, js_keywords(), stops, 1, name, rest);
    }
    if kw == "export function "@ {
        lemma_not(s, "export default async function "@, 7);
        lemma_not(s, "export async function "@, 7);
        lemma_keyword(s, js_keywords(), stops, 2, name, rest);
    }
    if kw == "async function "@ {
        lemma_not(s, "export default async function "@, 0);
        lemma_not(s, "export async function "@, 0);
        lemma_not(s, "export function "@, 0);
        lemma_keyword(s, js_keywords(), stops, 3, name, rest);
    }
    if kw == "function "@ {
        lemma_not(s, "export default async function "@, 0);
        lemma_not(s, "export async function "@, 0);
        lemma_not(s, "export function "@, 0);
        lemma_not(s, "async function "@, 0);
        lemma_keyword(s, js_keywords(), stops, 4, name, rest);
    }
    if kw == "export default class "@ {
        lemma_not(s, "export default async function "@, 15);
        lemma_not(s, "export async function "@, 7);
        lemma_not(s, "export function "@, 7);
        lemma_not(s, "async function "@, 0);
        lemma_not(s, "function "@, 0);
        lemma_keyword(s, js_keywords(), stops, 5, name, rest);
    }
    if kw == "export abstract class "@ {
        lemma_not(s, "export default async function "@, 7);
        lemma_not(s, "export async function "@, 8);
        lemma_not(s, "export function "@, 7);
        lemma_not(s, "async function "@, 0);
        lemma_not(s, "function "@, 0);
        lemma_not(s, "export default class "@, 7);
        lemma_keyword(s, js_keywords(), stops, 6, name, rest);
    }
    if kw == "export class "@ {
        lemma_not(s, "export default async function "@, 7);
        lemma_not(s, "export async function "@, 7);
        lemma_not(s, "export function "@, 7);
        lemma_not(s, "async function "@, 0);
        lemma_not(s, "function "@, 0);
        lemma_not(s, "export default class "@, 7);
        lemma_not(s, "export abstract class "@, 7);
        lemma_keyword(s, js_keywords(), stops, 7, name, rest);
    }
    if kw == "abstract class "@ {
        lemma_not(s, "export default async function "@, 0);
        lemma_not(s, "export async function "@, 0);
        lemma_not(s, "export function "@, 0);
        lemma_not(s, "async function "@, 1);
        lemma_not(s, "function "@, 0);
        lemma_not(s, "export default class "@, 0);
        lemma_not(s, "export abstract class "@, 0);
        lemma_not(s, "export class "@, 0);
        lemma_keyword(s, js_keywords(), stops, 8, name, rest);
    }
    if kw == "class "@ {
        lemma_not(s, "export default async function "@, 0);
        lemma_not(s, "export async function "@, 0);
        lemma_not(s, "export function "@, 0);
        lemma_not(s, "async function "@, 0);
        lemma_not(s, "function "@, 0);
        lemma_not(s, "export default class "@, 0);
        lemma_not(s, "export abstract class "@, 0);
        lemma_not(s, "export class "@, 0);
        lemma_not(s, "abstract class "@, 0);
        lemma_keyword(s, js_keywords(), stops, 9, name, rest);
    }
}

proof fn lemma_no_rust_keyword(s: Seq<char>)
    requires
        begins(s, "impl "@),
    ensures
        keyword_symbol(s, rust_keywords(), "(<{ \n"@) is None,
        impl_symbol(s, "pub impl "@) is None,
{
    reveal_strlit("pub async fn ");
    reveal_strlit("pub fn ");
    reveal_strlit("async fn ");
    reveal_strlit("fn ");
    reveal_strlit("pub struct ");
    reveal_strlit("struct ");
    reveal_strlit("pub enum ");
    reveal_strlit("enum ");
    reveal_strlit("pub trait ");
    reveal_strlit("trait ");
    reveal_strlit("pub type ");
    reveal_strlit("type ");
    reveal_strlit("impl ");
    reveal_strlit("pub impl ");
    assert(s.subrange(0, 5)[0] == s[0]);
    assert(s[0] == 'i');
    lemma_not(s, "pub async fn "@, 0);
    lemma_not(s, "pub fn "@, 0);
    lemma_not(s, "async fn "@, 0);
    lemma_not(s, "fn "@, 0);
    lemma_not(s, "pub struct "@, 0);
    lemma_not(s, "struct "@, 0);
    lemma_not(s, "pub enum "@, 0);
    lemma_not(s, "enum "@, 0);
    lemma_not(s, "pub trait "@, 0);
    lemma_not(s, "trait "@, 0);
    lemma_not(s, "pub type "@, 0);
    lemma_not(s, "type "@, 0);
    lemma_not(s, "pub impl "@, 0);
    lemma_no_keyword(s, rust_keywords(), "(<{ \n"@);
}

/// A block of Rust that implements something is named by the type that it is for: by what
/// stands behind the `for`, where there is one, and else by what is implemented.
pub proof fn impl_blocks_are_named_by_their_type(
    line: Seq<char>,
    what: Seq<char>,
    name: Seq<char>,
    rest: Seq<char>,
)
    requires
        is_plain(name),
        forall|i: int| 0 <= i < what.len() ==> #[trigger] what[i] != ' ',
        follows(rest, seq!['<', '{', ' ']),
    ensures
        trim(line) == "impl "@ + what + " for "@ + name + rest ==> symbol("rust"@, line) == Some(
            ("impl"@, name),
        ),
        trim(line) == "impl "@ + name + rest && !(has(name + rest, " for "@)) ==> symbol(
            "rust"@,
            line,
        ) == Some(("impl"@, name)),
{
    reveal_strlit("impl ");
    reveal_strlit(" for ");
    reveal_strlit("<{ ");
    let s = trim(line);
    let stops = "<{ "@;
    assert(stops =~= seq!['<', '{', ' ']);
    lemma_run(name, rest, stops);
    if s == "impl "@ + what + " for "@ + name + rest {
        let tail = what + " for "@ + name + rest;
        assert(s.subrange(0, 5) =~= "impl "@);
        assert(s.skip(5) =~= tail);
        let n = what.len() as int;
        assert(tail.subrange(n, n + 5) =~= " for "@);
        assert(stands_at(tail, " for "@, n));
        lemma_first_at(tail, " for "@, 0);
        let at = first_at(tail, " for "@, 0)->0;
        if at < n {
            assert(tail.subrange(at, at + 5)[0] == what[at]);
        }
        assert(at == n);
        assert(tail.skip(n + 5) =~= name + rest);
        lemma_no_rust_keyword(s);
    }
    if s == "impl "@ + name + rest && !(has(name + rest, " for "@)) {
        assert(s.subrange(0, 5) =~= "impl "@);
        assert(s.skip(5) =~= name + rest);
        lemma_first_at(name + rest, " for "@, 0);
        assert(parted(name + rest, " for "@) is None);
        lemma_no_rust_keyword(s);
    }
}

/// A constant of JavaScript or TypeScript that holds a function is named by itself.
pub proof fn function_constants_are_named(
    lang: Seq<char>,
    line: Seq<char>,
    kw: Seq<char>,
    name: Seq<char>,
    rest: Seq<char>,
)
    requires
        lang == "javascript"@ || lang == "typescript"@ || lang == "tsx"@ || lang == "jsx"@,
        kw == "const "@ || kw == "export const "@,
        is_plain(name),
        follows(rest, seq!['=', ':', ' ']),
        has(name + rest, "=>"@) || has(name + rest, "= function"@),
        trim(line) == kw + name + rest,
    ensures
        symbol(lang, line) == Some(("const"@, name)),
{
    reveal_strlit("export default async function ");
    reveal_strlit("export async function ");
    reveal_strlit("export function ");
    reveal_strlit("async function ");
    reveal_strlit("function ");
    reveal_strlit("export default class ");
    reveal_strlit("export abstract class ");
    reveal_strlit("export class ");
    reveal_strlit("abstract class ");
    reveal_strlit("class ");
    reveal_strlit("const ");
    reveal_strlit("export const ");
    reveal_strlit("=: ");
    reveal_strlit("rust");
    reveal_strlit("python");
    reveal_strlit("javascript");
    reveal_strlit("typescript");
    reveal_strlit("tsx");
    reveal_strlit("jsx");
    assert("rust"@.len() == 4 && "python"@.len() == 6);
    let s = trim(line);
    let stops = "=: "@;
    assert(stops =~= seq!['=', ':', ' ']);
    lemma_run(name, rest, stops);
    assert(s.subrange(0, kw.len() as int) =~= kw);
    assert(s.skip(kw.len() as int) =~= name + rest);
    if kw == "const "@ {
        lemma_not(s, "export default async function "@, 0);
        lemma_not(s, "export async function "@, 0);
        lemma_not(s, "export function "@, 0);
        lemma_not(s, "async function "@, 0);
        lemma_not(s, "function "@, 0);
        lemma_not(s, "export default class "@, 0);
        lemma_not(s, "export abstract class "@, 0);
        lemma_not(s, "export class "@, 0);
        lemma_not(s, "abstract class "@, 0);
        lemma_not(s, "class "@, 1);
        lemma_not(s, "export const "@, 0);
    } else {
        lemma_not(s, "export default async function "@, 7);
        lemma_not(s, "export async function "@, 7);
        lemma_not(s, "export function "@, 7);
        lemma_not(s, "async function "@, 0);
        lemma_not(s, "function "@, 0);
        lemma_not(s, "export default class "@, 7);
        lemma_not(s, "export abstract class "@, 7);
        lemma_not(s, "export class "@, 8);
        lemma_not(s, "abstract class "@, 0);
        lemma_not(s, "class "@, 0);
    }
    lemma_no_keyword(s, js_keywords(), "(<{ "@);
}

/// A function of Go is named by what stands behind `func`, a receiver in brackets aside,
/// and a type by what stands behind `type`.
pub proof fn go_definitions_are_named(
    line: Seq<char>,
    receiver: Seq<char>,
    name: Seq<char>,
    rest: Seq<char>,
)
    requires
        is_plain(name),
        !receiver.contains(')'),
    ensures
        trim(line) == "func "@ + name + rest && follows(rest, seq!['(', ' ']) ==> symbol("go"@, line)
            == Some(("fn"@, name)),
        trim(line) == "func ("@ + receiver + ") "@ + name + rest && follows(rest, seq!['(', ' '])
            && name[0] != '\t' ==> symbol("go"@, line) == Some(("fn"@, name)),
        trim(line) == "type "@ + name + rest && follows(rest, seq![' ', '[']) ==> symbol("go"@, line)
            == Some(("type"@, name)),
{
    reveal_strlit("rust");
    reveal_strlit("python");
    reveal_strlit("javascript");
    reveal_strlit("typescript");
    reveal_strlit("tsx");
    reveal_strlit("jsx");
    reveal_strlit("go");
    assert("go"@.len() == 2 && "rust"@.len() == 4 && "tsx"@.len() == 3 && "jsx"@.len() == 3);
    reveal_strlit("func ");
    reveal_strlit("func (");
    reveal_strlit(") ");
    reveal_strlit(")");
    reveal_strlit("(");
    reveal_strlit("type ");
    reveal_strlit("( ");
    reveal_strlit(" [");
    reveal_with_fuel(crate::symbols::unindented, 3);
    let s = trim(line);
    assert("( "@ =~= seq!['(', ' ']);
    assert(" ["@ =~= seq![' ', '[']);
    if s == "func "@ + name + rest && follows(rest, seq!['(', ' ']) {
        assert(s.subrange(0, 5) =~= "func "@);
        assert(s.skip(5) =~= name + rest);
        lemma_run(name, rest, "( "@);
        lemma_not(name + rest, "("@, 0);
    }
    if s == "func ("@ + receiver + ") "@ + name + rest && follows(rest, seq!['(', ' ']) && name[0]
        != '\t' {
        let tail = "("@ + receiver + ") "@ + name + rest;
        assert(s.subrange(0, 5) =~= "func "@);
        assert(s.skip(5) =~= tail);
        assert(tail.subrange(0, 1) =~= "("@);
        let n: int = receiver.len() as int + 1;
        assert(tail.subrange(n, n + 1) =~= ")"@);
        assert(stands_at(tail, ")"@, n));
        lemma_first_at(tail, ")"@, 0);
        let at = first_at(tail, ")"@, 0)->0;
        if at < n {
            assert(tail.subrange(at, at + 1)[0] == tail[at]);
            if at > 0 {
                assert(receiver[at - 1] == ')');
            }
        }
        assert(at == n);
        let left = tail.skip(n + 1);
        assert(left =~= seq![' '] + name + rest);
        assert(left.skip(1) =~= name + rest);
        assert(crate::symbols::unindented(left) == name + rest);
        lemma_run(name, rest, "( "@);
    }
    if s == "type "@ + name + rest && follows(rest, seq![' ', '[']) {
        assert(s.subrange(0, 5) =~= "type "@);
        assert(s.skip(5) =~= name + rest);
        lemma_not(s, "func "@, 0);
        lemma_run(name, rest, " ["@);
    }
}

/// A method of Java, Kotlin or C# is named by the last word before its first bracket. No
/// condition and no loop is a method.
pub proof fn methods_are_named(lang: Seq<char>, line: Seq<char>, head: Seq<char>, rest: Seq<char>)
    requires
        lang == "java"@ || lang == "kotlin"@ || lang == "csharp"@,
        trim(line) == head + seq!['('] + rest,
        !head.contains('('),
        words(head).len() > 0,
        is_ident(words(head).last()),
        crate::text::byte_len(words(head).last()) > 1,
    ensures
        begins(trim(line), "if "@) || begins(trim(line), "for "@) || begins(trim(line), "while "@)
            ==> symbol(lang, line) is None,
        !(begins(trim(line), "if "@) || begins(trim(line), "for "@) || begins(
            trim(line),
            "while "@,
        )) ==> symbol(lang, line) == Some(("method"@, words(head).last())),
{
    reveal_strlit("rust");
    reveal_strlit("python");
    reveal_strlit("javascript");
    reveal_strlit("typescript");
    reveal_strlit("tsx");
    reveal_strlit("jsx");
    reveal_strlit("go");
    reveal_strlit("java");
    reveal_strlit("kotlin");
    reveal_strlit("csharp");
    assert("java"@[0] == 'j' && "rust"@[0] == 'r' && "kotlin"@[0] == 'k' && "csharp"@[0] == 'c');
    assert("python"@[0] == 'p' && "javascript"@.len() == 10 && "typescript"@.len() == 10);
    assert("tsx"@.len() == 3 && "jsx"@.len() == 3 && "go"@.len() == 2 && "java"@.len() == 4);
    assert("kotlin"@.len() == 6 && "csharp"@.len() == 6);
    reveal_strlit("(");
    let s = trim(line);
    let n = head.len() as int;
    assert(s.subrange(n, n + 1) =~= "("@);
    assert(stands_at(s, "("@, n));
    assert("("@ =~= seq!['(']);
    assert forall|i: int| 0 <= i < head.len() implies !"("@.contains(#[trigger] head[i]) by {
        if "("@.contains(head[i]) {
            assert(head.contains('('));
        }
    }
    assert(s =~= head + (seq!['('] + rest));
    assert((seq!['('] + rest)[0] == "("@[0]);
    lemma_run(head, seq!['('] + rest, "("@);
}

/// Only the first eight lines of a piece of code are looked at, and the first of them that
/// begins a symbol tells it.
pub proof fn the_first_symbol_counts(lang: Seq<char>, lines: Seq<Seq<char>>, i: int)
    requires
        0 <= i < lines.len(),
        forall|j: int| 0 <= j < i ==> symbol(lang, #[trigger] lines[j]) is None,
    ensures
        i < 8 && symbol(lang, lines[i]) is Some ==> first_symbol(lang, head_lines(lines)) == symbol(
            lang,
            lines[i],
        ),
        i >= 7 && symbol(lang, lines[i]) is None ==> first_symbol(lang, head_lines(lines)) is None,
        i >= 8 ==> first_symbol(lang, head_lines(lines)) is None,
{
    let head = head_lines(lines);
    if i < 8 {
        assert forall|j: int| 0 <= j < i implies symbol(lang, #[trigger] head[j]) is None by {
            assert(head[j] == lines[j]);
        }
        if symbol(lang, lines[i]) is Some {
            lemma_first(lang, head, i);
        }
    }
    if i >= 8 || (i == 7 && symbol(lang, lines[i]) is None) {
        assert forall|j: int| 0 <= j < head.len() implies symbol(lang, #[trigger] head[j]) is None by {
            assert(head[j] == lines[j]);
        }
        lemma_none(lang, head);
    }
}

proof fn lemma_first(lang: Seq<char>, lines: Seq<Seq<char>>, i: int)
    requires
        0 <= i < lines.len(),
        forall|j: int| 0 <= j < i ==> symbol(lang, #[trigger] lines[j]) is None,
        symbol(lang, lines[i]) is Some,
    ensures
        first_symbol(lang, lines) == symbol(lang, lines[i]),
    decreases i,
{
    if i > 0 {
        assert(symbol(lang, lines[0]) is None);
        let rest = lines.skip(1);
        assert forall|j: int| 0 <= j < i - 1 implies symbol(lang, #[trigger] rest[j]) is None by {
            assert(rest[j] == lines[j + 1]);
        }
        lemma_first(lang, rest, i - 1);
    }
}

proof fn lemma_none(lang: Seq<char>, lines: Seq<Seq<char>>)
    requires
        forall|j: int| 0 <= j < lines.len() ==> symbol(lang, #[trigger] lines[j]) is None,
    ensures
        first_symbol(lang, lines) is None,
    decreases lines.len(),
{
    if lines.len() > 0 {
        let rest = lines.skip(1);
        assert forall|j: int| 0 <= j < rest.len() implies symbol(lang, #[trigger] rest[j]) is None by {
            assert(rest[j] == lines[j + 1]);
        }
        lemma_none(lang, rest);
    }
}

} // verus!
