//! Lightweight symbol detection: which function, type or section a line of code begins.
//!
//! A symbol is a kind and a name. Detection looks at one line at a time and at how it
//! begins; it is no parser of any language.
use vstd::prelude::*;

use crate::text::{begins, behind, byte_len, bytes_in, chars, contains, ends, ends_with};
use crate::text::{first_chars, has, lower, lowered, opt};
use crate::text::{parted, prefix, same, skip_white, split_once, split_words, starts_with};
use crate::text::{strip_prefix, text_of, texts, trim, trim_start, trimmed, words};
use crate::text::{is_white, white};
use crate::unicode::{alphanumeric, uppercase};

verus! {

/// A kind and a name.
pub type Symbol = (Seq<char>, Seq<char>);

/// What is found, as mathematical values.
pub open spec fn found(r: Option<(String, String)>) -> Option<Symbol> {
    match r {
        Some(x) => Some((x.0@, x.1@)),
        None => None,
    }
}

// ---- pieces of a line -----------------------------------------------------

/// Whether a text can be the name of something: letters, numbers and underscores, not
/// beginning with a digit, of at most sixty-four bytes.
pub open spec fn is_ident(s: Seq<char>) -> bool {
    &&& s.len() > 0
    &&& byte_len(s) <= 64
    &&& forall|i: int| 0 <= i < s.len() ==> alphanumeric(#[trigger] s[i]) || s[i] == '_'
    &&& !('0' <= s[0] && s[0] <= '9')
}

/// Whether a text can be the name of something.
pub fn valid_ident(s: &str) -> (r: bool)
    ensures
        r == is_ident(s@),
{
    let v: Vec<char> = chars(s);
    if v.len() == 0 || bytes_in(s) > 64 {
        return false;
    }
    let mut i: usize = 0;
    while i < v.len()
        invariant
            i <= v@.len(),
            v@ == s@,
            forall|j: int| 0 <= j < i ==> alphanumeric(#[trigger] s@[j]) || s@[j] == '_',
        decreases v.len() - i,
    {
        if !(v[i].is_alphanumeric() || v[i] == '_') {
            assert(!(alphanumeric(s@[i as int]) || s@[i as int] == '_'));
            return false;
        }
        i += 1;
    }
    !('0' <= v[0] && v[0] <= '9')
}

/// How many characters `s` begins with that are none of `stops`.
pub open spec fn run_len(s: Seq<char>, stops: Seq<char>) -> nat
    decreases s.len(),
{
    if s.len() == 0 || stops.contains(s[0]) {
        0
    } else {
        1 + run_len(s.skip(1), stops)
    }
}

/// What stands in `s` before the first of `stops`.
pub open spec fn before_any(s: Seq<char>, stops: Seq<char>) -> Seq<char> {
    s.take(run_len(s, stops) as int)
}

fn char_in(c: char, stops: &Vec<char>) -> (r: bool)
    ensures
        r == stops@.contains(c),
{
    let mut i: usize = 0;
    while i < stops.len()
        invariant
            i <= stops@.len(),
            forall|j: int| 0 <= j < i ==> stops@[j] != c,
        decreases stops.len() - i,
    {
        if stops[i] == c {
            assert(stops@[i as int] == c);
            return true;
        }
        i += 1;
    }
    false
}

/// What stands in a text before the first of some characters.
pub fn cut(s: &str, stops: &str) -> (r: String)
    ensures
        r@ == before_any(s@, stops@),
{
    let v: Vec<char> = chars(s);
    let t: Vec<char> = chars(stops);
    let mut i: usize = 0;
    assert(v@.skip(0) =~= v@);
    while i < v.len() && !char_in(v[i], &t)
        invariant
            i <= v@.len(),
            v@ == s@,
            t@ == stops@,
            run_len(s@, stops@) == i + run_len(v@.skip(i as int), stops@),
        decreases v.len() - i,
    {
        assert(v@.skip(i as int).skip(1) =~= v@.skip(i + 1));
        i += 1;
    }
    let r: String = text_of(&v, 0, i);
    assert(r@ =~= before_any(s@, stops@));
    r
}

/// The first word of a text, or nothing.
pub open spec fn first_word(s: Seq<char>) -> Seq<char> {
    if words(s).len() == 0 {
        seq![]
    } else {
        words(s)[0]
    }
}

fn word_at_start(s: &str) -> (r: String)
    ensures
        r@ == first_word(s@),
{
    let w: Vec<String> = split_words(s);
    if w.len() == 0 {
        assert(texts(w@).len() == 0);
        let t: String = String::new();
        assert(t@ =~= seq![]);
        t
    } else {
        assert(texts(w@)[0] == w@[0]@);
        w[0].clone()
    }
}

/// The last word of a text, if there is one.
pub open spec fn last_word(s: Seq<char>) -> Option<Seq<char>> {
    if words(s).len() == 0 {
        None
    } else {
        Some(words(s).last())
    }
}

fn word_at_end(s: &str) -> (r: Option<String>)
    ensures
        opt(r) == last_word(s@),
{
    let w: Vec<String> = split_words(s);
    if w.len() == 0 {
        assert(texts(w@).len() == 0);
        None
    } else {
        assert(texts(w@).last() == w@[w@.len() - 1]@);
        Some(w[w.len() - 1].clone())
    }
}

/// `s` without the `c`s that it ends with.
pub open spec fn without_trailing(s: Seq<char>, c: char) -> Seq<char>
    decreases s.len(),
{
    if s.len() > 0 && s.last() == c {
        without_trailing(s.drop_last(), c)
    } else {
        s
    }
}

fn drop_trailing(s: &str, c: char) -> (r: String)
    ensures
        r@ == without_trailing(s@, c),
{
    let v: Vec<char> = chars(s);
    let mut i: usize = v.len();
    assert(v@.take(i as int) =~= v@);
    while i > 0 && v[i - 1] == c
        invariant
            i <= v@.len(),
            v@ == s@,
            without_trailing(s@, c) == without_trailing(v@.take(i as int), c),
        decreases i,
    {
        assert(v@.take(i as int).drop_last() =~= v@.take(i - 1));
        i -= 1;
    }
    let r: String = text_of(&v, 0, i);
    assert(r@ =~= v@.take(i as int));
    r
}

// ---- tables of keywords ---------------------------------------------------

/// A keyword that a line may begin with, and the kind of symbol that it begins.
pub type Keyword = (Seq<char>, Seq<char>);

/// The keywords of a table.
pub open spec fn keywords(v: Seq<(&str, &str)>) -> Seq<Keyword> {
    Seq::new(v.len(), |i: int| (v[i].0@, v[i].1@))
}

/// The symbol of the first keyword that a line begins with and that is followed by a
/// name; the name ends at one of `stops`.
pub open spec fn keyword_symbol(s: Seq<char>, table: Seq<Keyword>, stops: Seq<char>) -> Option<Symbol>
    decreases table.len(),
{
    if table.len() == 0 {
        None
    } else {
        let name = before_any(s.skip(table[0].0.len() as int), stops);
        if begins(s, table[0].0) && is_ident(name) {
            Some((table[0].1, name))
        } else {
            keyword_symbol(s, table.skip(1), stops)
        }
    }
}

fn find_keyword(s: &str, table: &Vec<(&str, &str)>, stops: &str) -> (r: Option<(String, String)>)
    ensures
        found(r) == keyword_symbol(s@, keywords(table@), stops@),
{
    let ghost all = keywords(table@);
    let mut i: usize = 0;
    assert(all.skip(0) =~= all);
    while i < table.len()
        invariant
            i <= table@.len(),
            all == keywords(table@),
            keyword_symbol(s@, all, stops@) == keyword_symbol(s@, all.skip(i as int), stops@),
        decreases table.len() - i,
    {
        assert(all.skip(i as int).skip(1) =~= all.skip(i + 1));
        assert(all.skip(i as int)[0] == (table@[i as int].0@, table@[i as int].1@));
        if let Some(rest) = strip_prefix(s, table[i].0) {
            let name: String = cut(rest.as_str(), stops);
            if valid_ident(name.as_str()) {
                return Some((table[i].1.to_owned(), name));
            }
        }
        i += 1;
    }
    None
}

/// The symbol of the first keyword that a line begins with and whose next word is a
/// name.
pub open spec fn keyword_word(s: Seq<char>, table: Seq<Keyword>) -> Option<Symbol>
    decreases table.len(),
{
    if table.len() == 0 {
        None
    } else {
        let name = first_word(s.skip(table[0].0.len() as int));
        if begins(s, table[0].0) && is_ident(name) {
            Some((table[0].1, name))
        } else {
            keyword_word(s, table.skip(1))
        }
    }
}

fn find_keyword_word(s: &str, table: &Vec<(&str, &str)>) -> (r: Option<(String, String)>)
    ensures
        found(r) == keyword_word(s@, keywords(table@)),
{
    let ghost all = keywords(table@);
    let mut i: usize = 0;
    assert(all.skip(0) =~= all);
    while i < table.len()
        invariant
            i <= table@.len(),
            all == keywords(table@),
            keyword_word(s@, all) == keyword_word(s@, all.skip(i as int)),
        decreases table.len() - i,
    {
        assert(all.skip(i as int).skip(1) =~= all.skip(i + 1));
        assert(all.skip(i as int)[0] == (table@[i as int].0@, table@[i as int].1@));
        if let Some(rest) = strip_prefix(s, table[i].0) {
            let name: String = word_at_start(rest.as_str());
            if valid_ident(name.as_str()) {
                return Some((table[i].1.to_owned(), name));
            }
        }
        i += 1;
    }
    None
}

/// `a` where it is there, else `b`.
pub open spec fn either(a: Option<Symbol>, b: Option<Symbol>) -> Option<Symbol> {
    if a is Some {
        a
    } else {
        b
    }
}

/// The keywords of Rust.
pub open spec fn rust_keywords() -> Seq<Keyword> {
    seq![
        ("pub async fn "@, "fn"@),
        ("pub fn "@, "fn"@),
        ("async fn "@, "fn"@),
        ("fn "@, "fn"@),
        ("pub struct "@, "struct"@),
        ("struct "@, "struct"@),
        ("pub enum "@, "enum"@),
        ("enum "@, "enum"@),
        ("pub trait "@, "trait"@),
        ("trait "@, "trait"@),
        ("pub type "@, "type"@),
        ("type "@, "type"@),
    ]
}

/// The type that an `impl` block is for, where the line begins one with `p`.
pub open spec fn impl_symbol(s: Seq<char>, p: Seq<char>) -> Option<Symbol> {
    let rest = s.skip(p.len() as int);
    let part = match parted(rest, " for "@) {
        Some(x) => x.1,
        None => rest,
    };
    let name = before_any(part, "<{ "@);
    if begins(s, p) && is_ident(name) {
        Some(("impl"@, name))
    } else {
        None
    }
}

/// The symbol that a line of Rust begins.
pub open spec fn rust_symbol(s: Seq<char>) -> Option<Symbol> {
    either(
        keyword_symbol(s, rust_keywords(), "(<{ \n"@),
        either(impl_symbol(s, "pub impl "@), impl_symbol(s, "impl "@)),
    )
}

fn parse_impl(s: &str, p: &str) -> (r: Option<(String, String)>)
    ensures
        found(r) == impl_symbol(s@, p@),
{
    match strip_prefix(s, p) {
        Some(rest) => {
            let part: String = match split_once(rest.as_str(), " for ") {
                Some(x) => x.1,
                None => rest,
            };
            let name: String = cut(part.as_str(), "<{ ");
            if valid_ident(name.as_str()) {
                Some(("impl".to_owned(), name))
            } else {
                None
            }
        },
        None => None,
    }
}

fn parse_rust_symbol(s: &str) -> (r: Option<(String, String)>)
    ensures
        found(r) == rust_symbol(s@),
{
    let table: Vec<(&str, &str)> = vec![
        ("pub async fn ", "fn"),
        ("pub fn ", "fn"),
        ("async fn ", "fn"),
        ("fn ", "fn"),
        ("pub struct ", "struct"),
        ("struct ", "struct"),
        ("pub enum ", "enum"),
        ("enum ", "enum"),
        ("pub trait ", "trait"),
        ("trait ", "trait"),
        ("pub type ", "type"),
        ("type ", "type"),
    ];
    assert(keywords(table@) =~= rust_keywords());
    let a: Option<(String, String)> = find_keyword(s, &table, "(<{ \n");
    if a.is_some() {
        return a;
    }
    let b: Option<(String, String)> = parse_impl(s, "pub impl ");
    if b.is_some() {
        return b;
    }
    parse_impl(s, "impl ")
}

/// The keywords of Python.
pub open spec fn python_keywords() -> Seq<Keyword> {
    seq![
        ("async def "@, "fn"@),
        ("def "@, "fn"@),
        ("class "@, "class"@),
    ]
}

/// The symbol that a line of Python begins.
pub open spec fn python_symbol(s: Seq<char>) -> Option<Symbol> {
    keyword_symbol(s, python_keywords(), "(: "@)
}

fn parse_python_symbol(s: &str) -> (r: Option<(String, String)>)
    ensures
        found(r) == python_symbol(s@),
{
    let table: Vec<(&str, &str)> = vec![
        ("async def ", "fn"),
        ("def ", "fn"),
        ("class ", "class"),
    ];
    assert(keywords(table@) =~= python_keywords());
    find_keyword(s, &table, "(: ")
}

/// The keywords of JavaScript and TypeScript.
pub open spec fn js_keywords() -> Seq<Keyword> {
    seq![
        ("export default async function "@, "fn"@),
        ("export async function "@, "fn"@),
        ("export function "@, "fn"@),
        ("async function "@, "fn"@),
        ("function "@, "fn"@),
        ("export default class "@, "class"@),
        ("export abstract class "@, "class"@),
        ("export class "@, "class"@),
        ("abstract class "@, "class"@),
        ("class "@, "class"@),
    ]
}

/// The constant that holds a function, where the line begins one with `p`.
pub open spec fn const_symbol(s: Seq<char>, p: Seq<char>) -> Option<Symbol> {
    let rest = s.skip(p.len() as int);
    let name = before_any(rest, "=: "@);
    if begins(s, p) && (has(rest, "=>"@) || has(rest, "= function"@)) && is_ident(name) {
        Some(("const"@, name))
    } else {
        None
    }
}

/// The symbol that a line of JavaScript or TypeScript begins.
pub open spec fn js_symbol(s: Seq<char>) -> Option<Symbol> {
    either(
        keyword_symbol(s, js_keywords(), "(<{ "@),
        either(const_symbol(s, "export const "@), const_symbol(s, "const "@)),
    )
}

fn parse_const(s: &str, p: &str) -> (r: Option<(String, String)>)
    ensures
        found(r) == const_symbol(s@, p@),
{
    match strip_prefix(s, p) {
        Some(rest) => {
            if contains(rest.as_str(), "=>") || contains(rest.as_str(), "= function") {
                let name: String = cut(rest.as_str(), "=: ");
                if valid_ident(name.as_str()) {
                    return Some(("const".to_owned(), name));
                }
            }
            None
        },
        None => None,
    }
}

fn parse_js_ts_symbol(s: &str) -> (r: Option<(String, String)>)
    ensures
        found(r) == js_symbol(s@),
{
    let table: Vec<(&str, &str)> = vec![
        ("export default async function ", "fn"),
        ("export async function ", "fn"),
        ("export function ", "fn"),
        ("async function ", "fn"),
        ("function ", "fn"),
        ("export default class ", "class"),
        ("export abstract class ", "class"),
        ("export class ", "class"),
        ("abstract class ", "class"),
        ("class ", "class"),
    ];
    assert(keywords(table@) =~= js_keywords());
    let a: Option<(String, String)> = find_keyword(s, &table, "(<{ ");
    if a.is_some() {
        return a;
    }
    let b: Option<(String, String)> = parse_const(s, "export const ");
    if b.is_some() {
        return b;
    }
    parse_const(s, "const ")
}

/// `s` without the spaces and tabs that it begins with.
pub open spec fn unindented(s: Seq<char>) -> Seq<char>
    decreases s.len(),
{
    if s.len() > 0 && (s[0] == ' ' || s[0] == '\t') {
        unindented(s.skip(1))
    } else {
        s
    }
}

fn unindent(s: &str) -> (r: String)
    ensures
        r@ == unindented(s@),
{
    let v: Vec<char> = chars(s);
    let mut i: usize = 0;
    assert(v@.skip(0) =~= v@);
    while i < v.len() && (v[i] == ' ' || v[i] == '\t')
        invariant
            i <= v@.len(),
            v@ == s@,
            unindented(s@) == unindented(v@.skip(i as int)),
        decreases v.len() - i,
    {
        assert(v@.skip(i as int).skip(1) =~= v@.skip(i + 1));
        i += 1;
    }
    let r: String = text_of(&v, i, v.len());
    assert(r@ =~= v@.skip(i as int));
    r
}

/// What follows the receiver of a method in Go, where there is one; `None` where a
/// receiver does not end.
pub open spec fn behind_receiver(s: Seq<char>) -> Option<Seq<char>> {
    if begins(s, "("@) {
        match parted(s, ")"@) {
            Some(x) => Some(unindented(x.1)),
            None => None,
        }
    } else {
        Some(s)
    }
}

/// The symbol that a line of Go begins.
pub open spec fn go_symbol(s: Seq<char>) -> Option<Symbol> {
    if begins(s, "func "@) {
        match behind_receiver(s.skip("func "@.len() as int)) {
            Some(rest) => if is_ident(before_any(rest, "( "@)) {
                Some(("fn"@, before_any(rest, "( "@)))
            } else {
                None
            },
            None => None,
        }
    } else if begins(s, "type "@) && is_ident(before_any(s.skip("type "@.len() as int), " ["@)) {
        Some(("type"@, before_any(s.skip("type "@.len() as int), " ["@)))
    } else {
        None
    }
}

fn parse_go_symbol(s: &str) -> (r: Option<(String, String)>)
    ensures
        found(r) == go_symbol(s@),
{
    if let Some(rest) = strip_prefix(s, "func ") {
        let rest: String = if starts_with(rest.as_str(), "(") {
            match split_once(rest.as_str(), ")") {
                Some(x) => unindent(x.1.as_str()),
                None => {
                    return None;
                },
            }
        } else {
            rest
        };
        let name: String = cut(rest.as_str(), "( ");
        return if valid_ident(name.as_str()) {
            Some(("fn".to_owned(), name))
        } else {
            None
        };
    }
    if let Some(rest) = strip_prefix(s, "type ") {
        let name: String = cut(rest.as_str(), " [");
        if valid_ident(name.as_str()) {
            return Some(("type".to_owned(), name));
        }
    }
    None
}

/// The method that a line of Java, Kotlin or C# begins: the last word before the first
/// bracket, unless the line is a condition or a loop.
pub open spec fn method_symbol(s: Seq<char>) -> Option<Symbol> {
    if has(s, "("@) && !begins(s, "if "@) && !begins(s, "for "@) && !begins(s, "while "@) {
        match last_word(before_any(s, "("@)) {
            Some(name) => if is_ident(name) && byte_len(name) > 1 {
                Some(("method"@, name))
            } else {
                None
            },
            None => None,
        }
    } else {
        None
    }
}

fn parse_jvm_dotnet_symbol(s: &str) -> (r: Option<(String, String)>)
    ensures
        found(r) == method_symbol(s@),
{
    if contains(s, "(") && !starts_with(s, "if ") && !starts_with(s, "for ") && !starts_with(
        s,
        "while ",
    ) {
        if let Some(name) = word_at_end(cut(s, "(").as_str()) {
            if valid_ident(name.as_str()) && bytes_in(name.as_str()) > 1 {
                return Some(("method".to_owned(), name));
            }
        }
    }
    None
}

// ---- languages that are written in capitals -------------------------------

/// The last word before a suffix that a line ends with.
pub open spec fn suffix_word(s: Seq<char>, suffix: Seq<char>) -> Option<Seq<char>> {
    last_word(s.take(s.len() - suffix.len()))
}

/// Whether a text is some name of at most sixty-four bytes.
pub open spec fn is_short_name(s: Seq<char>) -> bool {
    s.len() > 0 && byte_len(s) <= 64
}

/// The routine that a line calls with the keyword `p`.
pub open spec fn call_symbol(s: Seq<char>, p: Seq<char>) -> Option<Symbol> {
    let name = without_trailing(first_word(s.skip(p.len() as int)), '.');
    if begins(s, p) && is_short_name(name) {
        Some(("call"@, name))
    } else {
        None
    }
}

/// The symbol that a line of COBOL in capitals begins: a division, a section, a
/// paragraph, or a call.
pub open spec fn cobol_symbol(s: Seq<char>) -> Option<Symbol> {
    let paragraph = without_trailing(s, '.');
    if ends(s, " DIVISION."@) {
        match suffix_word(s, " DIVISION."@) {
            Some(name) => Some(("division"@, name)),
            None => None,
        }
    } else if ends(s, " SECTION."@) {
        match suffix_word(s, " SECTION."@) {
            Some(name) => Some(("section"@, name)),
            None => None,
        }
    } else if ends(s, "."@) && !(has(s, " "@)) && byte_len(s) > 1 && is_short_name(paragraph) {
        Some(("paragraph"@, paragraph))
    } else {
        either(call_symbol(s, "PERFORM "@), call_symbol(s, "CALL "@))
    }
}

fn before_suffix(s: &str, suffix: &str) -> (r: Option<String>)
    requires
        ends(s@, suffix@),
    ensures
        opt(r) == suffix_word(s@, suffix@),
{
    let v: Vec<char> = chars(s);
    let n: usize = chars(suffix).len();
    let t: String = text_of(&v, 0, v.len() - n);
    assert(t@ =~= s@.take(s@.len() - suffix@.len()));
    word_at_end(t.as_str())
}

fn parse_call(s: &str, p: &str) -> (r: Option<(String, String)>)
    ensures
        found(r) == call_symbol(s@, p@),
{
    match strip_prefix(s, p) {
        Some(rest) => {
            let name: String = drop_trailing(word_at_start(rest.as_str()).as_str(), '.');
            if !name.as_str().is_empty() && bytes_in(name.as_str()) <= 64 {
                Some(("call".to_owned(), name))
            } else {
                None
            }
        },
        None => None,
    }
}

/// The symbol that a line of COBOL in capitals begins.
pub fn cobol_symbol_in(su: &str) -> (r: Option<(String, String)>)
    ensures
        found(r) == cobol_symbol(su@),
{
    proof {
        reveal_strlit(" DIVISION.");
        reveal_strlit(" SECTION.");
    }
    if ends_with(su, " DIVISION.") {
        return match before_suffix(su, " DIVISION.") {
            Some(name) => Some(("division".to_owned(), name)),
            None => None,
        };
    }
    if ends_with(su, " SECTION.") {
        return match before_suffix(su, " SECTION.") {
            Some(name) => Some(("section".to_owned(), name)),
            None => None,
        };
    }
    if ends_with(su, ".") && !contains(su, " ") && bytes_in(su) > 1 {
        let name: String = drop_trailing(su, '.');
        if !name.as_str().is_empty() && bytes_in(name.as_str()) <= 64 {
            return Some(("paragraph".to_owned(), name));
        }
    }
    let a: Option<(String, String)> = parse_call(su, "PERFORM ");
    if a.is_some() {
        return a;
    }
    parse_call(su, "CALL ")
}

/// The keywords of Natural that are followed by a name.
pub open spec fn natural_keywords() -> Seq<Keyword> {
    seq![
        ("SUBROUTINE "@, "subroutine"@),
        ("FUNCTION "@, "subroutine"@),
    ]
}

/// The symbol of a definition in Natural: any word may be the name.
pub open spec fn define_symbol(s: Seq<char>, p: Seq<char>, kind: Seq<char>) -> Option<Symbol> {
    let name = first_word(s.skip(p.len() as int));
    if begins(s, p) && name.len() > 0 {
        Some((kind, name))
    } else {
        None
    }
}

/// The symbol that a line of Natural in capitals begins.
pub open spec fn natural_symbol(s: Seq<char>) -> Option<Symbol> {
    either(
        define_symbol(s, "DEFINE SUBROUTINE "@, "subroutine"@),
        either(
            define_symbol(s, "DEFINE FUNCTION "@, "function"@),
            either(
                define_symbol(s, "DEFINE DATA"@, "data-section"@),
                if begins(s, "DEFINE DATA"@) {
                    Some(("data-section"@, "DATA"@))
                } else {
                    either(
                        define_symbol(s, "DEFINE WINDOW "@, "window"@),
                        keyword_word(s, natural_keywords()),
                    )
                },
            ),
        ),
    )
}

fn parse_define(s: &str, p: &str, kind: &str) -> (r: Option<(String, String)>)
    ensures
        found(r) == define_symbol(s@, p@, kind@),
{
    match strip_prefix(s, p) {
        Some(rest) => {
            let name: String = word_at_start(rest.as_str());
            if !name.as_str().is_empty() {
                Some((kind.to_owned(), name))
            } else {
                None
            }
        },
        None => None,
    }
}

/// The symbol that a line of Natural in capitals begins.
pub fn natural_symbol_in(su: &str) -> (r: Option<(String, String)>)
    ensures
        found(r) == natural_symbol(su@),
{
    let a: Option<(String, String)> = parse_define(su, "DEFINE SUBROUTINE ", "subroutine");
    if a.is_some() {
        return a;
    }
    let b: Option<(String, String)> = parse_define(su, "DEFINE FUNCTION ", "function");
    if b.is_some() {
        return b;
    }
    let c: Option<(String, String)> = parse_define(su, "DEFINE DATA", "data-section");
    if c.is_some() {
        return c;
    }
    if starts_with(su, "DEFINE DATA") {
        return Some(("data-section".to_owned(), "DATA".to_owned()));
    }
    let d: Option<(String, String)> = parse_define(su, "DEFINE WINDOW ", "window");
    if d.is_some() {
        return d;
    }
    let table: Vec<(&str, &str)> = vec![
        ("SUBROUTINE ", "subroutine"),
        ("FUNCTION ", "subroutine"),
    ];
    assert(keywords(table@) =~= natural_keywords());
    find_keyword_word(su, &table)
}

/// The declarations of free-form RPG.
pub open spec fn rpg_keywords() -> Seq<Keyword> {
    seq![
        ("DCL-PROC "@, "procedure"@),
        ("DCL-DS "@, "data-struct"@),
        ("DCL-S "@, "variable"@),
        ("DCL-C "@, "constant"@),
        ("DCL-F "@, "file"@),
    ]
}

/// The keywords that begin a subroutine of RPG.
pub open spec fn rpg_subroutines() -> Seq<Keyword> {
    seq![
        ("BEGSR "@, "subroutine"@),
        ("BEGSR\n"@, "subroutine"@),
    ]
}

/// The procedure that a fixed-form line of RPG begins: its name stands in the fourteen
/// columns behind the sixth.
pub open spec fn column_symbol(s: Seq<char>) -> Option<Symbol> {
    let columns = first_chars(
        if s.len() <= 6 {
            seq![]
        } else {
            s.skip(6)
        },
        14,
    );
    if begins(s, "P"@) && byte_len(s) > 1 && is_ident(trim(columns)) {
        Some(("procedure"@, trim(columns)))
    } else {
        None
    }
}

/// The symbol that a line of RPG in capitals begins.
pub open spec fn rpg_symbol(s: Seq<char>) -> Option<Symbol> {
    either(
        keyword_word(s, rpg_keywords()),
        either(column_symbol(s), keyword_word(s, rpg_subroutines())),
    )
}

fn parse_columns(s: &str) -> (r: Option<(String, String)>)
    ensures
        found(r) == column_symbol(s@),
{
    if starts_with(s, "P") && bytes_in(s) > 1 {
        let v: Vec<char> = chars(s);
        let n: usize = if v.len() < 6 { v.len() } else { 6 };
        let rest: String = text_of(&v, n, v.len());
        assert(rest@ =~= if s@.len() <= 6 {
            seq![]
        } else {
            s@.skip(6)
        });
        let name: String = trimmed(prefix(rest.as_str(), 14).as_str());
        if valid_ident(name.as_str()) {
            return Some(("procedure".to_owned(), name));
        }
    }
    None
}

/// The symbol that a line of RPG in capitals begins.
pub fn rpg_symbol_in(su: &str) -> (r: Option<(String, String)>)
    ensures
        found(r) == rpg_symbol(su@),
{
    let table: Vec<(&str, &str)> = vec![
        ("DCL-PROC ", "procedure"),
        ("DCL-DS ", "data-struct"),
        ("DCL-S ", "variable"),
        ("DCL-C ", "constant"),
        ("DCL-F ", "file"),
    ];
    assert(keywords(table@) =~= rpg_keywords());
    let a: Option<(String, String)> = find_keyword_word(su, &table);
    if a.is_some() {
        return a;
    }
    let b: Option<(String, String)> = parse_columns(su);
    if b.is_some() {
        return b;
    }
    let table: Vec<(&str, &str)> = vec![
        ("BEGSR ", "subroutine"),
        ("BEGSR\n", "subroutine"),
    ];
    assert(keywords(table@) =~= rpg_subroutines());
    find_keyword_word(su, &table)
}

/// Whether a text is some name of at most eight bytes.
pub open spec fn is_jcl_name(s: Seq<char>) -> bool {
    s.len() > 0 && byte_len(s) <= 8
}

/// The statement whose second word is `verb`: its first word is its name.
pub open spec fn statement(s: Seq<char>, verb: Seq<char>, kind: Seq<char>) -> Option<Symbol> {
    let w = words(s);
    if w.len() >= 2 && w[1] == verb && is_jcl_name(w[0]) {
        Some((kind, w[0]))
    } else {
        None
    }
}

/// How many characters `s` begins with that are neither white nor a comma.
pub open spec fn operand_len(s: Seq<char>) -> nat
    decreases s.len(),
{
    if s.len() == 0 || s[0] == ',' || is_white(s[0]) {
        0
    } else {
        1 + operand_len(s.skip(1))
    }
}

/// The step that runs what `p` names: it is called by the word before `EXEC`, else by
/// what it runs.
pub open spec fn step_symbol(before: Option<Seq<char>>, after: Seq<char>, p: Seq<char>) -> Option<Symbol> {
    let rest = trim_start(after).skip(p.len() as int);
    let target = rest.take(operand_len(rest) as int);
    if begins(trim_start(after), p) && target.len() > 0 {
        Some(
            (
                "step"@,
                match before {
                    Some(w) => w,
                    None => target,
                },
            ),
        )
    } else {
        None
    }
}

/// The step that a line of JCL runs.
pub open spec fn exec_symbol(s: Seq<char>) -> Option<Symbol> {
    match parted(s, "EXEC "@) {
        Some(x) => either(
            step_symbol(last_word(x.0), x.1, "PGM="@),
            step_symbol(last_word(x.0), x.1, "PROC="@),
        ),
        None => None,
    }
}

/// The symbol that a line of JCL in capitals begins: a job, a step, or a data
/// definition.
pub open spec fn jcl_symbol(s: Seq<char>) -> Option<Symbol> {
    let t = match behind(s, "//"@) {
        Some(x) => x,
        None => s,
    };
    either(statement(t, "JOB"@, "job"@), either(exec_symbol(t), statement(t, "DD"@, "dd"@)))
}

fn parse_statement(s: &str, verb: &str, kind: &str) -> (r: Option<(String, String)>)
    ensures
        found(r) == statement(s@, verb@, kind@),
{
    let w: Vec<String> = split_words(s);
    assert(texts(w@).len() == w@.len());
    if w.len() >= 2 {
        assert(texts(w@)[0] == w@[0]@);
        assert(texts(w@)[1] == w@[1]@);
        if same(w[1].as_str(), verb) && !w[0].as_str().is_empty() && bytes_in(w[0].as_str()) <= 8 {
            return Some((kind.to_owned(), w[0].clone()));
        }
    }
    None
}

fn operand(s: &str) -> (r: String)
    ensures
        r@ == s@.take(operand_len(s@) as int),
{
    let v: Vec<char> = chars(s);
    let mut i: usize = 0;
    assert(v@.skip(0) =~= v@);
    while i < v.len() && v[i] != ',' && !white(v[i])
        invariant
            i <= v@.len(),
            v@ == s@,
            operand_len(s@) == i + operand_len(v@.skip(i as int)),
        decreases v.len() - i,
    {
        assert(v@.skip(i as int).skip(1) =~= v@.skip(i + 1));
        i += 1;
    }
    let r: String = text_of(&v, 0, i);
    assert(r@ =~= s@.take(operand_len(s@) as int));
    r
}

fn parse_step(before: &Option<String>, after: &str, p: &str) -> (r: Option<(String, String)>)
    ensures
        found(r) == step_symbol(opt(*before), after@, p@),
{
    let v: Vec<char> = chars(after);
    assert(v@.skip(0) =~= v@);
    let i: usize = skip_white(&v, 0);
    let t: String = text_of(&v, i, v.len());
    assert(t@ =~= trim_start(after@));
    match strip_prefix(t.as_str(), p) {
        Some(rest) => {
            let target: String = operand(rest.as_str());
            if !target.as_str().is_empty() {
                let name: String = match before {
                    Some(w) => w.clone(),
                    None => target,
                };
                Some(("step".to_owned(), name))
            } else {
                None
            }
        },
        None => None,
    }
}

/// The symbol that a line of JCL in capitals begins.
pub fn jcl_symbol_in(su: &str) -> (r: Option<(String, String)>)
    ensures
        found(r) == jcl_symbol(su@),
{
    let s: String = match strip_prefix(su, "//") {
        Some(t) => t,
        None => su.to_owned(),
    };
    let a: Option<(String, String)> = parse_statement(s.as_str(), "JOB", "job");
    if a.is_some() {
        return a;
    }
    if let Some(x) = split_once(s.as_str(), "EXEC ") {
        let before: Option<String> = word_at_end(x.0.as_str());
        let b: Option<(String, String)> = parse_step(&before, x.1.as_str(), "PGM=");
        if b.is_some() {
            return b;
        }
        let c: Option<(String, String)> = parse_step(&before, x.1.as_str(), "PROC=");
        if c.is_some() {
            return c;
        }
    }
    parse_statement(s.as_str(), "DD", "dd")
}

// ---- PowerScript ----------------------------------------------------------

/// The keywords of PowerScript that begin a type.
pub open spec fn power_types() -> Seq<Keyword> {
    seq![
        ("forward\n"@, "forward"@),
        ("type "@, "type"@),
        ("global type "@, "global-type"@),
    ]
}

/// The keywords of PowerScript that begin a routine.
pub open spec fn power_routines() -> Seq<Keyword> {
    seq![
        ("public function "@, "function"@),
        ("private function "@, "function"@),
        ("protected function "@, "function"@),
        ("function "@, "function"@),
        ("public subroutine "@, "subroutine"@),
        ("private subroutine "@, "subroutine"@),
        ("subroutine "@, "subroutine"@),
        ("on "@, "event"@),
        ("event "@, "event"@),
    ]
}

/// The symbol of the first keyword that a line begins with, capitals aside, and whose
/// next word is a name.
pub open spec fn folded_word(s: Seq<char>, table: Seq<Keyword>) -> Option<Symbol>
    decreases table.len(),
{
    if table.len() == 0 {
        None
    } else {
        let name = first_word(s.skip(table[0].0.len() as int));
        if begins(lower(s), table[0].0) && is_ident(name) {
            Some((table[0].1, name))
        } else {
            folded_word(s, table.skip(1))
        }
    }
}

/// The symbol of the first keyword that a line begins with, capitals aside, and that is
/// followed by a name; the name ends at one of `stops`.
pub open spec fn folded_symbol(s: Seq<char>, table: Seq<Keyword>, stops: Seq<char>) -> Option<Symbol>
    decreases table.len(),
{
    if table.len() == 0 {
        None
    } else {
        let name = before_any(s.skip(table[0].0.len() as int), stops);
        if begins(lower(s), table[0].0) && is_ident(name) {
            Some((table[0].1, name))
        } else {
            folded_symbol(s, table.skip(1), stops)
        }
    }
}

/// The symbol that a line of PowerScript begins.
pub open spec fn power_symbol(s: Seq<char>) -> Option<Symbol> {
    either(folded_word(s, power_types()), folded_symbol(s, power_routines(), "( "@))
}

fn behind_folded(s: &str, p: &str) -> (r: Option<String>)
    ensures
        opt(r) == (if begins(lower(s@), p@) {
            Some(s@.skip(p@.len() as int))
        } else {
            None
        }),
{
    let low: String = lowered(s);
    if starts_with(low.as_str(), p) {
        let v: Vec<char> = chars(s);
        let n: usize = chars(p).len();
        assert(lower(s@).len() == s@.len());
        let t: String = text_of(&v, n, v.len());
        assert(t@ =~= s@.skip(p@.len() as int));
        Some(t)
    } else {
        None
    }
}

fn find_folded(s: &str, table: &Vec<(&str, &str)>, stops: Option<&str>) -> (r: Option<
    (String, String),
>)
    ensures
        found(r) == (match stops {
            Some(t) => folded_symbol(s@, keywords(table@), t@),
            None => folded_word(s@, keywords(table@)),
        }),
{
    let ghost all = keywords(table@);
    let mut i: usize = 0;
    assert(all.skip(0) =~= all);
    while i < table.len()
        invariant
            i <= table@.len(),
            all == keywords(table@),
            match stops {
                Some(t) => folded_symbol(s@, all, t@) == folded_symbol(
                    s@,
                    all.skip(i as int),
                    t@,
                ),
                None => folded_word(s@, all) == folded_word(s@, all.skip(i as int)),
            },
        decreases table.len() - i,
    {
        assert(all.skip(i as int).skip(1) =~= all.skip(i + 1));
        assert(all.skip(i as int)[0] == (table@[i as int].0@, table@[i as int].1@));
        if let Some(rest) = behind_folded(s, table[i].0) {
            let name: String = match stops {
                Some(t) => cut(rest.as_str(), t),
                None => word_at_start(rest.as_str()),
            };
            if valid_ident(name.as_str()) {
                return Some((table[i].1.to_owned(), name));
            }
        }
        i += 1;
    }
    None
}

fn parse_powerscript_symbol(s: &str) -> (r: Option<(String, String)>)
    ensures
        found(r) == power_symbol(s@),
{
    let table: Vec<(&str, &str)> = vec![
        ("forward\n", "forward"),
        ("type ", "type"),
        ("global type ", "global-type"),
    ];
    assert(keywords(table@) =~= power_types());
    let a: Option<(String, String)> = find_folded(s, &table, None);
    if a.is_some() {
        return a;
    }
    let table: Vec<(&str, &str)> = vec![
        ("public function ", "function"),
        ("private function ", "function"),
        ("protected function ", "function"),
        ("function ", "function"),
        ("public subroutine ", "subroutine"),
        ("private subroutine ", "subroutine"),
        ("subroutine ", "subroutine"),
        ("on ", "event"),
        ("event ", "event"),
    ];
    assert(keywords(table@) =~= power_routines());
    find_folded(s, &table, Some("( "))
}

// ---- all languages --------------------------------------------------------

/// The symbol that a line begins in a language.
pub open spec fn symbol(lang: Seq<char>, line: Seq<char>) -> Option<Symbol> {
    let s = trim(line);
    if lang == "rust"@ {
        rust_symbol(s)
    } else if lang == "python"@ {
        python_symbol(s)
    } else if lang == "javascript"@ || lang == "typescript"@ || lang == "tsx"@ || lang == "jsx"@ {
        js_symbol(s)
    } else if lang == "go"@ {
        go_symbol(s)
    } else if lang == "java"@ || lang == "kotlin"@ || lang == "csharp"@ {
        method_symbol(s)
    } else if lang == "cobol"@ {
        cobol_symbol(uppercase(s))
    } else if lang == "natural"@ {
        natural_symbol(uppercase(s))
    } else if lang == "rpg"@ {
        rpg_symbol(uppercase(s))
    } else if lang == "powerscript"@ {
        power_symbol(s)
    } else if lang == "jcl"@ {
        jcl_symbol(uppercase(s))
    } else {
        None
    }
}

/// The symbol that a line begins in a language: its kind and its name.
pub fn parse_symbol(lang: &str, line: &str) -> (r: Option<(String, String)>)
    ensures
        found(r) == symbol(lang@, line@),
{
    let t: String = trimmed(line);
    let s: &str = t.as_str();
    if same(lang, "rust") {
        parse_rust_symbol(s)
    } else if same(lang, "python") {
        parse_python_symbol(s)
    } else if same(lang, "javascript") || same(lang, "typescript") || same(lang, "tsx") || same(
        lang,
        "jsx",
    ) {
        parse_js_ts_symbol(s)
    } else if same(lang, "go") {
        parse_go_symbol(s)
    } else if same(lang, "java") || same(lang, "kotlin") || same(lang, "csharp") {
        parse_jvm_dotnet_symbol(s)
    } else if same(lang, "cobol") {
        cobol_symbol_in(s.to_uppercase().as_str())
    } else if same(lang, "natural") {
        natural_symbol_in(s.to_uppercase().as_str())
    } else if same(lang, "rpg") {
        rpg_symbol_in(s.to_uppercase().as_str())
    } else if same(lang, "powerscript") {
        parse_powerscript_symbol(s)
    } else if same(lang, "jcl") {
        jcl_symbol_in(s.to_uppercase().as_str())
    } else {
        None
    }
}

/// The symbol of the first of some lines that begins one.
pub open spec fn first_symbol(lang: Seq<char>, lines: Seq<Seq<char>>) -> Option<Symbol>
    decreases lines.len(),
{
    if lines.len() == 0 {
        None
    } else {
        either(symbol(lang, lines[0]), first_symbol(lang, lines.skip(1)))
    }
}

/// The first lines of a piece of code: those that are looked at.
pub open spec fn head_lines(lines: Seq<Seq<char>>) -> Seq<Seq<char>> {
    if lines.len() <= 8 {
        lines
    } else {
        lines.take(8)
    }
}

/// The symbol that one of the first eight lines of a piece of code begins: its kind and
/// its name.
pub fn detect_symbol(lang: &str, lines: &[String]) -> (r: (Option<String>, Option<String>))
    ensures
        match first_symbol(lang@, head_lines(texts(lines@))) {
            Some(x) => opt(r.0) == Some(x.0) && opt(r.1) == Some(x.1),
            None => r.0 is None && r.1 is None,
        },
{
    let ghost all = head_lines(texts(lines@));
    let n: usize = if lines.len() <= 8 { lines.len() } else { 8 };
    let mut i: usize = 0;
    assert(all.skip(0) =~= all);
    while i < n
        invariant
            i <= n == all.len(),
            n <= lines@.len(),
            all == head_lines(texts(lines@)),
            first_symbol(lang@, all) == first_symbol(lang@, all.skip(i as int)),
        decreases n - i,
    {
        assert(all.skip(i as int).skip(1) =~= all.skip(i + 1));
        assert(all.skip(i as int)[0] == lines@[i as int]@);
        if let Some(x) = parse_symbol(lang, lines[i].as_str()) {
            return (Some(x.0), Some(x.1));
        }
        i += 1;
    }
    (None, None)
}

} // verus!
