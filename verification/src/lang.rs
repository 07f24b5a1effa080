//! Language detection by file extension.
use vstd::prelude::*;

use crate::text::{chars, lower, lowered, same, text_of};

verus! {

/// The position of the last `c` in `s`, if there is one.
pub open spec fn last_of(s: Seq<char>, c: char) -> Option<int>
    decreases s.len(),
{
    if s.len() == 0 {
        None
    } else if s.last() == c {
        Some(s.len() - 1)
    } else {
        last_of(s.drop_last(), c)
    }
}

/// The position of the last `c` in `v`, if there is one.
pub fn find_last(v: &Vec<char>, c: char) -> (r: Option<usize>)
    ensures
        match r {
            Some(i) => last_of(v@, c) == Some(i as int) && i < v.len(),
            None => last_of(v@, c) is None,
        },
{
    let mut i: usize = v.len();
    assert(v@.take(i as int) =~= v@);
    while i > 0
        invariant
            i <= v@.len(),
            last_of(v@, c) == last_of(v@.take(i as int), c),
        decreases i,
    {
        assert(v@.take(i as int).drop_last() =~= v@.take(i - 1));
        if v[i - 1] == c {
            return Some(i - 1);
        }
        i -= 1;
    }
    None
}

/// The last `c` stands inside the text.
pub proof fn lemma_last_of(s: Seq<char>, c: char)
    ensures
        match last_of(s, c) {
            Some(i) => 0 <= i < s.len(),
            None => true,
        },
    decreases s.len(),
{
    if s.len() > 0 {
        lemma_last_of(s.drop_last(), c);
    }
}

/// A part of a path as the name of a file; nothing where it stands for a directory.
pub open spec fn named_part(part: Seq<char>) -> Seq<char> {
    if part == "."@ || part == ".."@ {
        seq![]
    } else {
        part
    }
}

/// The name of the file at the end of a path. Slashes at the end do not count, nor do
/// parts that are a single dot. Nothing where no name is left, or the path leads upwards.
pub open spec fn file_name(path: Seq<char>) -> Seq<char>
    decreases path.len(),
{
    proof {
        lemma_last_of(path, '/');
    }
    match last_of(path, '/') {
        Some(i) => {
            let part = path.skip(i + 1);
            if part.len() == 0 || part == "."@ {
                file_name(path.take(i))
            } else {
                named_part(part)
            }
        },
        None => named_part(path),
    }
}

/// The extension of a file name: what stands behind its last dot, where something stands
/// before it.
pub open spec fn extension(name: Seq<char>) -> Seq<char> {
    match last_of(name, '.') {
        Some(i) => if i > 0 && name != ".."@ {
            name.skip(i + 1)
        } else {
            seq![]
        },
        None => seq![],
    }
}

fn name_in(v: &Vec<char>, from: usize, to: usize) -> (r: String)
    requires
        from <= to <= v@.len(),
    ensures
        r@ == named_part(v@.subrange(from as int, to as int)),
{
    let t: String = text_of(v, from, to);
    if same(t.as_str(), ".") || same(t.as_str(), "..") {
        let t: String = String::new();
        assert(t@ =~= seq![]);
        t
    } else {
        t
    }
}

/// The name of the file at the end of a path.
pub fn name_of(path: &str) -> (r: String)
    ensures
        r@ == file_name(path@),
{
    proof {
        reveal_strlit(".");
    }
    let v: Vec<char> = chars(path);
    let mut to: usize = v.len();
    assert(v@.take(to as int) =~= v@);
    loop
        invariant
            to <= v@.len(),
            "."@ == seq!['.'],
            file_name(path@) == file_name(v@.take(to as int)),
        decreases to,
    {
        let ghost left = v@.take(to as int);
        let mut from: usize = to;
        while from > 0 && v[from - 1] != '/'
            invariant
                from <= to <= v@.len(),
                left == v@.take(to as int),
                last_of(left, '/') == last_of(v@.take(from as int), '/'),
            decreases from,
        {
            assert(v@.take(from as int).drop_last() =~= v@.take(from - 1));
            from -= 1;
        }
        if from == 0 {
            assert(left =~= v@.subrange(0, to as int));
            return name_in(&v, 0, to);
        }
        assert(last_of(left, '/') == Some(from - 1));
        let ghost part = left.skip(from as int);
        assert(part =~= v@.subrange(from as int, to as int));
        if from < to && !(from + 1 == to && v[from] == '.') {
            assert(part != "."@) by {
                assert(part.len() == to - from);
                assert(part[0] == v@[from as int]);
                assert("."@[0] == '.');
            }
            return name_in(&v, from, to);
        }
        assert(part.len() == 0 || part =~= "."@);
        assert(left.take(from - 1) =~= v@.take(from - 1));
        to = from - 1;
    }
}

/// The extension of a file name.
pub fn extension_of(name: &str) -> (r: String)
    ensures
        r@ == extension(name@),
{
    let v: Vec<char> = chars(name);
    match find_last(&v, '.') {
        Some(i) => {
            if i > 0 && !same(name, "..") {
                let t: String = text_of(&v, i + 1, v.len());
                assert(t@ =~= name@.skip(i + 1));
                t
            } else {
                let t: String = String::new();
                assert(t@ =~= seq![]);
                t
            }
        },
        None => {
            let t: String = String::new();
            assert(t@ =~= seq![]);
            t
        },
    }
}

/// The language of an extension in small letters; anything unknown is text.
pub open spec fn language_of(ext: Seq<char>) -> Seq<char> {
    if ext == "rs"@ {
        "rust"@
    } else if ext == "py"@ {
        "python"@
    } else if ext == "js"@ || ext == "mjs"@ || ext == "cjs"@ {
        "javascript"@
    } else if ext == "ts"@ || ext == "mts"@ {
        "typescript"@
    } else if ext == "tsx"@ {
        "tsx"@
    } else if ext == "jsx"@ {
        "jsx"@
    } else if ext == "go"@ {
        "go"@
    } else if ext == "java"@ {
        "java"@
    } else if ext == "cpp"@ || ext == "cc"@ || ext == "cxx"@ || ext == "h"@ || ext == "hpp"@ {
        "cpp"@
    } else if ext == "c"@ {
        "c"@
    } else if ext == "cs"@ {
        "csharp"@
    } else if ext == "rb"@ {
        "ruby"@
    } else if ext == "kt"@ || ext == "kts"@ {
        "kotlin"@
    } else if ext == "swift"@ {
        "swift"@
    } else if ext == "md"@ || ext == "markdown"@ {
        "markdown"@
    } else if ext == "toml"@ {
        "toml"@
    } else if ext == "json"@ {
        "json"@
    } else if ext == "yaml"@ || ext == "yml"@ {
        "yaml"@
    } else if ext == "html"@ || ext == "htm"@ {
        "html"@
    } else if ext == "css"@ || ext == "scss"@ || ext == "sass"@ {
        "css"@
    } else if ext == "sh"@ || ext == "bash"@ {
        "shell"@
    } else if ext == "sql"@ {
        "sql"@
    } else if ext == "php"@ {
        "php"@
    } else if ext == "lua"@ {
        "lua"@
    } else if ext == "zig"@ {
        "zig"@
    } else if ext == "cbl"@ || ext == "cob"@ || ext == "cpy"@ || ext == "cobol"@ {
        "cobol"@
    } else if ext == "jcl"@ {
        "jcl"@
    } else if ext == "nsp"@ || ext == "nse"@ || ext == "nsd"@ || ext == "nsl"@ || ext == "nst"@ || ext == "nsn"@ {
        "natural"@
    } else if ext == "rpg"@ || ext == "rpgle"@ || ext == "sqlrpgle"@ {
        "rpg"@
    } else if ext == "sru"@ || ext == "sra"@ || ext == "srd"@ || ext == "srw"@ || ext == "pbl"@ || ext == "srf"@ {
        "powerscript"@
    } else {
        "text"@
    }
}

/// The language that the path of a file tells of, by its extension, capitals aside.
pub open spec fn language(path: Seq<char>) -> Seq<char> {
    language_of(lower(extension(file_name(path))))
}

/// The language of an extension in small letters.
fn language_name(e: &str) -> (r: &'static str)
    ensures
        r@ == language_of(e@),
{
    if same(e, "rs") {
        "rust"
    } else if same(e, "py") {
        "python"
    } else if same(e, "js") || same(e, "mjs") || same(e, "cjs") {
        "javascript"
    } else if same(e, "ts") || same(e, "mts") {
        "typescript"
    } else if same(e, "tsx") {
        "tsx"
    } else if same(e, "jsx") {
        "jsx"
    } else if same(e, "go") {
        "go"
    } else if same(e, "java") {
        "java"
    } else if same(e, "cpp") || same(e, "cc") || same(e, "cxx") || same(e, "h") || same(e, "hpp") {
        "cpp"
    } else if same(e, "c") {
        "c"
    } else if same(e, "cs") {
        "csharp"
    } else if same(e, "rb") {
        "ruby"
    } else if same(e, "kt") || same(e, "kts") {
        "kotlin"
    } else if same(e, "swift") {
        "swift"
    } else if same(e, "md") || same(e, "markdown") {
        "markdown"
    } else if same(e, "toml") {
        "toml"
    } else if same(e, "json") {
        "json"
    } else if same(e, "yaml") || same(e, "yml") {
        "yaml"
    } else if same(e, "html") || same(e, "htm") {
        "html"
    } else if same(e, "css") || same(e, "scss") || same(e, "sass") {
        "css"
    } else if same(e, "sh") || same(e, "bash") {
        "shell"
    } else if same(e, "sql") {
        "sql"
    } else if same(e, "php") {
        "php"
    } else if same(e, "lua") {
        "lua"
    } else if same(e, "zig") {
        "zig"
    } else if same(e, "cbl") || same(e, "cob") || same(e, "cpy") || same(e, "cobol") {
        "cobol"
    } else if same(e, "jcl") {
        "jcl"
    } else if same(e, "nsp") || same(e, "nse") || same(e, "nsd") || same(e, "nsl") || same(e, "nst") || same(e, "nsn") {
        "natural"
    } else if same(e, "rpg") || same(e, "rpgle") || same(e, "sqlrpgle") {
        "rpg"
    } else if same(e, "sru") || same(e, "sra") || same(e, "srd") || same(e, "srw") || same(e, "pbl") || same(e, "srf") {
        "powerscript"
    } else {
        "text"
    }
}

/// The language that the path of a file tells of, by its extension, capitals aside.
/// Anything unknown is text.
pub fn detect_language(path: &str) -> (r: &'static str)
    ensures
        r@ == language(path@),
{
    let name: String = name_of(path);
    let ext: String = extension_of(name.as_str());
    language_name(lowered(ext.as_str()).as_str())
}

/// The extension alone tells the language, ASCII capitals aside, and neither a slash at the
/// end of a path nor a single dot behind one changes what it tells.
pub proof fn the_extension_tells_the_language(p: Seq<char>, q: Seq<char>)
    ensures
        lower(extension(file_name(p))) == lower(extension(file_name(q))) ==> language(p)
            == language(q),
        language(p + seq!['/']) == language(p),
        language(p + seq!['/', '.']) == language(p),
{
    reveal_strlit(".");
    let a = p + seq!['/'];
    assert(a.drop_last() =~= p);
    assert(last_of(a, '/') == Some(p.len() as int));
    assert(a.take(p.len() as int) =~= p);
    let b = p + seq!['/', '.'];
    assert(b.drop_last() =~= a);
    assert(last_of(b, '/') == last_of(a, '/'));
    assert(b.skip(p.len() as int + 1) =~= "."@);
    assert(b.take(p.len() as int) =~= p);
}

} // verus!
