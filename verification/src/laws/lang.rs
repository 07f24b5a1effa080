//! Which language the name of a file tells.
use vstd::prelude::*;

use crate::lang::{language, language_of, last_of};
use crate::text::lower;

verus! {

/// The languages and the extensions of their files.
pub open spec fn is_written_in(ext: Seq<char>, lang: Seq<char>) -> bool {
    ||| lang == "rust"@ && (ext == "rs"@)
    ||| lang == "python"@ && (ext == "py"@)
    ||| lang == "javascript"@ && (ext == "js"@ || ext == "mjs"@ || ext == "cjs"@)
    ||| lang == "typescript"@ && (ext == "ts"@ || ext == "mts"@)
    ||| lang == "tsx"@ && (ext == "tsx"@)
    ||| lang == "jsx"@ && (ext == "jsx"@)
    ||| lang == "go"@ && (ext == "go"@)
    ||| lang == "java"@ && (ext == "java"@)
    ||| lang == "cpp"@ && (ext == "cpp"@ || ext == "cc"@ || ext == "cxx"@ || ext == "h"@ || ext == "hpp"@)
    ||| lang == "c"@ && (ext == "c"@)
    ||| lang == "csharp"@ && (ext == "cs"@)
    ||| lang == "ruby"@ && (ext == "rb"@)
    ||| lang == "kotlin"@ && (ext == "kt"@ || ext == "kts"@)
    ||| lang == "swift"@ && (ext == "swift"@)
    ||| lang == "markdown"@ && (ext == "md"@ || ext == "markdown"@)
    ||| lang == "toml"@ && (ext == "toml"@)
    ||| lang == "json"@ && (ext == "json"@)
    ||| lang == "yaml"@ && (ext == "yaml"@ || ext == "yml"@)
    ||| lang == "html"@ && (ext == "html"@ || ext == "htm"@)
    ||| lang == "css"@ && (ext == "css"@ || ext == "scss"@ || ext == "sass"@)
    ||| lang == "shell"@ && (ext == "sh"@ || ext == "bash"@)
    ||| lang == "sql"@ && (ext == "sql"@)
    ||| lang == "php"@ && (ext == "php"@)
    ||| lang == "lua"@ && (ext == "lua"@)
    ||| lang == "zig"@ && (ext == "zig"@)
    ||| lang == "cobol"@ && (ext == "cbl"@ || ext == "cob"@ || ext == "cpy"@ || ext == "cobol"@)
    ||| lang == "jcl"@ && (ext == "jcl"@)
    ||| lang == "natural"@ && (ext == "nsp"@ || ext == "nse"@ || ext == "nsd"@ || ext == "nsl"@ || ext == "nst"@ || ext == "nsn"@)
    ||| lang == "rpg"@ && (ext == "rpg"@ || ext == "rpgle"@ || ext == "sqlrpgle"@)
    ||| lang == "powerscript"@ && (ext == "sru"@ || ext == "sra"@ || ext == "srd"@ || ext == "srw"@ || ext == "pbl"@ || ext == "srf"@)
}

/// Each extension tells its language, capitals aside, wherever the file lies.
pub proof fn extensions_tell_languages(
    dir: Seq<char>,
    stem: Seq<char>,
    ext: Seq<char>,
    lang: Seq<char>,
)
    requires
        is_written_in(lower(ext), lang),
        stem.len() > 0,
        !stem.contains('/') && !ext.contains('/') && !ext.contains('.'),
    ensures
        language(dir + seq!['/'] + stem + seq!['.'] + ext) == lang,
        language(stem + seq!['.'] + ext) == lang,
{
    lemma_language_of(lower(ext));
    let name = stem + seq!['.'] + ext;
    let path = dir + seq!['/'] + name;
    assert(path =~= dir + seq!['/'] + stem + seq!['.'] + ext);
    assert(!name.contains('/')) by {
        if name.contains('/') {
            let i = name.index_of('/');
            if i < stem.len() {
                assert(stem[i] == '/');
            } else if i > stem.len() {
                assert(ext[i - stem.len() - 1] == '/');
            }
        }
    }
    assert(ext.len() > 0) by {
        reveal_strlit("rs");
        reveal_strlit("py");
        reveal_strlit("js");
        reveal_strlit("mjs");
        reveal_strlit("cjs");
        reveal_strlit("ts");
        reveal_strlit("mts");
        reveal_strlit("tsx");
        reveal_strlit("jsx");
        reveal_strlit("go");
        reveal_strlit("java");
        reveal_strlit("cpp");
        reveal_strlit("cc");
        reveal_strlit("cxx");
        reveal_strlit("h");
        reveal_strlit("hpp");
        reveal_strlit("c");
        reveal_strlit("cs");
        reveal_strlit("rb");
        reveal_strlit("kt");
        reveal_strlit("kts");
        reveal_strlit("swift");
        reveal_strlit("md");
        reveal_strlit("markdown");
        reveal_strlit("toml");
        reveal_strlit("json");
        reveal_strlit("yaml");
        reveal_strlit("yml");
        reveal_strlit("html");
        reveal_strlit("htm");
        reveal_strlit("css");
        reveal_strlit("scss");
        reveal_strlit("sass");
        reveal_strlit("sh");
        reveal_strlit("bash");
        reveal_strlit("sql");
        reveal_strlit("php");
        reveal_strlit("lua");
        reveal_strlit("zig");
        reveal_strlit("cbl");
        reveal_strlit("cob");
        reveal_strlit("cpy");
        reveal_strlit("cobol");
        reveal_strlit("jcl");
        reveal_strlit("nsp");
        reveal_strlit("nse");
        reveal_strlit("nsd");
        reveal_strlit("nsl");
        reveal_strlit("nst");
        reveal_strlit("nsn");
        reveal_strlit("rpg");
        reveal_strlit("rpgle");
        reveal_strlit("sqlrpgle");
        reveal_strlit("sru");
        reveal_strlit("sra");
        reveal_strlit("srd");
        reveal_strlit("srw");
        reveal_strlit("pbl");
        reveal_strlit("srf");
        if ext.len() == 0 {
            assert(lower(ext).len() == 0);
        }
    }
    lemma_last_none(name, '/');
    lemma_last_behind(dir, '/', name);
    lemma_last_behind(stem, '.', ext);
    reveal_strlit(".");
    reveal_strlit("..");
    assert(path.skip(dir.len() as int + 1) =~= name);
    assert(name.skip(stem.len() as int + 1) =~= ext);
    if name =~= ".."@ {
        assert(name[1] == '.');
        assert(ext.contains('.')) by {
            assert(stem.len() + 1 + ext.len() == 2);
        }
    }
}

proof fn lemma_last_none(s: Seq<char>, c: char)
    requires
        !s.contains(c),
    ensures
        last_of(s, c) is None,
    decreases s.len(),
{
    if s.len() > 0 {
        assert(s[s.len() - 1] != c);
        assert(!s.drop_last().contains(c)) by {
            if s.drop_last().contains(c) {
                assert(s[s.drop_last().index_of(c)] == c);
            }
        }
        lemma_last_none(s.drop_last(), c);
    }
}

proof fn lemma_last_behind(a: Seq<char>, c: char, b: Seq<char>)
    requires
        !b.contains(c),
    ensures
        last_of(a + seq![c] + b, c) == Some(a.len() as int),
    decreases b.len(),
{
    let s = a + seq![c] + b;
    if b.len() > 0 {
        assert(b[b.len() - 1] != c);
        assert(!b.drop_last().contains(c)) by {
            if b.drop_last().contains(c) {
                assert(b[b.drop_last().index_of(c)] == c);
            }
        }
        assert(s.drop_last() =~= a + seq![c] + b.drop_last());
        lemma_last_behind(a, c, b.drop_last());
    }
}

proof fn lemma_language_of(ext: Seq<char>)
    ensures
        forall|lang: Seq<char>| #[trigger] is_written_in(ext, lang) ==> language_of(ext) == lang,
{
    reveal_strlit("rs");
    reveal_strlit("py");
    reveal_strlit("js");
    reveal_strlit("mjs");
    reveal_strlit("cjs");
    reveal_strlit("ts");
    reveal_strlit("mts");
    reveal_strlit("tsx");
    reveal_strlit("jsx");
    reveal_strlit("go");
    reveal_strlit("java");
    reveal_strlit("cpp");
    reveal_strlit("cc");
    reveal_strlit("cxx");
    reveal_strlit("h");
    reveal_strlit("hpp");
    reveal_strlit("c");
    reveal_strlit("cs");
    reveal_strlit("rb");
    reveal_strlit("kt");
    reveal_strlit("kts");
    reveal_strlit("swift");
    reveal_strlit("md");
    reveal_strlit("markdown");
    reveal_strlit("toml");
    reveal_strlit("json");
    reveal_strlit("yaml");
    reveal_strlit("yml");
    reveal_strlit("html");
    reveal_strlit("htm");
    reveal_strlit("css");
    reveal_strlit("scss");
    reveal_strlit("sass");
    reveal_strlit("sh");
    reveal_strlit("bash");
    reveal_strlit("sql");
    reveal_strlit("php");
    reveal_strlit("lua");
    reveal_strlit("zig");
    reveal_strlit("cbl");
    reveal_strlit("cob");
    reveal_strlit("cpy");
    reveal_strlit("cobol");
    reveal_strlit("jcl");
    reveal_strlit("nsp");
    reveal_strlit("nse");
    reveal_strlit("nsd");
    reveal_strlit("nsl");
    reveal_strlit("nst");
    reveal_strlit("nsn");
    reveal_strlit("rpg");
    reveal_strlit("rpgle");
    reveal_strlit("sqlrpgle");
    reveal_strlit("sru");
    reveal_strlit("sra");
    reveal_strlit("srd");
    reveal_strlit("srw");
    reveal_strlit("pbl");
    reveal_strlit("srf");
    assert("rs"@.len() == 2 && "rs"@[0] == 'r' && "rs"@[1] == 's');
    assert("py"@.len() == 2 && "py"@[0] == 'p' && "py"@[1] == 'y');
    assert("js"@.len() == 2 && "js"@[0] == 'j' && "js"@[1] == 's');
    assert("mjs"@.len() == 3 && "mjs"@[0] == 'm' && "mjs"@[1] == 'j' && "mjs"@[2] == 's');
    assert("cjs"@.len() == 3 && "cjs"@[0] == 'c' && "cjs"@[1] == 'j' && "cjs"@[2] == 's');
    assert("ts"@.len() == 2 && "ts"@[0] == 't' && "ts"@[1] == 's');
    assert("mts"@.len() == 3 && "mts"@[0] == 'm' && "mts"@[1] == 't' && "mts"@[2] == 's');
    assert("tsx"@.len() == 3 && "tsx"@[0] == 't' && "tsx"@[1] == 's' && "tsx"@[2] == 'x');
    assert("jsx"@.len() == 3 && "jsx"@[0] == 'j' && "jsx"@[1] == 's' && "jsx"@[2] == 'x');
    assert("go"@.len() == 2 && "go"@[0] == 'g' && "go"@[1] == 'o');
    assert("java"@.len() == 4 && "java"@[0] == 'j' && "java"@[1] == 'a' && "java"@[2] == 'v' && "java"@[3] == 'a');
    assert("cpp"@.len() == 3 && "cpp"@[0] == 'c' && "cpp"@[1] == 'p' && "cpp"@[2] == 'p');
    assert("cc"@.len() == 2 && "cc"@[0] == 'c' && "cc"@[1] == 'c');
    assert("cxx"@.len() == 3 && "cxx"@[0] == 'c' && "cxx"@[1] == 'x' && "cxx"@[2] == 'x');
    assert("h"@.len() == 1 && "h"@[0] == 'h');
    assert("hpp"@.len() == 3 && "hpp"@[0] == 'h' && "hpp"@[1] == 'p' && "hpp"@[2] == 'p');
    assert("c"@.len() == 1 && "c"@[0] == 'c');
    assert("cs"@.len() == 2 && "cs"@[0] == 'c' && "cs"@[1] == 's');
    assert("rb"@.len() == 2 && "rb"@[0] == 'r' && "rb"@[1] == 'b');
    assert("kt"@.len() == 2 && "kt"@[0] == 'k' && "kt"@[1] == 't');
    assert("kts"@.len() == 3 && "kts"@[0] == 'k' && "kts"@[1] == 't' && "kts"@[2] == 's');
    assert("swift"@.len() == 5 && "swift"@[0] == 's' && "swift"@[1] == 'w' && "swift"@[2] == 'i' && "swift"@[3] == 'f' && "swift"@[4] == 't');
    assert("md"@.len() == 2 && "md"@[0] == 'm' && "md"@[1] == 'd');
    assert("markdown"@.len() == 8 && "markdown"@[0] == 'm' && "markdown"@[1] == 'a' && "markdown"@[2] == 'r' && "markdown"@[3] == 'k' && "markdown"@[4] == 'd' && "markdown"@[5] == 'o' && "markdown"@[6] == 'w' && "markdown"@[7] == 'n');
    assert("toml"@.len() == 4 && "toml"@[0] == 't' && "toml"@[1] == 'o' && "toml"@[2] == 'm' && "toml"@[3] == 'l');
    assert("json"@.len() == 4 && "json"@[0] == 'j' && "json"@[1] == 's' && "json"@[2] == 'o' && "json"@[3] == 'n');
    assert("yaml"@.len() == 4 && "yaml"@[0] == 'y' && "yaml"@[1] == 'a' && "yaml"@[2] == 'm' && "yaml"@[3] == 'l');
    assert("yml"@.len() == 3 && "yml"@[0] == 'y' && "yml"@[1] == 'm' && "yml"@[2] == 'l');
    assert("html"@.len() == 4 && "html"@[0] == 'h' && "html"@[1] == 't' && "html"@[2] == 'm' && "html"@[3] == 'l');
    assert("htm"@.len() == 3 && "htm"@[0] == 'h' && "htm"@[1] == 't' && "htm"@[2] == 'm');
    assert("css"@.len() == 3 && "css"@[0] == 'c' && "css"@[1] == 's' && "css"@[2] == 's');
    assert("scss"@.len() == 4 && "scss"@[0] == 's' && "scss"@[1] == 'c' && "scss"@[2] == 's' && "scss"@[3] == 's');
    assert("sass"@.len() == 4 && "sass"@[0] == 's' && "sass"@[1] == 'a' && "sass"@[2] == 's' && "sass"@[3] == 's');
    assert("sh"@.len() == 2 && "sh"@[0] == 's' && "sh"@[1] == 'h');
    assert("bash"@.len() == 4 && "bash"@[0] == 'b' && "bash"@[1] == 'a' && "bash"@[2] == 's' && "bash"@[3] == 'h');
    assert("sql"@.len() == 3 && "sql"@[0] == 's' && "sql"@[1] == 'q' && "sql"@[2] == 'l');
    assert("php"@.len() == 3 && "php"@[0] == 'p' && "php"@[1] == 'h' && "php"@[2] == 'p');
    assert("lua"@.len() == 3 && "lua"@[0] == 'l' && "lua"@[1] == 'u' && "lua"@[2] == 'a');
    assert("zig"@.len() == 3 && "zig"@[0] == 'z' && "zig"@[1] == 'i' && "zig"@[2] == 'g');
    assert("cbl"@.len() == 3 && "cbl"@[0] == 'c' && "cbl"@[1] == 'b' && "cbl"@[2] == 'l');
    assert("cob"@.len() == 3 && "cob"@[0] == 'c' && "cob"@[1] == 'o' && "cob"@[2] == 'b');
    assert("cpy"@.len() == 3 && "cpy"@[0] == 'c' && "cpy"@[1] == 'p' && "cpy"@[2] == 'y');
    assert("cobol"@.len() == 5 && "cobol"@[0] == 'c' && "cobol"@[1] == 'o' && "cobol"@[2] == 'b' && "cobol"@[3] == 'o' && "cobol"@[4] == 'l');
    assert("jcl"@.len() == 3 && "jcl"@[0] == 'j' && "jcl"@[1] == 'c' && "jcl"@[2] == 'l');
    assert("nsp"@.len() == 3 && "nsp"@[0] == 'n' && "nsp"@[1] == 's' && "nsp"@[2] == 'p');
    assert("nse"@.len() == 3 && "nse"@[0] == 'n' && "nse"@[1] == 's' && "nse"@[2] == 'e');
    assert("nsd"@.len() == 3 && "nsd"@[0] == 'n' && "nsd"@[1] == 's' && "nsd"@[2] == 'd');
    assert("nsl"@.len() == 3 && "nsl"@[0] == 'n' && "nsl"@[1] == 's' && "nsl"@[2] == 'l');
    assert("nst"@.len() == 3 && "nst"@[0] == 'n' && "nst"@[1] == 's' && "nst"@[2] == 't');
    assert("nsn"@.len() == 3 && "nsn"@[0] == 'n' && "nsn"@[1] == 's' && "nsn"@[2] == 'n');
    assert("rpg"@.len() == 3 && "rpg"@[0] == 'r' && "rpg"@[1] == 'p' && "rpg"@[2] == 'g');
    assert("rpgle"@.len() == 5 && "rpgle"@[0] == 'r' && "rpgle"@[1] == 'p' && "rpgle"@[2] == 'g' && "rpgle"@[3] == 'l' && "rpgle"@[4] == 'e');
    assert("sqlrpgle"@.len() == 8 && "sqlrpgle"@[0] == 's' && "sqlrpgle"@[1] == 'q' && "sqlrpgle"@[2] == 'l' && "sqlrpgle"@[3] == 'r' && "sqlrpgle"@[4] == 'p' && "sqlrpgle"@[5] == 'g' && "sqlrpgle"@[6] == 'l' && "sqlrpgle"@[7] == 'e');
    assert("sru"@.len() == 3 && "sru"@[0] == 's' && "sru"@[1] == 'r' && "sru"@[2] == 'u');
    assert("sra"@.len() == 3 && "sra"@[0] == 's' && "sra"@[1] == 'r' && "sra"@[2] == 'a');
    assert("srd"@.len() == 3 && "srd"@[0] == 's' && "srd"@[1] == 'r' && "srd"@[2] == 'd');
    assert("srw"@.len() == 3 && "srw"@[0] == 's' && "srw"@[1] == 'r' && "srw"@[2] == 'w');
    assert("pbl"@.len() == 3 && "pbl"@[0] == 'p' && "pbl"@[1] == 'b' && "pbl"@[2] == 'l');
    assert("srf"@.len() == 3 && "srf"@[0] == 's' && "srf"@[1] == 'r' && "srf"@[2] == 'f');
}

} // verus!
