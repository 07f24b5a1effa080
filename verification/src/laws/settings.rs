//! What the surroundings settle.
use vstd::prelude::*;

use crate::laws::text::numbers_are_read_as_written;
use crate::settings::{client_named, command_of, config_file, config_text, days_of, entry_text};
use crate::settings::{field, filled, holds_token, home_of, homeless, inner_text, installed_fields};
use crate::settings::{is_token, kept_token, native, object_text, path_to, placed, port_of};
use crate::settings::{root_fields, says_yes, server_fields, with_field, Client, CommandModel};
use crate::settings::{HomeVars, Platform};
use crate::text::{begins, decimal, opt, trim};

verus! {

/// The profile comes before the home; on Windows the drive and the path are the last resort.
pub proof fn the_profile_comes_before_the_home(v: HomeVars, p: Platform)
    ensures
        opt(v.userprofile) matches Some(u) && u.len() > 0 ==> home_of(v, p) == opt(v.userprofile),
        (opt(v.userprofile) matches Some(u) ==> u.len() == 0) && (opt(v.home) matches Some(h)
            && h.len() > 0) ==> home_of(v, p) == opt(v.home),
        (opt(v.userprofile) matches Some(u) ==> u.len() == 0) && (opt(v.home) matches Some(h)
            ==> h.len() == 0) ==> if p == Platform::Windows && (opt(v.homedrive) matches Some(d)
            && d.len() > 0) && (opt(v.homepath) matches Some(q) && q.len() > 0) {
            home_of(v, p) == Some(opt(v.homedrive)->0 + opt(v.homepath)->0)
        } else {
            home_of(v, p) is None
        },
{
}

/// A path to a name in a directory has one separator between them.
pub proof fn paths_have_one_separator(dir: Seq<char>, name: Seq<char>)
    requires
        dir.len() > 0,
        dir.last() != '/' && dir.last() != '\\' && dir.last() != ':',
    ensures
        path_to(dir, name, Platform::Other) == dir + seq!['/'] + name,
        path_to(dir, name, Platform::Mac) == dir + seq!['/'] + name,
        path_to(dir, name, Platform::Windows) == dir + seq!['\\'] + name,
        path_to(dir + seq!['/'], name, Platform::Other) == dir + seq!['/'] + name,
        path_to(dir + seq!['\\'], name, Platform::Windows) == dir + seq!['\\'] + name,
{
    reveal_strlit("/");
    reveal_strlit("\\");
    assert("/"@ =~= seq!['/']);
    assert("\\"@ =~= seq!['\\']);
}

/// A place that is given is taken; else it is the name in the directory.
pub proof fn given_places_are_taken(g: Seq<char>, dir: Seq<char>, name: Seq<char>, p: Platform)
    ensures
        placed(Some(g), dir, name, p) == g,
        placed(None, dir, name, p) == path_to(dir, name, p),
        filled(Some(g)) == if g.len() > 0 {
            Some(g)
        } else {
            None
        },
{
}

/// The port is 7474, unless a number is given that is one of a port.
pub proof fn the_port_is_settled(n: u16, other: Seq<char>)
    ensures
        port_of(None) == 7474,
        port_of(Some(decimal(n as int))) == n,
        crate::text::parsed(other) is None ==> port_of(Some(other)) == 7474,
        forall|m: int| m > 65535 ==> port_of(Some(#[trigger] decimal(m))) == 7474,
        forall|m: int| m < 0 ==> port_of(Some(#[trigger] decimal(m))) == 7474,
{
    numbers_are_read_as_written(n as int);
    assert(crate::text::is_digit(decimal(n as int)[0]));
    assert forall|m: int| m > 65535 implies port_of(Some(#[trigger] decimal(m))) == 7474 by {
        numbers_are_read_as_written(m);
    }
    assert forall|m: int| m < 0 implies port_of(Some(#[trigger] decimal(m))) == 7474 by {
        numbers_are_read_as_written(m);
    }
}

/// Days are a number, and nothing else.
pub proof fn days_are_a_number(n: i64, other: Seq<char>)
    ensures
        days_of(None) is None,
        days_of(Some(decimal(n as int))) == Some(n as int),
        crate::text::parsed(other) is None ==> days_of(Some(other)) is None,
{
    numbers_are_read_as_written(n as int);
}

/// Four words say yes, and no other does.
pub proof fn four_words_say_yes(t: Seq<char>)
    ensures
        says_yes(t) <==> t == "1"@ || t == "true"@ || t == "yes"@ || t == "on"@,
{
}

/// What the program does is told by its arguments: first `status` and `tui`, then what is
/// printed or installed; else it serves.
pub proof fn arguments_tell_what_is_done(args: Seq<Seq<char>>, desktop: Seq<char>)
    ensures
        ({
            let c = command_of(args, desktop);
            let named = args.len() > 1 && (args[1] == "status"@ || args[1] == "tui"@);
            let installs = args.contains("--install"@) || args.contains("--install-mcp"@);
            &&& c == CommandModel::Status <==> args.len() > 1 && args[1] == "status"@
            &&& c == CommandModel::Tui <==> args.len() > 1 && args[1] == "tui"@
            &&& !named ==> (c == CommandModel::PrintConfig <==> args.contains(
                "--print-mcp-config"@,
            ))
            &&& !named && !args.contains("--print-mcp-config"@) && !installs ==> c
                == CommandModel::Serve {
                server_mode: args.contains("--mode=server"@),
                dashboard_only: args.contains("--dashboard"@),
            }
            &&& !named && !args.contains("--print-mcp-config"@) && installs ==> match client_named(
                args,
            ) {
                None => c == CommandModel::Install(Client::Desktop),
                Some(n) => if n == desktop {
                    c == CommandModel::Install(Client::Desktop)
                } else if n == "cursor"@ {
                    c == CommandModel::Install(Client::Cursor)
                } else {
                    c == CommandModel::UnknownClient(n)
                },
            }
        }),
{
    reveal_strlit("status");
    reveal_strlit("tui");
    assert("status"@.len() == 6 && "tui"@.len() == 3);
}

/// The client is named by the first argument that says so.
pub proof fn the_first_client_counts(before: Seq<Seq<char>>, name: Seq<char>, rest: Seq<Seq<char>>)
    requires
        forall|i: int|
            0 <= i < before.len() ==> !crate::text::begins(#[trigger] before[i], "--client="@),
    ensures
        client_named(before + seq!["--client="@ + name] + rest) == Some(name),
        client_named(before) is None,
    decreases before.len(),
{
    let all = before + seq!["--client="@ + name] + rest;
    if before.len() == 0 {
        let p = "--client="@;
        assert(all[0] == p + name);
        assert((p + name).subrange(0, p.len() as int) =~= p);
        assert((p + name).skip(p.len() as int) =~= name);
    } else {
        assert(!crate::text::begins(before[0], "--client="@));
        assert(all[0] == before[0]);
        assert(all.skip(1) =~= before.skip(1) + seq!["--client="@ + name] + rest);
        assert forall|i: int| 0 <= i < before.skip(1).len() implies !crate::text::begins(
            #[trigger] before.skip(1)[i],
            "--client="@,
        ) by {
            assert(before.skip(1)[i] == before[i + 1]);
        }
        the_first_client_counts(before.skip(1), name, rest);
    }
}

/// The file that a client reads its servers from.
pub proof fn clients_have_their_file(
    folder: Seq<char>,
    appdata: Option<Seq<char>>,
    home: Option<Seq<char>>,
    own: Option<Seq<char>>,
)
    ensures
        ({
            let w = Platform::Windows;
            let m = Platform::Mac;
            let o = Platform::Other;
            &&& config_file(Client::Desktop, w, folder, appdata, home, own) == (match appdata {
                Some(a) => Some(path_to(path_to(a, folder, w), "claude_desktop_config.json"@, w)),
                None => None,
            })
            &&& config_file(Client::Desktop, m, folder, appdata, home, own) == (match home {
                Some(h) => Some(
                    path_to(
                        path_to(
                            path_to(path_to(h, "Library"@, m), "Application Support"@, m),
                            folder,
                            m,
                        ),
                        "claude_desktop_config.json"@,
                        m,
                    ),
                ),
                None => None,
            })
            &&& config_file(Client::Desktop, o, folder, appdata, home, own) == (match home {
                Some(h) => Some(
                    path_to(
                        path_to(path_to(h, ".config"@, o), folder, o),
                        "claude_desktop_config.json"@,
                        o,
                    ),
                ),
                None => None,
            })
            &&& forall|p: Platform| #[trigger]
                config_file(Client::Cursor, p, folder, appdata, home, own) == (match own {
                    Some(h) => Some(path_to(path_to(h, ".cursor"@, p), "mcp.json"@, p)),
                    None => None,
                })
        }),
{
}

/// A path is written with the separators of its platform, and is otherwise the same.
pub proof fn paths_are_written_natively(path: Seq<char>, i: int)
    requires
        0 <= i < path.len(),
    ensures
        native(path, Platform::Windows).len() == path.len(),
        native(path, Platform::Other).len() == path.len(),
        native(path, Platform::Windows)[i] != '/',
        native(path, Platform::Other)[i] != '\\',
        path[i] == '/' ==> native(path, Platform::Windows)[i] == '\\',
        path[i] == '\\' ==> native(path, Platform::Other)[i] == '/',
        path[i] != '/' && path[i] != '\\' ==> native(path, Platform::Windows)[i] == path[i]
            && native(path, Platform::Other)[i] == path[i],
        native(path, Platform::Mac) == native(path, Platform::Other),
{
}

/// An entry names the program and, in its environment, the four stores in their directory.
pub proof fn entries_name_program_and_stores(exe: Seq<char>, dir: Seq<char>, p: Platform)
    ensures
        entry_text(exe, dir, p) == object_text(
            seq![
                ("command"@, crate::json::quoted(native(exe, p))),
                (
                    "env"@,
                    object_text(
                        seq![
                            (
                                "KLAYER_CODE_DB"@,
                                crate::json::quoted(native(path_to(dir, "klayer_code.db"@, p), p)),
                            ),
                            (
                                "KLAYER_DB"@,
                                crate::json::quoted(native(path_to(dir, "klayer.db"@, p), p)),
                            ),
                            (
                                "KLAYER_SESSION_DB"@,
                                crate::json::quoted(
                                    native(path_to(dir, "klayer_session.db"@, p), p),
                                ),
                            ),
                            (
                                "KLAYER_TRAIN_DB"@,
                                crate::json::quoted(native(path_to(dir, "klayer_train.db"@, p), p)),
                            ),
                        ],
                    ),
                ),
            ],
        ),
{
}

/// An object of one field, and of one more.
pub proof fn objects_hold_their_fields(
    name: Seq<char>,
    value: Seq<char>,
    f: Seq<(Seq<char>, Seq<char>)>,
)
    ensures
        object_text(seq![]) == "{"@ + "}"@,
        object_text(seq![(name, value)]) == "{"@ + crate::json::quoted(name) + ":"@ + value + "}"@,
        f.len() > 0 ==> inner_text(f.push((name, value))) == inner_text(f) + ","@
            + crate::json::quoted(name) + ":"@ + value,
        config_text(value) == "{"@ + crate::json::quoted("mcpServers"@) + ":"@ + ("{"@
            + crate::json::quoted("klayer"@) + ":"@ + value + "}"@) + "}"@,
{
    reveal_with_fuel(inner_text, 2);
    assert(f.push((name, value)).drop_last() =~= f);
    let e = Seq::<(Seq<char>, Seq<char>)>::empty();
    assert(seq![(name, value)].drop_last() =~= e);
    assert(inner_text(seq![(name, value)]) =~= crate::json::quoted(name) + ":"@ + value);
    assert(object_text(e) =~= "{"@ + "}"@);
    assert(object_text(seq![(name, value)]) =~= "{"@ + crate::json::quoted(name) + ":"@ + value
        + "}"@);
    let k = seq![("klayer"@, value)];
    assert(k.drop_last() =~= e);
    assert(inner_text(k) =~= crate::json::quoted("klayer"@) + ":"@ + value);
    assert(object_text(k) =~= "{"@ + crate::json::quoted("klayer"@) + ":"@ + value + "}"@);
    let o = seq![("mcpServers"@, object_text(k))];
    assert(o.drop_last() =~= e);
    assert(inner_text(o) =~= crate::json::quoted("mcpServers"@) + ":"@ + object_text(k));
    assert(config_text(value) =~= "{"@ + crate::json::quoted("mcpServers"@) + ":"@ + object_text(k)
        + "}"@);
}

/// Installing puts the entry under its name among the servers, and keeps what else there is.
pub proof fn installing_keeps_the_rest(
    root: Seq<(Seq<char>, Seq<char>)>,
    servers: Seq<(Seq<char>, Seq<char>)>,
    entry: Seq<char>,
    other: Seq<char>,
)
    ensures
        field(installed_fields(root, servers, entry), "mcpServers"@) == Some(
            object_text(with_field(servers, "klayer"@, entry)),
        ),
        field(with_field(servers, "klayer"@, entry), "klayer"@) == Some(entry),
        other != "mcpServers"@ ==> field(installed_fields(root, servers, entry), other) == field(
            root,
            other,
        ),
        other != "klayer"@ ==> field(with_field(servers, "klayer"@, entry), other) == field(
            servers,
            other,
        ),
        field(root, "mcpServers"@) is None ==> server_fields(root) == Some(
            Seq::<(Seq<char>, Seq<char>)>::empty(),
        ),
        field(root, "mcpServers"@) == Some("null"@) ==> server_fields(root) == Some(
            Seq::<(Seq<char>, Seq<char>)>::empty(),
        ),
{
    crate::settings::setting_keeps_the_rest(servers, "klayer"@, entry, other);
    crate::settings::setting_keeps_the_rest(
        root,
        "mcpServers"@,
        object_text(with_field(servers, "klayer"@, entry)),
        other,
    );
}

/// A token that is given is taken; else the stored one, without the white around it.
pub proof fn given_tokens_come_first(given: Seq<char>, stored: Seq<char>)
    ensures
        kept_token(Some(given), Some(stored)) == Some(given),
        kept_token(Some(given), None) == Some(given),
        trim(stored).len() > 0 ==> kept_token(None, Some(stored)) == Some(trim(stored)),
        trim(stored).len() == 0 ==> kept_token(None, Some(stored)) is None,
        kept_token(None, None) is None,
{
}

/// Where no home is found, what was looked for is told.
pub proof fn a_missing_home_is_told()
    ensures
        begins(
            homeless(Platform::Windows),
            "klayer: could not resolve a home directory (none of USERPROFILE, HOME"@
                + "/HOMEDRIVE+HOMEPATH"@,
        ),
        begins(
            homeless(Platform::Other),
            "klayer: could not resolve a home directory (none of USERPROFILE, HOME"@,
        ),
{
    let a = "klayer: could not resolve a home directory (none of USERPROFILE, HOME"@;
    let b = a + "/HOMEDRIVE+HOMEPATH"@;
    let w = homeless(Platform::Windows);
    let o = homeless(Platform::Other);
    assert(w.subrange(0, b.len() as int) =~= b);
    assert(o.subrange(0, a.len() as int) =~= a);
}

/// A file of settings that is there is kept where it is an object; else it is begun anew.
pub proof fn settings_that_are_there_are_kept(t: Seq<char>)
    ensures
        root_fields(None).len() == 0,
        crate::json::json_fields(t) matches Some(f) ==> root_fields(Some(t)) == f,
        crate::json::json_fields(t) is None ==> root_fields(Some(t)).len() == 0,
{
}

/// A token is sixty-four hexadecimal digits, and is presented behind the word for it.
pub proof fn tokens_are_hexadecimal(t: Seq<char>, other: Seq<char>)
    ensures
        is_token(t) <==> t.len() == 64 && forall|i: int|
            0 <= i < t.len() ==> ('0' <= #[trigger] t[i] && t[i] <= '9') || ('a' <= t[i] && t[i]
                <= 'f'),
        holds_token(t, Some("Bearer "@ + t)),
        other != t ==> !holds_token(t, Some("Bearer "@ + other)),
        !holds_token(t, None),
{
    crate::settings::only_the_token_is_accepted(t, t);
    crate::settings::only_the_token_is_accepted(t, other);
}

} // verus!
