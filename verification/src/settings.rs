//! What the program is told from outside: its command line, its environment, where its
//! files lie, how clients are told of it, and the token of its server.
use rand::Rng;
use vstd::prelude::*;

use crate::hex::{hex, hex_is_faithful, hex_text, is_hex_digit};
use crate::json::{field_texts, fields, json_fields, pretty, pretty_json, quote, quoted};
use crate::text::{begins, behind, chars, holds, parse_i64, parse_u64, parsed, parsed_u64};
use crate::text::{opt, opt_str, same, starts_with, strip_prefix, swap_char, swapped, texts, trim};
use crate::text::trimmed;
use crate::unicode::lowercase;

verus! {

// ---- paths ----------------------------------------------------------------

/// The system that the program runs on.
#[derive(Debug, Clone, Copy, PartialEq, Eq, Structural)]
pub enum Platform {
    Windows,
    Mac,
    Other,
}

/// Whether a path is the bare name of a drive, such as `C:`.
pub open spec fn is_drive(dir: Seq<char>) -> bool {
    dir.len() == 2 && dir[1] == ':' && (('a' <= dir[0] && dir[0] <= 'z') || ('A' <= dir[0]
        && dir[0] <= 'Z'))
}

/// The path of what lies in a directory under a name.
pub open spec fn path_to(dir: Seq<char>, name: Seq<char>, p: Platform) -> Seq<char> {
    if dir.len() == 0 || dir.last() == '/' || (p == Platform::Windows && (dir.last() == '\\'
        || is_drive(dir))) {
        dir + name
    } else if p == Platform::Windows {
        dir + "\\"@ + name
    } else {
        dir + "/"@ + name
    }
}

/// The path of what lies in a directory under a name.
pub fn path_in(dir: &str, name: &str, p: Platform) -> (r: String)
    ensures
        r@ == path_to(dir@, name@, p),
{
    let v: Vec<char> = chars(dir);
    let n: usize = v.len();
    let mut r: String = dir.to_owned();
    let windows: bool = p == Platform::Windows;
    let closed: bool = n == 0 || v[n - 1] == '/' || (windows && v[n - 1] == '\\') || (windows && n
        == 2 && v[1] == ':' && (('a' <= v[0] && v[0] <= 'z') || ('A' <= v[0] && v[0] <= 'Z')));
    if !closed {
        if windows {
            r.append("\\");
        } else {
            r.append("/");
        }
    }
    r.append(name);
    r
}

/// What the environment says of where the user is at home.
#[derive(Debug)]
pub struct HomeVars {
    pub userprofile: Option<String>,
    pub home: Option<String>,
    pub homedrive: Option<String>,
    pub homepath: Option<String>,
}

/// A value that is set, and not empty.
pub open spec fn filled(t: Option<Seq<char>>) -> Option<Seq<char>> {
    match t {
        Some(s) => if s.len() > 0 {
            Some(s)
        } else {
            None
        },
        None => None,
    }
}

fn full_value(t: &Option<String>) -> (r: Option<String>)
    ensures
        opt(r) == filled(opt(*t)),
{
    match t {
        Some(s) => {
            if chars(s.as_str()).len() > 0 {
                Some(s.clone())
            } else {
                None
            }
        },
        None => None,
    }
}

/// The home directory. It is never guessed: the directory that the program was started
/// in is none.
pub open spec fn home_of(v: HomeVars, p: Platform) -> Option<Seq<char>> {
    if filled(opt(v.userprofile)) is Some {
        filled(opt(v.userprofile))
    } else if filled(opt(v.home)) is Some {
        filled(opt(v.home))
    } else if p == Platform::Windows {
        match (filled(opt(v.homedrive)), filled(opt(v.homepath))) {
            (Some(d), Some(h)) => Some(d + h),
            _ => None,
        }
    } else {
        None
    }
}

/// The home directory, where the environment tells it.
pub fn resolve_home_dir(v: &HomeVars, p: Platform) -> (r: Option<String>)
    ensures
        opt(r) == home_of(*v, p),
{
    if let Some(d) = full_value(&v.userprofile) {
        return Some(d);
    }
    if let Some(d) = full_value(&v.home) {
        return Some(d);
    }
    if p == Platform::Windows {
        if let (Some(d), Some(h)) = (full_value(&v.homedrive), full_value(&v.homepath)) {
            let mut r: String = d;
            r.append(h.as_str());
            return Some(r);
        }
    }
    None
}

/// What is said where the home directory is not known.
pub open spec fn homeless(p: Platform) -> Seq<char> {
    "klayer: could not resolve a home directory (none of USERPROFILE, HOME"@ + (if p
        == Platform::Windows {
        "/HOMEDRIVE+HOMEPATH"@
    } else {
        ""@
    })
        + " is set in this process's environment). Refusing to fall back to the current directory, since that would scatter a separate ./.klayer database per folder. Fix your MCP client's launch environment to inherit USERPROFILE/HOME, or set KLAYER_DB/KLAYER_CODE_DB/KLAYER_TRAIN_DB/KLAYER_SESSION_DB explicitly."@
}

/// What is said where the home directory is not known.
pub fn home_missing(p: Platform) -> (r: String)
    ensures
        r@ == homeless(p),
{
    let mut r: String =
        "klayer: could not resolve a home directory (none of USERPROFILE, HOME".to_owned();
    if p == Platform::Windows {
        r.append("/HOMEDRIVE+HOMEPATH");
    } else {
        r.append("");
    }
    r.append(
        " is set in this process's environment). Refusing to fall back to the current directory, since that would scatter a separate ./.klayer database per folder. Fix your MCP client's launch environment to inherit USERPROFILE/HOME, or set KLAYER_DB/KLAYER_CODE_DB/KLAYER_TRAIN_DB/KLAYER_SESSION_DB explicitly.",
    );
    r
}

/// The directory of the program's own files.
pub fn get_klayer_dir(home: &str, p: Platform) -> (r: String)
    ensures
        r@ == path_to(home@, ".klayer"@, p),
{
    path_in(home, ".klayer", p)
}

/// A value that is set, else what lies in the directory of the program under a name.
pub open spec fn placed(given: Option<Seq<char>>, dir: Seq<char>, name: Seq<char>, p: Platform) -> Seq<
    char,
> {
    match given {
        Some(g) => g,
        None => path_to(dir, name, p),
    }
}

fn place(given: &Option<String>, dir: &str, name: &str, p: Platform) -> (r: String)
    ensures
        r@ == placed(opt(*given), dir@, name@, p),
{
    match given {
        Some(g) => g.clone(),
        None => path_in(dir, name, p),
    }
}

/// The files of the four databases.
#[derive(Debug)]
pub struct DbPaths {
    pub db: String,
    pub code_db: String,
    pub train_db: String,
    pub session_db: String,
}

/// What the environment says of the four databases.
#[derive(Debug)]
pub struct DbVars {
    pub db: Option<String>,
    pub code_db: Option<String>,
    pub train_db: Option<String>,
    pub session_db: Option<String>,
}

/// Where the four databases lie: where the environment says, else in the directory of the
/// program.
pub fn resolve_db_paths(v: &DbVars, dir: &str, p: Platform) -> (r: DbPaths)
    ensures
        r.db@ == placed(opt(v.db), dir@, "klayer.db"@, p),
        r.code_db@ == placed(opt(v.code_db), dir@, "klayer_code.db"@, p),
        r.train_db@ == placed(opt(v.train_db), dir@, "klayer_train.db"@, p),
        r.session_db@ == placed(opt(v.session_db), dir@, "klayer_session.db"@, p),
{
    DbPaths {
        db: place(&v.db, dir, "klayer.db", p),
        code_db: place(&v.code_db, dir, "klayer_code.db", p),
        train_db: place(&v.train_db, dir, "klayer_train.db", p),
        session_db: place(&v.session_db, dir, "klayer_session.db", p),
    }
}

/// Where images are kept.
pub fn get_media_dir(given: &Option<String>, dir: &str, p: Platform) -> (r: String)
    ensures
        r@ == placed(opt(*given), dir@, "media"@, p),
{
    place(given, dir, "media", p)
}

/// Where the templates of the marketplace are kept: where the environment says, else in a
/// file of the directory that the program was started in, where there is one, else in the
/// directory of the program.
pub fn marketplace_file_path(given: &Option<String>, local: bool, dir: &str, p: Platform) -> (r: String)
    ensures
        r@ == (match opt(*given) {
            Some(g) => g,
            None => if local {
                "marketplace.json"@
            } else {
                path_to(dir@, "marketplace.json"@, p)
            },
        }),
{
    match given {
        Some(g) => g.clone(),
        None => {
            if local {
                "marketplace.json".to_owned()
            } else {
                path_in(dir, "marketplace.json", p)
            }
        },
    }
}

// ---- values ---------------------------------------------------------------

/// The port of the dashboard, where nothing else is said.
pub const DEFAULT_PORT: u16 = 7474;

/// The port that a text names; the default where it names none.
pub open spec fn port_of(value: Option<Seq<char>>) -> int {
    match value {
        Some(v) => match parsed_u64(v) {
            Some(n) => if n <= u16::MAX {
                n
            } else {
                DEFAULT_PORT as int
            },
            None => DEFAULT_PORT as int,
        },
        None => DEFAULT_PORT as int,
    }
}

/// The port of the dashboard.
pub fn dashboard_port(value: Option<&str>) -> (r: u16)
    ensures
        r == port_of(opt_str(value)),
{
    match value {
        Some(v) => match parse_u64(v) {
            Some(n) => {
                if n <= u16::MAX as u64 {
                    n as u16
                } else {
                    DEFAULT_PORT
                }
            },
            None => DEFAULT_PORT,
        },
        None => DEFAULT_PORT,
    }
}

/// The number of days that a text names, where it names one.
pub open spec fn days_of(value: Option<Seq<char>>) -> Option<int> {
    match value {
        Some(v) => match parsed(v) {
            Some(n) => if i64::MIN <= n <= i64::MAX {
                Some(n)
            } else {
                None
            },
            None => None,
        },
        None => None,
    }
}

/// A number of days, where the environment names one.
pub fn days(value: Option<&str>) -> (r: Option<i64>)
    ensures
        match r {
            Some(n) => days_of(opt_str(value)) == Some(n as int),
            None => days_of(opt_str(value)) is None,
        },
{
    match value {
        Some(v) => parse_i64(v),
        None => None,
    }
}

/// Whether a text says yes.
pub open spec fn says_yes(t: Seq<char>) -> bool {
    t == "1"@ || t == "true"@ || t == "yes"@ || t == "on"@
}

/// Whether a text in small letters says yes.
pub fn is_yes(t: &str) -> (r: bool)
    ensures
        r == says_yes(t@),
{
    same(t, "1") || same(t, "true") || same(t, "yes") || same(t, "on")
}

/// Whether the environment says that something else sees to encryption.
pub fn tls_terminated(value: Option<&str>) -> (r: bool)
    ensures
        r == (match opt_str(value) {
            Some(v) => says_yes(lowercase(v)),
            None => false,
        }),
{
    match value {
        Some(v) => is_yes(v.to_lowercase().as_str()),
        None => false,
    }
}

// ---- the command line -----------------------------------------------------

/// A program that can be told of this one.
#[derive(Debug, Clone, Copy, PartialEq, Eq, Structural)]
pub enum Client {
    /// The desktop client, whose name is a setting of the program.
    Desktop,
    Cursor,
}

/// What the program is started for.
#[derive(Debug)]
pub enum Command {
    /// To print how things stand, once.
    Status,
    /// To show how things stand on a terminal.
    Tui,
    /// To print how a client is told of the program.
    PrintConfig,
    /// To tell a client of the program.
    Install(Client),
    /// To tell a client that is not known.
    UnknownClient(String),
    /// To serve.
    Serve { server_mode: bool, dashboard_only: bool },
}

/// What the program is started for, as mathematical values.
pub enum CommandModel {
    Status,
    Tui,
    PrintConfig,
    Install(Client),
    UnknownClient(Seq<char>),
    Serve { server_mode: bool, dashboard_only: bool },
}

impl View for Command {
    type V = CommandModel;

    open spec fn view(&self) -> CommandModel {
        match self {
            Command::Status => CommandModel::Status,
            Command::Tui => CommandModel::Tui,
            Command::PrintConfig => CommandModel::PrintConfig,
            Command::Install(c) => CommandModel::Install(*c),
            Command::UnknownClient(t) => CommandModel::UnknownClient(t@),
            Command::Serve { server_mode, dashboard_only } => CommandModel::Serve {
                server_mode: *server_mode,
                dashboard_only: *dashboard_only,
            },
        }
    }
}

/// What stands behind `--client=` in the first argument that begins so.
pub open spec fn client_named(args: Seq<Seq<char>>) -> Option<Seq<char>>
    decreases args.len(),
{
    if args.len() == 0 {
        None
    } else if begins(args[0], "--client="@) {
        behind(args[0], "--client="@)
    } else {
        client_named(args.skip(1))
    }
}

/// What the arguments of the program, its own name first, start it for; `desktop` is what
/// the desktop client is called in them.
pub open spec fn command_of(args: Seq<Seq<char>>, desktop: Seq<char>) -> CommandModel {
    if args.len() > 1 && args[1] == "status"@ {
        CommandModel::Status
    } else if args.len() > 1 && args[1] == "tui"@ {
        CommandModel::Tui
    } else if args.contains("--print-mcp-config"@) {
        CommandModel::PrintConfig
    } else if args.contains("--install"@) || args.contains("--install-mcp"@) {
        match client_named(args) {
            None => CommandModel::Install(Client::Desktop),
            Some(c) => if c == desktop {
                CommandModel::Install(Client::Desktop)
            } else if c == "cursor"@ {
                CommandModel::Install(Client::Cursor)
            } else {
                CommandModel::UnknownClient(c)
            },
        }
    } else {
        CommandModel::Serve {
            server_mode: args.contains("--mode=server"@),
            dashboard_only: args.contains("--dashboard"@),
        }
    }
}

fn client(args: &Vec<String>) -> (r: Option<String>)
    ensures
        opt(r) == client_named(texts(args@)),
{
    let ghost all = texts(args@);
    let mut i: usize = 0;
    assert(all.skip(0) =~= all);
    while i < args.len()
        invariant
            i <= args@.len(),
            all == texts(args@),
            client_named(all) == client_named(all.skip(i as int)),
        decreases args.len() - i,
    {
        assert(all.skip(i as int)[0] == args@[i as int]@);
        assert(all.skip(i as int).skip(1) =~= all.skip(i + 1));
        if starts_with(args[i].as_str(), "--client=") {
            return strip_prefix(args[i].as_str(), "--client=");
        }
        i += 1;
    }
    assert(all.skip(i as int) =~= seq![]);
    None
}

/// What the program is started for, by its arguments, its own name first; `desktop` is what
/// the desktop client is called in them.
pub fn command(args: &Vec<String>, desktop: &str) -> (r: Command)
    ensures
        r@ == command_of(texts(args@), desktop@),
{
    if args.len() > 1 && same(args[1].as_str(), "status") {
        return Command::Status;
    }
    if args.len() > 1 && same(args[1].as_str(), "tui") {
        return Command::Tui;
    }
    if holds(args, "--print-mcp-config") {
        return Command::PrintConfig;
    }
    if holds(args, "--install") || holds(args, "--install-mcp") {
        return match client(args) {
            None => Command::Install(Client::Desktop),
            Some(c) => {
                if same(c.as_str(), desktop) {
                    Command::Install(Client::Desktop)
                } else if same(c.as_str(), "cursor") {
                    Command::Install(Client::Cursor)
                } else {
                    Command::UnknownClient(c)
                }
            },
        };
    }
    Command::Serve {
        server_mode: holds(args, "--mode=server"),
        dashboard_only: holds(args, "--dashboard"),
    }
}

// ---- clients --------------------------------------------------------------

/// The name of the file in which the desktop client is told of programs.
pub const DESKTOP_CONFIG: &'static str = "claude_desktop_config.json";

/// The file in which a client is told of programs, where the environment tells where it
/// lies.
pub open spec fn config_file(
    c: Client,
    p: Platform,
    folder: Seq<char>,
    appdata: Option<Seq<char>>,
    home: Option<Seq<char>>,
    own_home: Option<Seq<char>>,
) -> Option<Seq<char>> {
    match c {
        Client::Desktop => match p {
            Platform::Windows => match appdata {
                Some(a) => Some(
                    path_to(path_to(a, folder, p), DESKTOP_CONFIG@, p),
                ),
                None => None,
            },
            Platform::Mac => match home {
                Some(h) => Some(
                    path_to(
                        path_to(
                            path_to(path_to(h, "Library"@, p), "Application Support"@, p),
                            folder,
                            p,
                        ),
                        DESKTOP_CONFIG@,
                        p,
                    ),
                ),
                None => None,
            },
            Platform::Other => match home {
                Some(h) => Some(
                    path_to(
                        path_to(path_to(h, ".config"@, p), folder, p),
                        DESKTOP_CONFIG@,
                        p,
                    ),
                ),
                None => None,
            },
        },
        Client::Cursor => match own_home {
            Some(h) => Some(path_to(path_to(h, ".cursor"@, p), "mcp.json"@, p)),
            None => None,
        },
    }
}

/// The file in which a client is told of programs. `folder` is the name of the folder of
/// the desktop client, `own_home` is the resolved home directory, and the others are values
/// of the environment.
pub fn get_config_path(
    c: Client,
    p: Platform,
    folder: &str,
    appdata: Option<&str>,
    home: Option<&str>,
    own_home: Option<&str>,
) -> (r: Option<String>)
    ensures
        opt(r) == config_file(c, p, folder@, opt_str(appdata), opt_str(home), opt_str(own_home)),
{
    match c {
        Client::Desktop => {
            let dir: String = match p {
                Platform::Windows => match appdata {
                    Some(a) => path_in(a, folder, p),
                    None => {
                        return None;
                    },
                },
                Platform::Mac => match home {
                    Some(h) => {
                        let lib: String = path_in(h, "Library", p);
                        let apps: String = path_in(lib.as_str(), "Application Support", p);
                        path_in(apps.as_str(), folder, p)
                    },
                    None => {
                        return None;
                    },
                },
                Platform::Other => match home {
                    Some(h) => path_in(path_in(h, ".config", p).as_str(), folder, p),
                    None => {
                        return None;
                    },
                },
            };
            Some(path_in(dir.as_str(), DESKTOP_CONFIG, p))
        },
        Client::Cursor => match own_home {
            Some(h) => Some(path_in(path_in(h, ".cursor", p).as_str(), "mcp.json", p)),
            None => None,
        },
    }
}

/// A path with the separators of the platform throughout.
pub open spec fn native(path: Seq<char>, p: Platform) -> Seq<char> {
    if p == Platform::Windows {
        swapped(path, '/', '\\')
    } else {
        swapped(path, '\\', '/')
    }
}

fn native_path(path: &str, p: Platform) -> (r: String)
    ensures
        r@ == native(path@, p),
{
    if p == Platform::Windows {
        swap_char(path, '/', '\\')
    } else {
        swap_char(path, '\\', '/')
    }
}

/// The JSON of an object.
pub open spec fn object_text(f: Seq<(Seq<char>, Seq<char>)>) -> Seq<char> {
    "{"@ + inner_text(f) + "}"@
}

/// The JSON of the fields of an object.
pub open spec fn inner_text(f: Seq<(Seq<char>, Seq<char>)>) -> Seq<char>
    decreases f.len(),
{
    if f.len() == 0 {
        seq![]
    } else {
        inner_text(f.drop_last()) + (if f.len() > 1 {
            ","@
        } else {
            seq![]
        }) + quoted(f.last().0) + ":"@ + f.last().1
    }
}

fn write_object(f: &Vec<(String, String)>) -> (r: String)
    ensures
        r@ == object_text(field_texts(f@)),
{
    let ghost all = field_texts(f@);
    let mut r: String = "{".to_owned();
    let mut i: usize = 0;
    assert(all.take(0) =~= seq![]);
    assert(r@ =~= "{"@ + inner_text(all.take(0)));
    while i < f.len()
        invariant
            i <= f@.len(),
            all == field_texts(f@),
            r@ == "{"@ + inner_text(all.take(i as int)),
        decreases f.len() - i,
    {
        let ghost now = all.take(i + 1);
        assert(now.drop_last() =~= all.take(i as int));
        assert(now.last() == (f@[i as int].0@, f@[i as int].1@));
        if i > 0 {
            r.append(",");
        }
        r.append(quote(f[i].0.as_str()).as_str());
        r.append(":");
        r.append(f[i].1.as_str());
        assert(r@ =~= "{"@ + inner_text(now));
        i += 1;
    }
    assert(all.take(i as int) =~= all);
    r.append("}");
    assert(r@ =~= object_text(all));
    r
}

/// The JSON of a field that is a text.
pub open spec fn text_field(name: Seq<char>, value: Seq<char>) -> (Seq<char>, Seq<char>) {
    (name, quoted(value))
}

/// How a client starts the program: the program, and where its databases lie.
pub open spec fn entry_text(exe: Seq<char>, dir: Seq<char>, p: Platform) -> Seq<char> {
    object_text(
        seq![
            text_field("command"@, native(exe, p)),
            (
                "env"@,
                object_text(
                    seq![
                        text_field("KLAYER_CODE_DB"@, native(path_to(dir, "klayer_code.db"@, p), p)),
                        text_field("KLAYER_DB"@, native(path_to(dir, "klayer.db"@, p), p)),
                        text_field(
                            "KLAYER_SESSION_DB"@,
                            native(path_to(dir, "klayer_session.db"@, p), p),
                        ),
                        text_field(
                            "KLAYER_TRAIN_DB"@,
                            native(path_to(dir, "klayer_train.db"@, p), p),
                        ),
                    ],
                ),
            ),
        ],
    )
}

fn db_field(name: &str, dir: &str, file: &str, p: Platform) -> (r: (String, String))
    ensures
        (r.0@, r.1@) == text_field(name@, native(path_to(dir@, file@, p), p)),
{
    let path: String = native_path(path_in(dir, file, p).as_str(), p);
    (name.to_owned(), quote(path.as_str()))
}

/// How a client starts the program, in JSON.
pub fn server_entry(exe: &str, dir: &str, p: Platform) -> (r: String)
    ensures
        r@ == entry_text(exe@, dir@, p),
{
    let mut env: Vec<(String, String)> = Vec::new();
    env.push(db_field("KLAYER_CODE_DB", dir, "klayer_code.db", p));
    env.push(db_field("KLAYER_DB", dir, "klayer.db", p));
    env.push(db_field("KLAYER_SESSION_DB", dir, "klayer_session.db", p));
    env.push(db_field("KLAYER_TRAIN_DB", dir, "klayer_train.db", p));
    assert(field_texts(env@) =~= seq![
        text_field("KLAYER_CODE_DB"@, native(path_to(dir@, "klayer_code.db"@, p), p)),
        text_field("KLAYER_DB"@, native(path_to(dir@, "klayer.db"@, p), p)),
        text_field("KLAYER_SESSION_DB"@, native(path_to(dir@, "klayer_session.db"@, p), p)),
        text_field("KLAYER_TRAIN_DB"@, native(path_to(dir@, "klayer_train.db"@, p), p)),
    ]);
    let env_text: String = write_object(&env);
    let mut all: Vec<(String, String)> = Vec::new();
    all.push(("command".to_owned(), quote(native_path(exe, p).as_str())));
    all.push(("env".to_owned(), env_text));
    assert(field_texts(all@) =~= seq![
        text_field("command"@, native(exe@, p)),
        ("env"@, env_text@),
    ]);
    write_object(&all)
}

/// The configuration that a client is handed, before it is laid out.
pub open spec fn config_text(entry: Seq<char>) -> Seq<char> {
    object_text(seq![("mcpServers"@, object_text(seq![("klayer"@, entry)]))])
}

/// The configuration to be pasted into that of a client, laid out by lines; `None` where
/// `serde_json` cannot lay it out.
pub fn printed_config(entry: &str) -> (r: Option<String>)
    ensures
        opt(r) == pretty_json(config_text(entry@)),
{
    let mut inner: Vec<(String, String)> = Vec::new();
    inner.push(("klayer".to_owned(), entry.to_owned()));
    assert(field_texts(inner@) =~= seq![("klayer"@, entry@)]);
    let servers: String = write_object(&inner);
    let mut outer: Vec<(String, String)> = Vec::new();
    outer.push(("mcpServers".to_owned(), servers));
    assert(field_texts(outer@) =~= seq![("mcpServers"@, object_text(seq![("klayer"@, entry@)]))]);
    pretty(write_object(&outer).as_str())
}

/// The value of a field, where there is one of that name.
pub open spec fn field(f: Seq<(Seq<char>, Seq<char>)>, name: Seq<char>) -> Option<Seq<char>>
    decreases f.len(),
{
    if f.len() == 0 {
        None
    } else if f[0].0 == name {
        Some(f[0].1)
    } else {
        field(f.skip(1), name)
    }
}

/// The fields with one of them set: in its place where there is one of that name, else at
/// the end.
pub open spec fn with_field(
    f: Seq<(Seq<char>, Seq<char>)>,
    name: Seq<char>,
    value: Seq<char>,
) -> Seq<(Seq<char>, Seq<char>)>
    decreases f.len(),
{
    if f.len() == 0 {
        seq![(name, value)]
    } else if f[0].0 == name {
        seq![(name, value)] + f.skip(1)
    } else {
        seq![f[0]] + with_field(f.skip(1), name, value)
    }
}

fn field_at(f: &Vec<(String, String)>, name: &str) -> (r: Option<usize>)
    ensures
        match r {
            Some(i) => i < f@.len() && f@[i as int].0@ == name@ && forall|j: int|
                0 <= j < i ==> (#[trigger] f@[j]).0@ != name@,
            None => forall|j: int| 0 <= j < f@.len() ==> (#[trigger] f@[j]).0@ != name@,
        },
{
    let mut i: usize = 0;
    while i < f.len()
        invariant
            i <= f@.len(),
            forall|j: int| 0 <= j < i ==> (#[trigger] f@[j]).0@ != name@,
        decreases f.len() - i,
    {
        if same(f[i].0.as_str(), name) {
            return Some(i);
        }
        i += 1;
    }
    None
}

proof fn lemma_field(f: Seq<(Seq<char>, Seq<char>)>, name: Seq<char>, value: Seq<char>, i: int)
    requires
        0 <= i <= f.len(),
        forall|j: int| 0 <= j < i ==> (#[trigger] f[j]).0 != name,
        i < f.len() ==> f[i].0 == name,
    ensures
        field(f, name) == (if i < f.len() {
            Some(f[i].1)
        } else {
            None
        }),
        with_field(f, name, value) == (if i < f.len() {
            f.update(i, (name, value))
        } else {
            f.push((name, value))
        }),
    decreases f.len(),
{
    if f.len() == 0 {
        assert(with_field(f, name, value) =~= f.push((name, value)));
    } else if f[0].0 == name {
        assert(with_field(f, name, value) =~= f.update(0, (name, value)));
    } else {
        let g = f.skip(1);
        assert forall|j: int| 0 <= j < i - 1 implies (#[trigger] g[j]).0 != name by {
            assert(g[j] == f[j + 1]);
        }
        lemma_field(g, name, value, i - 1);
        if i < f.len() {
            assert(with_field(f, name, value) =~= f.update(i, (name, value)));
        } else {
            assert(with_field(f, name, value) =~= f.push((name, value)));
        }
    }
}

fn set_field(f: &mut Vec<(String, String)>, name: &str, value: String)
    ensures
        field_texts(final(f)@) == with_field(field_texts(old(f)@), name@, value@),
{
    let ghost before = field_texts(f@);
    let ghost v = value@;
    match field_at(f, name) {
        Some(i) => {
            proof {
                assert forall|j: int| 0 <= j < i implies (#[trigger] before[j]).0 != name@ by {
                    assert(before[j].0 == f@[j].0@);
                }
                lemma_field(before, name@, v, i as int);
            }
            f.set(i, (name.to_owned(), value));
            assert(field_texts(f@) =~= before.update(i as int, (name@, v)));
        },
        None => {
            proof {
                assert forall|j: int| 0 <= j < before.len() implies (#[trigger] before[j]).0
                    != name@ by {
                    assert(before[j].0 == f@[j].0@);
                }
                lemma_field(before, name@, v, before.len() as int);
            }
            f.push((name.to_owned(), value));
            assert(field_texts(f@) =~= before.push((name@, v)));
        },
    }
}

/// The fields of the object that the configuration of a client is; none where there is no
/// configuration, or where it is no object.
pub open spec fn root_fields(existing: Option<Seq<char>>) -> Seq<(Seq<char>, Seq<char>)> {
    match existing {
        Some(t) => match json_fields(t) {
            Some(f) => f,
            None => seq![],
        },
        None => seq![],
    }
}

/// The programs that a configuration tells of; `None` where what stands in their place is
/// no object.
pub open spec fn server_fields(root: Seq<(Seq<char>, Seq<char>)>) -> Option<
    Seq<(Seq<char>, Seq<char>)>,
> {
    match field(root, "mcpServers"@) {
        Some(t) => if t == "null"@ {
            Some(seq![])
        } else {
            json_fields(t)
        },
        None => Some(seq![]),
    }
}

/// A configuration, given by its fields and by the programs that it tells of, with the
/// program told of in it.
pub open spec fn installed_fields(
    root: Seq<(Seq<char>, Seq<char>)>,
    servers: Seq<(Seq<char>, Seq<char>)>,
    entry: Seq<char>,
) -> Seq<(Seq<char>, Seq<char>)> {
    with_field(root, "mcpServers"@, object_text(with_field(servers, "klayer"@, entry)))
}

/// A configuration with the program told of in it, given the fields and the programs that
/// it tells of.
pub fn install_fields(
    root: Vec<(String, String)>,
    servers: Vec<(String, String)>,
    entry: &str,
) -> (r: String)
    ensures
        r@ == object_text(
            installed_fields(field_texts(root@), field_texts(servers@), entry@),
        ),
{
    let mut inner: Vec<(String, String)> = servers;
    set_field(&mut inner, "klayer", entry.to_owned());
    let text: String = write_object(&inner);
    let mut outer: Vec<(String, String)> = root;
    set_field(&mut outer, "mcpServers", text);
    write_object(&outer)
}

/// The configuration of a client with the program told of in it, laid out by lines;
/// anything else in it is kept. Refused where what stands in the place of the programs is
/// no object, and where `serde_json` cannot lay it out.
pub fn installed_config(existing: Option<&str>, entry: &str) -> (r: Result<String, String>)
    ensures
        ({
            let root = root_fields(opt_str(existing));
            match server_fields(root) {
                None => r matches Err(e) && e@ == "mcpServers is not a JSON object"@,
                Some(servers) => match pretty_json(
                    object_text(installed_fields(root, servers, entry@)),
                ) {
                    Some(t) => r matches Ok(x) && x@ == t,
                    None => r matches Err(e) && e@ == "the configuration cannot be written"@,
                },
            }
        }),
{
    let root: Vec<(String, String)> = match existing {
        Some(t) => match fields(t) {
            Some(f) => f,
            None => Vec::new(),
        },
        None => Vec::new(),
    };
    assert(field_texts(root@) =~= root_fields(opt_str(existing)));
    let ghost rf = field_texts(root@);
    let at: Option<usize> = field_at(&root, "mcpServers");
    proof {
        let i: int = match at {
            Some(i) => i as int,
            None => rf.len() as int,
        };
        assert forall|j: int| 0 <= j < i implies (#[trigger] rf[j]).0 != "mcpServers"@ by {
            assert(rf[j].0 == root@[j].0@);
        }
        lemma_field(rf, "mcpServers"@, seq![], i);
    }
    let servers: Vec<(String, String)> = match at {
        Some(i) => {
            let t: &str = root[i].1.as_str();
            if same(t, "null") {
                Vec::new()
            } else {
                match fields(t) {
                    Some(f) => f,
                    None => {
                        return Err("mcpServers is not a JSON object".to_owned());
                    },
                }
            }
        },
        None => Vec::new(),
    };
    assert(server_fields(rf) == Some(field_texts(servers@))) by {
        assert(servers@.len() == 0 ==> field_texts(servers@) =~= seq![]);
    }
    match pretty(install_fields(root, servers, entry).as_str()) {
        Some(t) => Ok(t),
        None => Err("the configuration cannot be written".to_owned()),
    }
}

/// A field that is set reads back as what it was set to, every other field reads as
/// before, and to set it again changes nothing.
pub proof fn setting_keeps_the_rest(
    f: Seq<(Seq<char>, Seq<char>)>,
    name: Seq<char>,
    value: Seq<char>,
    other: Seq<char>,
)
    ensures
        field(with_field(f, name, value), name) == Some(value),
        other != name ==> field(with_field(f, name, value), other) == field(f, other),
        with_field(with_field(f, name, value), name, value) == with_field(f, name, value),
    decreases f.len(),
{
    let g = with_field(f, name, value);
    reveal_with_fuel(field, 2);
    reveal_with_fuel(with_field, 2);
    if f.len() == 0 {
        assert(g.skip(1) =~= seq![]);
        assert(with_field(g, name, value) =~= g);
    } else if f[0].0 == name {
        assert(g.skip(1) =~= f.skip(1));
        assert(with_field(g, name, value) =~= g);
    } else {
        setting_keeps_the_rest(f.skip(1), name, value, other);
        assert(g.skip(1) =~= with_field(f.skip(1), name, value));
        assert(with_field(g, name, value) =~= g);
    }
}

// ---- the token of the server ----------------------------------------------

/// `rand::Rng::gen` on `rand::thread_rng`: thirty-two random bytes. Nothing is said of
/// which.
#[verifier::external_body]
fn random_bytes() -> (r: Vec<u8>)
    ensures
        r@.len() == 32,
{
    let bytes: [u8; 32] = rand::thread_rng().gen();
    bytes.to_vec()
}

/// Whether a text has the form of a token: sixty-four small hexadecimal digits.
pub open spec fn is_token(t: Seq<char>) -> bool {
    t.len() == 64 && forall|i: int| 0 <= i < t.len() ==> is_hex_digit(#[trigger] t[i])
}

/// A fresh token.
pub fn generate_server_token() -> (r: String)
    ensures
        is_token(r@),
{
    token_of(&random_bytes())
}

/// The token that some bytes make.
pub fn token_of(bytes: &Vec<u8>) -> (r: String)
    ensures
        r@ == hex(bytes@),
        bytes@.len() == 32 ==> is_token(r@),
{
    proof {
        hex_is_faithful(bytes@, bytes@);
    }
    hex_text(bytes)
}

/// The token of the server.
#[derive(Debug)]
pub enum ServerToken {
    /// One that the environment gives, or that was stored.
    Kept(String),
    /// A fresh one, which is to be stored.
    Fresh(String),
}

/// The token that is not to be made anew: that of the environment, else a stored one that
/// is not blank.
pub open spec fn kept_token(given: Option<Seq<char>>, stored: Option<Seq<char>>) -> Option<Seq<char>> {
    match given {
        Some(g) => Some(g),
        None => match stored {
            Some(s) => if trim(s).len() > 0 {
                Some(trim(s))
            } else {
                None
            },
            None => None,
        },
    }
}

/// The token of the server: that of the environment, else the stored one, else a fresh
/// one.
pub fn resolve_server_token(given: Option<&str>, stored: Option<&str>) -> (r: ServerToken)
    ensures
        match kept_token(opt_str(given), opt_str(stored)) {
            Some(t) => r matches ServerToken::Kept(k) && k@ == t,
            None => r matches ServerToken::Fresh(f) && is_token(f@),
        },
{
    if let Some(g) = given {
        return ServerToken::Kept(g.to_owned());
    }
    if let Some(s) = stored {
        let t: String = trimmed(s);
        if chars(t.as_str()).len() > 0 {
            return ServerToken::Kept(t);
        }
    }
    ServerToken::Fresh(generate_server_token())
}

/// A fresh token that was stored is the token again.
pub proof fn a_stored_token_is_kept(token: Seq<char>)
    requires
        is_token(token),
    ensures
        kept_token(None, Some(token)) == Some(token),
{
    assert(is_hex_digit(token[0]));
    assert(is_hex_digit(token[63]));
    assert(trim(token) =~= token);
}

// ---- who may ask ----------------------------------------------------------

/// Whether a header of a request holds the token.
pub open spec fn holds_token(expected: Seq<char>, header: Option<Seq<char>>) -> bool {
    match header {
        Some(h) => behind(h, "Bearer "@) == Some(expected),
        None => false,
    }
}

/// Whether a header of a request holds the token.
pub fn bearer_token_matches(expected: &str, header_value: Option<&str>) -> (r: bool)
    ensures
        r == holds_token(expected@, opt_str(header_value)),
{
    match header_value {
        Some(h) => match strip_prefix(h, "Bearer ") {
            Some(p) => same(p.as_str(), expected),
            None => false,
        },
        None => false,
    }
}

/// The address that the dashboard listens on: any, where requests need a token, else only
/// that of the machine itself.
pub fn bind_address(guarded: bool) -> (r: &'static str)
    ensures
        r@ == (if guarded {
            "0.0.0.0"@
        } else {
            "127.0.0.1"@
        }),
{
    if guarded {
        "0.0.0.0"
    } else {
        "127.0.0.1"
    }
}

/// A header made of the token is accepted, and one made of any other token is not.
pub proof fn only_the_token_is_accepted(expected: Seq<char>, presented: Seq<char>)
    ensures
        holds_token(expected, Some("Bearer "@ + presented)) <==> presented == expected,
{
    let h = "Bearer "@ + presented;
    let n = "Bearer "@.len() as int;
    assert(h.subrange(0, n) =~= "Bearer "@);
    assert(h.skip(n) =~= presented);
}

/// The home directory is one that the environment names, and never an empty name: nothing
/// else stands in for it.
pub proof fn the_home_directory_is_named(v: HomeVars, p: Platform)
    ensures
        home_of(v, p) matches Some(h) ==> h.len() > 0 && (opt(v.userprofile) == Some(h) || opt(
            v.home,
        ) == Some(h) || (opt(v.homedrive) matches Some(d) && opt(v.homepath) matches Some(q) && h
            == d + q)),
        opt(v.userprofile) is None && opt(v.home) is None && opt(v.homedrive) is None ==> home_of(v, p)
            is None,
{
}

} // verus!
