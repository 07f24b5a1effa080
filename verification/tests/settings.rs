use klayer::settings::{
    bearer_token_matches, bind_address, command, dashboard_port, days, generate_server_token,
    get_config_path, get_klayer_dir, get_media_dir, home_missing, installed_config,
    marketplace_file_path, path_in, printed_config, resolve_db_paths, resolve_home_dir,
    resolve_server_token, server_entry, tls_terminated, token_of, Client, Command, DbVars, HomeVars,
    Platform, ServerToken,
};

#[test]
fn bearer_token_matches_exact_token() {
    assert!(bearer_token_matches("secret-token", Some("Bearer secret-token")));
}

#[test]
fn bearer_token_rejects_mismatched_token() {
    assert!(!bearer_token_matches("secret-token", Some("Bearer wrong-token")));
}

#[test]
fn bearer_token_rejects_missing_header() {
    assert!(!bearer_token_matches("secret-token", None));
}

#[test]
fn bearer_token_rejects_missing_bearer_prefix() {
    assert!(!bearer_token_matches("secret-token", Some("secret-token")));
}

#[test]
fn bearer_token_rejects_empty_presented_value() {
    assert!(!bearer_token_matches("secret-token", Some("Bearer ")));
}

fn args(words: &[&str]) -> Vec<String> {
    words.iter().map(|w| w.to_string()).collect()
}

#[test]
fn the_command_line_is_read() {
    assert!(matches!(command(&args(&["klayer", "status"]), "desk"), Command::Status));
    assert!(matches!(command(&args(&["klayer", "tui", "--install"]), "desk"), Command::Tui));
    assert!(matches!(
        command(&args(&["klayer", "--install", "--print-mcp-config"]), "desk"),
        Command::PrintConfig
    ));
    assert!(matches!(command(&args(&["klayer", "--install"]), "desk"), Command::Install(Client::Desktop)));
    assert!(matches!(
        command(&args(&["klayer", "--install-mcp", "--client=desk"]), "desk"),
        Command::Install(Client::Desktop)
    ));
    assert!(matches!(
        command(&args(&["klayer", "--install", "--client=cursor"]), "desk"),
        Command::Install(Client::Cursor)
    ));
    match command(&args(&["klayer", "--install", "--client=vim"]), "desk") {
        Command::UnknownClient(c) => assert_eq!(c, "vim"),
        _ => panic!("a client"),
    }
    assert!(matches!(
        command(&args(&["klayer", "x", "status"]), "desk"),
        Command::Serve { server_mode: false, dashboard_only: false }
    ));
    assert!(matches!(
        command(&args(&["klayer", "--dashboard", "--mode=server"]), "desk"),
        Command::Serve { server_mode: true, dashboard_only: true }
    ));
}

fn vars(up: Option<&str>, home: Option<&str>, drive: Option<&str>, path: Option<&str>) -> HomeVars {
    let own = |t: Option<&str>| t.map(|s| s.to_string());
    HomeVars { userprofile: own(up), home: own(home), homedrive: own(drive), homepath: own(path) }
}

#[test]
fn the_home_directory_is_never_guessed() {
    let other = Platform::Other;
    assert_eq!(resolve_home_dir(&vars(Some("u"), Some("h"), None, None), other).as_deref(), Some("u"));
    assert_eq!(resolve_home_dir(&vars(Some(""), Some("h"), None, None), other).as_deref(), Some("h"));
    let split = vars(None, None, Some("C:"), Some("\\Users\\a"));
    assert_eq!(resolve_home_dir(&split, other), None);
    assert_eq!(resolve_home_dir(&split, Platform::Windows).as_deref(), Some("C:\\Users\\a"));
    assert!(home_missing(other).contains("USERPROFILE, HOME is set"));
    assert!(home_missing(Platform::Windows).contains("HOME/HOMEDRIVE+HOMEPATH is set"));
}

#[test]
fn files_lie_under_the_home_directory() {
    let p = Platform::Other;
    let dir = get_klayer_dir("/home/a", p);
    assert_eq!(dir, "/home/a/.klayer");
    let none = DbVars { db: None, code_db: None, train_db: None, session_db: None };
    let d = resolve_db_paths(&none, &dir, p);
    assert_eq!(d.db, "/home/a/.klayer/klayer.db");
    assert_eq!(d.session_db, "/home/a/.klayer/klayer_session.db");
    let some = DbVars { code_db: Some("/x".into()), ..none };
    assert_eq!(resolve_db_paths(&some, &dir, p).code_db, "/x");
    assert_eq!(get_media_dir(&None, &dir, p), "/home/a/.klayer/media");
    assert_eq!(get_media_dir(&Some("/m".into()), &dir, p), "/m");
    assert_eq!(marketplace_file_path(&None, true, &dir, p), "marketplace.json");
    assert_eq!(marketplace_file_path(&None, false, &dir, p), "/home/a/.klayer/marketplace.json");
    assert_eq!(path_in("C:", "x", Platform::Windows), "C:x");
    assert_eq!(path_in("C:\\a", "x", Platform::Windows), "C:\\a\\x");
    assert_eq!(path_in("/", "x", p), "/x");
}

#[test]
fn values_of_the_environment_are_read() {
    assert_eq!(dashboard_port(None), 7474);
    assert_eq!(dashboard_port(Some("80")), 80);
    assert_eq!(dashboard_port(Some("65536")), 7474);
    assert_eq!(dashboard_port(Some("-1")), 7474);
    assert_eq!((days(Some("30")), days(Some("x")), days(None)), (Some(30), None, None));
    for yes in ["1", "TRUE", "Yes", "on"] {
        assert!(tls_terminated(Some(yes)));
    }
    assert!(!tls_terminated(Some("0")) && !tls_terminated(Some("")) && !tls_terminated(None));
}

#[test]
fn clients_are_told_where_the_program_lies() {
    let entry = server_entry("/opt\\klayer", "/home/a/.klayer", Platform::Other);
    let v: serde_json::Value = serde_json::from_str(&entry).unwrap();
    assert_eq!(v["command"], "/opt/klayer");
    assert_eq!(v["env"]["KLAYER_DB"], "/home/a/.klayer/klayer.db");
    assert_eq!(v["env"]["KLAYER_TRAIN_DB"], "/home/a/.klayer/klayer_train.db");
    let printed = printed_config(&entry).unwrap();
    assert!(printed.starts_with("{\n  \"mcpServers\": {\n    \"klayer\": {\n"));
    let windows = server_entry("C:/k.exe", "C:\\Users\\a\\.klayer", Platform::Windows);
    let v: serde_json::Value = serde_json::from_str(&windows).unwrap();
    assert_eq!(v["command"], "C:\\k.exe");
    assert_eq!(v["env"]["KLAYER_CODE_DB"], "C:\\Users\\a\\.klayer\\klayer_code.db");
}

#[test]
fn installing_keeps_the_rest_of_a_configuration() {
    let old = "{\"theme\":\"dark\",\"mcpServers\":{\"other\":{\"command\":\"x\"},\"klayer\":1}}";
    let new = installed_config(Some(old), "{\"command\":\"k\"}").unwrap();
    let v: serde_json::Value = serde_json::from_str(&new).unwrap();
    assert_eq!(v["theme"], "dark");
    assert_eq!(v["mcpServers"]["other"]["command"], "x");
    assert_eq!(v["mcpServers"]["klayer"]["command"], "k");
    assert_eq!(installed_config(Some(&new), "{\"command\":\"k\"}").unwrap(), new);
    for empty in [None, Some("no json"), Some("[1]"), Some("{\"mcpServers\":null}")] {
        let t = installed_config(empty, "{\"command\":\"k\"}").unwrap();
        let v: serde_json::Value = serde_json::from_str(&t).unwrap();
        assert_eq!(v["mcpServers"]["klayer"]["command"], "k");
    }
    assert_eq!(
        installed_config(Some("{\"mcpServers\":[]}"), "{}").unwrap_err(),
        "mcpServers is not a JSON object"
    );
}

#[test]
fn clients_have_configuration_files() {
    let at = |c: Client, p: Platform| {
        get_config_path(c, p, "Desk", Some("C:\\App"), Some("/h"), Some("/own"))
    };
    assert_eq!(
        at(Client::Desktop, Platform::Windows).as_deref(),
        Some("C:\\App\\Desk\\claude_desktop_config.json")
    );
    assert_eq!(
        at(Client::Desktop, Platform::Mac).as_deref(),
        Some("/h/Library/Application Support/Desk/claude_desktop_config.json")
    );
    assert_eq!(
        at(Client::Desktop, Platform::Other).as_deref(),
        Some("/h/.config/Desk/claude_desktop_config.json")
    );
    assert_eq!(at(Client::Cursor, Platform::Other).as_deref(), Some("/own/.cursor/mcp.json"));
    assert_eq!(get_config_path(Client::Desktop, Platform::Other, "Desk", None, None, None), None);
}

#[test]
fn tokens_are_kept_or_made() {
    assert_eq!(token_of(&vec![0xab; 32]), "ab".repeat(32));
    let a = generate_server_token();
    let b = generate_server_token();
    assert_eq!(a.len(), 64);
    assert!(a.chars().all(|c| c.is_ascii_digit() || ('a'..='f').contains(&c)));
    assert_ne!(a, b);
    assert!(matches!(resolve_server_token(Some(""), Some("x")), ServerToken::Kept(t) if t.is_empty()));
    assert!(matches!(resolve_server_token(None, Some(" tok\n")), ServerToken::Kept(t) if t == "tok"));
    assert!(matches!(resolve_server_token(None, Some(" \n")), ServerToken::Fresh(t) if t.len() == 64));
    assert!(matches!(resolve_server_token(None, None), ServerToken::Fresh(_)));
    assert_eq!((bind_address(true), bind_address(false)), ("0.0.0.0", "127.0.0.1"));
}
