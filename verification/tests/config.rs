use ollama_wsock_connector::config::{
    config_source, ClientSection, Config, ConfigError, ConfigOverrides, ConfigSource, FileConfig,
    OllamaSection, WebsocketSection, DEFAULT_CONFIG_PATH,
};
use ollama_wsock_connector::document::{persist_client_id, PersistError};

fn text_at(table: &toml::Table, section: &str, key: &str) -> Option<String> {
    table
        .get(section)
        .and_then(|s| s.get(key))
        .and_then(|v| v.as_str())
        .map(|s| s.to_string())
}

fn read_config(text: &str) -> FileConfig {
    let table: toml::Table = toml::from_str(text).unwrap();
    FileConfig {
        websocket: WebsocketSection {
            url: text_at(&table, "websocket", "url"),
            auth_header: text_at(&table, "websocket", "auth_header"),
        },
        ollama: OllamaSection { url: text_at(&table, "ollama", "url") },
        client: ClientSection {
            id: text_at(&table, "client", "id"),
            log_level: text_at(&table, "client", "log_level"),
        },
    }
}

#[test]
fn cli_overrides_win() {
    let overrides = ConfigOverrides {
        ws_url: Some("ws://override".into()),
        ollama_url: Some("http://1.2.3.4:11434".into()),
        client_id: Some("cli-client".into()),
        log_level: Some("debug".into()),
        ws_auth_header: Some("Bearer cli".into()),
    };
    let loaded = Config::load(None, overrides);
    assert_eq!(loaded.persist, None);
    let cfg = loaded.config.unwrap();
    assert_eq!(cfg.ws_url.as_str(), "ws://override/");
    assert_eq!(cfg.ollama_url.as_str(), "http://1.2.3.4:11434/");
    assert_eq!(cfg.client_id, "cli-client");
    assert_eq!(cfg.log_level, "debug");
    assert_eq!(cfg.ws_auth_header.as_deref(), Some("Bearer cli"));
}

#[test]
fn missing_ws_url_errors() {
    let loaded = Config::load(None, ConfigOverrides::default());
    assert_eq!(loaded.persist, None);
    let err = loaded.config.unwrap_err();
    assert_eq!(err, ConfigError::MissingWsUrl);
    assert!(err.message().contains("websocket url not configured"));
    assert_eq!(
        err.message(),
        "websocket url not configured (set [websocket].url in config.toml or --ws-url)"
    );
}

#[test]
fn missing_client_id_is_persisted_to_config_file() {
    let original = "\
# user-written comment that must survive
[websocket]
url = \"ws://example.test\"

[client]
log_level = \"debug\"
";
    let loaded = Config::load(Some(read_config(original)), ConfigOverrides::default());
    let cfg = loaded.config.unwrap();
    assert!(cfg.client_id.starts_with("client-"));
    assert_eq!(loaded.persist.as_deref(), Some(cfg.client_id.as_str()));

    let updated = persist_client_id(original, &cfg.client_id).unwrap();
    assert!(
        updated.contains("user-written comment that must survive"),
        "comment was lost:\n{updated}"
    );
    assert!(
        updated.contains(&format!("id = \"{}\"", cfg.client_id)),
        "client_id was not written back:\n{updated}"
    );

    let again = Config::load(Some(read_config(&updated)), ConfigOverrides::default());
    assert_eq!(again.persist, None);
    let cfg2 = again.config.unwrap();
    assert_eq!(cfg.client_id, cfg2.client_id);
    assert_eq!(cfg2.log_level, "debug");
    assert_eq!(cfg2.ws_url, cfg.ws_url);
}

#[test]
fn cli_override_does_not_persist_to_file() {
    let original = "[websocket]\nurl = \"ws://example.test\"\n";
    let overrides = ConfigOverrides {
        client_id: Some("ephemeral-cli-id".into()),
        ..ConfigOverrides::default()
    };
    let loaded = Config::load(Some(read_config(original)), overrides);
    assert_eq!(loaded.persist, None, "file should be untouched when CLI overrides client_id");
    assert_eq!(loaded.config.unwrap().client_id, "ephemeral-cli-id");
}

#[test]
fn file_settings_stand_below_overrides_and_above_defaults() {
    let text = "[websocket]\nurl = \"wss://a.test/x\"\nauth_header = \"Bearer f\"\n\n[ollama]\nurl = \"http://h:1\"\n\n[client]\nid = \"from-file\"\nlog_level = \"warn\"\n";
    let cfg = Config::load(Some(read_config(text)), ConfigOverrides::default()).config.unwrap();
    assert_eq!(cfg.ws_url, "wss://a.test/x");
    assert_eq!(cfg.ws_auth_header.as_deref(), Some("Bearer f"));
    assert_eq!(cfg.ollama_url, "http://h:1/");
    assert_eq!(cfg.client_id, "from-file");
    assert_eq!(cfg.log_level, "warn");

    let overrides = ConfigOverrides {
        log_level: Some("trace".into()),
        ..ConfigOverrides::default()
    };
    let cfg = Config::load(Some(read_config(text)), overrides).config.unwrap();
    assert_eq!(cfg.log_level, "trace");
    assert_eq!(cfg.client_id, "from-file");
}

#[test]
fn defaults_fill_the_gaps() {
    let overrides = ConfigOverrides { ws_url: Some("ws://s".into()), ..ConfigOverrides::default() };
    let loaded = Config::load_with(None, overrides, "1-2".into());
    assert_eq!(loaded.persist, None);
    let cfg = loaded.config.unwrap();
    assert_eq!(cfg.ollama_url, "http://127.0.0.1:11434/");
    assert_eq!(cfg.log_level, "info");
    assert_eq!(cfg.client_id, "client-1-2");
    assert_eq!(cfg.ws_auth_header, None);
}

#[test]
fn made_up_ids_are_random_uuids() {
    let ids: Vec<String> = (0..2)
        .map(|_| {
            let overrides =
                ConfigOverrides { ws_url: Some("ws://s".into()), ..ConfigOverrides::default() };
            Config::load(None, overrides).config.unwrap().client_id
        })
        .collect();
    for id in &ids {
        let uuid: Vec<char> = id.strip_prefix("client-").unwrap().chars().collect();
        assert_eq!(uuid.len(), 36);
        for (i, c) in uuid.iter().enumerate() {
            if [8, 13, 18, 23].contains(&i) {
                assert_eq!(*c, '-');
            } else {
                assert!(c.is_ascii_digit() || ('a'..='f').contains(c));
            }
        }
        assert_eq!(uuid[14], '4');
        assert!(['8', '9', 'a', 'b'].contains(&uuid[19]));
    }
    assert_ne!(ids[0], ids[1]);
}

#[test]
fn bad_urls_are_reported_and_the_id_is_still_kept() {
    let file = |url: &str| FileConfig {
        websocket: WebsocketSection { url: Some(url.into()), auth_header: None },
        ollama: OllamaSection { url: Some("nonsense".into()) },
        client: ClientSection::default(),
    };
    let loaded =
        Config::load_with(Some(file("not a url")), ConfigOverrides::default(), "u".into());
    assert_eq!(loaded.persist.as_deref(), Some("client-u"));
    assert_eq!(
        loaded.config.unwrap_err().message(),
        "parsing websocket url: relative URL without a base"
    );
    let loaded = Config::load_with(Some(file("ws://ok")), ConfigOverrides::default(), "u".into());
    assert_eq!(
        loaded.config.unwrap_err(),
        ConfigError::OllamaUrl { cause: "relative URL without a base".into() }
    );
}

#[test]
fn the_default_file_is_read_when_it_exists() {
    assert_eq!(DEFAULT_CONFIG_PATH, "config.toml");
    assert_eq!(config_source(true, false), ConfigSource::Named);
    assert_eq!(config_source(true, true), ConfigSource::Named);
    assert_eq!(config_source(false, true), ConfigSource::Default);
    assert_eq!(config_source(false, false), ConfigSource::Absent);
}

#[test]
fn the_client_table_is_added_where_it_is_missing() {
    let updated = persist_client_id("[websocket]\nurl = \"ws://x\"\n", "me").unwrap();
    assert_eq!(updated, "[websocket]\nurl = \"ws://x\"\n\n[client]\nid = \"me\"\n");
    let updated = persist_client_id("[client.sub]\nx = 1\n", "me").unwrap();
    assert_eq!(updated, "[client]\nid = \"me\"\n[client.sub]\nx = 1\n");
    let updated = persist_client_id("client.log_level = \"debug\"\n", "me").unwrap();
    let table: toml::Table = toml::from_str(&updated).unwrap();
    assert_eq!(text_at(&table, "client", "id").as_deref(), Some("me"));
    assert_eq!(text_at(&table, "client", "log_level").as_deref(), Some("debug"));
}

#[test]
fn awkward_ids_are_read_back() {
    let original = "[websocket]\nurl = \"ws://x\" # here\n";
    for id in ["", "a\"b", "a\\b", "a\nb", "a\r\nb\t", "\"\"\"", "'''", "\u{0}\u{7f}\u{1b}", "häß 😀"] {
        let updated = persist_client_id(original, id).unwrap();
        assert!(updated.contains("# here"));
        let config = read_config(&updated);
        assert_eq!(config.client.id.as_deref(), Some(id));
        assert_eq!(config.websocket.url.as_deref(), Some("ws://x"));
        let twice = persist_client_id(&updated, "other").unwrap();
        assert_eq!(read_config(&twice).client.id.as_deref(), Some("other"));
    }
}

#[test]
fn an_id_needs_a_document_with_room_for_it() {
    assert_eq!(persist_client_id("client = 1\n", "me"), Err(PersistError::NotATable));
    assert_eq!(persist_client_id("client = { id = \"x\" }\n", "me"), Err(PersistError::NotATable));
    assert_eq!(persist_client_id("[[client]]\n", "me"), Err(PersistError::NotATable));
    assert!(matches!(persist_client_id("= 1", "me"), Err(PersistError::Syntax { .. })));
}

#[test]
fn a_section_may_be_an_inline_table() {
    let original = "websocket = { url = \"ws://x\", auth_header = \"Bearer t\" } # here\n";
    let before = read_config(original);
    assert_eq!(before.websocket.auth_header.as_deref(), Some("Bearer t"));
    let updated = persist_client_id(original, "me").unwrap();
    assert!(updated.contains("# here"));
    let after = read_config(&updated);
    assert_eq!(after.websocket.url, before.websocket.url);
    assert_eq!(after.websocket.auth_header, before.websocket.auth_header);
    assert_eq!(after.client.id.as_deref(), Some("me"));
}

#[test]
fn a_file_need_not_name_the_service() {
    let file = || Some(read_config("[client]\nid = \"user-1\"\n"));
    let overrides = ConfigOverrides { ws_url: Some("ws://a".into()), ..Default::default() };
    let loaded = Config::load(file(), overrides);
    assert_eq!(loaded.persist, None);
    let cfg = loaded.config.unwrap();
    assert_eq!(cfg.ws_url, "ws://a/");
    assert_eq!(cfg.client_id, "user-1");

    let loaded = Config::load(file(), ConfigOverrides::default());
    assert_eq!(loaded.persist, None);
    assert_eq!(loaded.config.unwrap_err(), ConfigError::MissingWsUrl);

    let loaded = Config::load(Some(read_config("")), ConfigOverrides::default());
    assert_eq!(loaded.persist, None);
    assert_eq!(loaded.config.unwrap_err(), ConfigError::MissingWsUrl);
}

#[test]
fn all_but_the_id_survives() {
    let original = "# top\nlimit = 3 # three\n\n[client] # header\nlog_level = \"debug\"\n\
                    ports = [\n  1, # one\n  2,\n]\n\n# above\n[client.sub]\nx = 1.5\n\n\
                    [websocket]\nurl = \"ws://x\" # here\n# end\n";
    let updated = persist_client_id(original, "me").unwrap();
    let at = |part: &str| updated.find(part).unwrap();
    let parts = [
        "# top", "limit = 3", "# three", "# header", "log_level", "# one", "id = \"me\"", "# above",
        "x = 1.5", "url", "# here", "# end",
    ];
    for pair in parts.windows(2) {
        assert!(at(pair[0]) < at(pair[1]), "{pair:?} in\n{updated}");
    }
    let mut before: toml::Table = toml::from_str(original).unwrap();
    let after: toml::Table = toml::from_str(&updated).unwrap();
    before["client"].as_table_mut().unwrap().insert("id".into(), toml::Value::from("me"));
    assert_eq!(before, after);
}

#[test]
fn only_the_comment_of_a_replaced_id_is_lost() {
    let original = "[client]\n# above\nid = \"old\" # behind\nlog_level = \"debug\" # next\n";
    let updated = persist_client_id(original, "new").unwrap();
    assert_eq!(updated, "[client]\n# above\nid = \"new\"\nlog_level = \"debug\" # next\n");
    let updated = persist_client_id("[client.id] # a\nx = 1\n[b] # c\n", "new").unwrap();
    assert!(!updated.contains("# a") && updated.contains("# c"));
    assert_eq!(read_config(&updated).client.id.as_deref(), Some("new"));
}

#[test]
fn the_last_id_wins() {
    for original in [
        "",
        "[client]\nlog_level = \"debug\"\n[client.sub]\nx = 1\n",
        "client.log_level = \"debug\" # c\n[other]\ny = 2\n",
        "[b]\n[client.id]\nz = 1\n[client.sub]\n[b.x]\nw = 1 # c\n",
    ] {
        let between = persist_client_id(original, "first").unwrap();
        let after = persist_client_id(&between, "last").unwrap();
        let at_once = persist_client_id(original, "last").unwrap();
        let after: toml::Table = toml::from_str(&after).unwrap();
        assert_eq!(after, toml::from_str::<toml::Table>(&at_once).unwrap());
        let again = persist_client_id(&between, "first").unwrap();
        assert_eq!(again, between);
    }
}

#[test]
fn a_flat_file_only_gets_the_id() {
    let line = "id = \"client-1\"\n";
    // What stands before the identifier, what header it needs, and what stands behind it.
    let cases = [
        ("", "[client]\n", ""),
        ("", "[client]\n", "# a comment at the end stays there\n"),
        ("\n  [ websocket ]  # c\n\n\turl=\"ws://x\"   # d\n", "\n[client]\n", "\n\n# end\n"),
        ("[client]\n", "", "\n[websocket]\nurl = 'ws://x'\n"),
        ("a=1\n\n\n[client] # c\n\nlog_level   =   \"debug\"\n", "", "\n  # e\n[b]\nc = { x = 1 }\n"),
        ("[client]\nl = [ 1,\n # in\n 2 ]\ns = \"\"\"\n[b]\n\"\"\"\n", "", "\n\n[b]\n"),
    ];
    for (before, header, behind) in cases {
        let updated = persist_client_id(&format!("{before}{behind}"), "client-1").unwrap();
        assert_eq!(updated, format!("{before}{header}{line}{behind}"));
    }
}
