use screenruster::config::{Config, Error, Locker, Timer};

fn load(text: &str) -> Config {
    match Config::load(Some(text)) {
        Ok(c) => c,
        Err(_) => panic!("the document should parse"),
    }
}

#[test]
fn timer_default_values() {
    let t = Timer::default();
    assert_eq!(t.beat, 30);
    assert_eq!(t.timeout, 360);
    assert_eq!(t.lock, None);
    assert_eq!(t.blank, None);
}

#[test]
fn locker_default_values() {
    let l = Locker::default();
    assert_eq!(l.display, None);
    assert!(l.dpms);
}

#[test]
fn load_without_file_gives_defaults() {
    let c = match Config::load(None) {
        Ok(c) => c,
        Err(_) => panic!("no file is no error"),
    };
    assert_eq!(c.timer(), Timer::default());
    assert_eq!(c.locker().display, None);
    assert!(c.locker().dpms);
    assert!(c.savers().is_empty());
    assert!(c.saver("anything").is_empty());
    assert!(c.auth().get("password").is_empty());
}

#[test]
fn load_empty_document_gives_defaults() {
    let c = load("");
    assert_eq!(c.timer(), Timer::default());
    assert!(c.locker().dpms);
    assert!(c.savers().is_empty());
}

#[test]
fn load_rejects_invalid_toml() {
    assert!(matches!(Config::load(Some("[timer")), Err(Error::Parse)));
    assert!(matches!(Config::load(Some("beat = = 3")), Err(Error::Parse)));
}

#[test]
fn load_reads_timer_section() {
    let c = load("[timer]\nbeat = 10\ntimeout = 20\nlock = 30\nblank = 40\n");
    let t = c.timer();
    assert_eq!(t.beat, 10);
    assert_eq!(t.timeout, 20);
    assert_eq!(t.lock, Some(30));
    assert_eq!(t.blank, Some(40));
}

#[test]
fn load_keeps_defaults_for_missing_timer_keys() {
    let c = load("[timer]\nlock = 5\n");
    let t = c.timer();
    assert_eq!(t.beat, 30);
    assert_eq!(t.timeout, 360);
    assert_eq!(t.lock, Some(5));
    assert_eq!(t.blank, None);
}

#[test]
fn load_ignores_timer_values_of_other_types() {
    let c = load("[timer]\nbeat = \"often\"\ntimeout = 1.5\nlock = true\n");
    assert_eq!(c.timer(), Timer::default());
}

#[test]
fn load_narrows_timer_values_like_a_cast() {
    let c = load("[timer]\nbeat = 4294967297\ntimeout = -1\n");
    let t = c.timer();
    assert_eq!(t.beat, 1);
    assert_eq!(t.timeout, 4294967295);
}

#[test]
fn load_ignores_timer_that_is_not_a_table() {
    let c = load("timer = 10\n");
    assert_eq!(c.timer(), Timer::default());
}

#[test]
fn load_reads_locker_section() {
    let c = load("[locker]\ndisplay = \":1\"\ndpms = false\n");
    let l = c.locker();
    assert_eq!(l.display, Some(":1".to_string()));
    assert!(!l.dpms);
}

#[test]
fn load_dpms_true_or_other_keeps_default() {
    assert!(load("[locker]\ndpms = true\n").locker().dpms);
    assert!(load("[locker]\ndpms = \"no\"\n").locker().dpms);
    assert!(load("[locker]\ndpms = 0\n").locker().dpms);
}

#[test]
fn load_ignores_display_of_other_type() {
    assert_eq!(load("[locker]\ndisplay = 1\n").locker().display, None);
}

#[test]
fn auth_get_returns_module_table() {
    let c = load("[auth.password]\nretries = 3\n[auth.other]\nx = \"y\"\n");
    let a = c.auth();
    let t = a.get("password");
    assert_eq!(t.len(), 1);
    assert_eq!(t.get("retries").and_then(|v| v.as_integer()), Some(3));
    assert_eq!(a.get("other").get("x").and_then(|v| v.as_str()), Some("y"));
    assert!(a.get("missing").is_empty());
}

#[test]
fn auth_get_ignores_non_tables() {
    let c = load("[auth]\npassword = 3\n");
    assert!(c.auth().get("password").is_empty());
}

#[test]
fn auth_that_is_not_a_table_is_empty() {
    let c = load("auth = 3\n");
    assert!(c.auth().get("password").is_empty());
}

#[test]
fn savers_are_the_strings_of_use_in_order() {
    let c = load(
        "[saver]\nuse = [\"hacks\", \"laughing-man\", \"hacks\"]\n[saver.hacks]\nmode = \"random\"\n",
    );
    let names: Vec<&str> = c.savers().iter().map(|s| s.as_str()).collect();
    assert_eq!(names, vec!["hacks", "laughing-man", "hacks"]);
    let hacks = c.saver("hacks");
    assert_eq!(hacks.get("mode").and_then(|v| v.as_str()), Some("random"));
    assert!(c.saver("laughing-man").is_empty());
    assert!(c.saver("unlisted").is_empty());
}

#[test]
fn saver_table_of_unlisted_saver_is_empty() {
    let c = load("[saver]\nuse = [\"a\"]\n[saver.b]\nx = 1\n");
    assert!(c.saver("b").is_empty());
    assert!(c.saver("a").is_empty());
}

#[test]
fn saver_use_that_is_not_an_array_gives_no_savers() {
    let c = load("[saver]\nuse = \"hacks\"\n[saver.hacks]\nmode = 1\n");
    assert!(c.savers().is_empty());
    assert!(c.saver("hacks").is_empty());
}

#[test]
fn saver_entry_that_is_not_a_table_gives_empty_table() {
    let c = load("[saver]\nuse = [\"a\"]\na = 5\n");
    assert_eq!(c.savers().len(), 1);
    assert!(c.saver("a").is_empty());
}

#[test]
fn from_table_reads_a_built_document() {
    let mut timer = toml::Table::new();
    timer.insert("beat".to_string(), toml::Value::Integer(12));
    let mut root = toml::Table::new();
    root.insert("timer".to_string(), toml::Value::Table(timer));
    let c = Config::from_table(&root);
    assert_eq!(c.timer().beat, 12);
    assert_eq!(c.timer().timeout, 360);
}

#[test]
fn server_settings_are_empty() {
    let c = load("");
    let _ = c.server();
}

#[test]
fn saver_use_without_strings_gives_no_savers() {
    let c = load("[saver]\nuse = [1, 2]\n");
    assert!(c.savers().is_empty());
}

#[test]
fn from_table_skips_non_string_saver_names() {
    let mut hacks = toml::Table::new();
    hacks.insert("mode".to_string(), toml::Value::String("x".to_string()));
    let mut saver = toml::Table::new();
    saver.insert(
        "use".to_string(),
        toml::Value::Array(vec![
            toml::Value::String("hacks".to_string()),
            toml::Value::Integer(3),
            toml::Value::String("other".to_string()),
        ]),
    );
    saver.insert("hacks".to_string(), toml::Value::Table(hacks));
    let mut root = toml::Table::new();
    root.insert("saver".to_string(), toml::Value::Table(saver));
    let c = Config::from_table(&root);
    let names: Vec<&str> = c.savers().iter().map(|s| s.as_str()).collect();
    assert_eq!(names, vec!["hacks", "other"]);
    assert_eq!(c.saver("hacks").len(), 1);
    assert!(c.saver("other").is_empty());
}
