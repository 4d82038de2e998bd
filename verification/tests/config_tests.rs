use suntrack::config::{default_config_toml, Config};

#[test]
fn defaults() {
    let c = Config::default();
    assert_eq!(c.idle_timeout_secs, 60);
    assert_eq!(c.save_interval_secs, 15);
    assert_eq!(c.refresh_rate_secs, 1);
}

#[test]
fn sanitized_raises_zeros_only() {
    let c = Config { idle_timeout_secs: 0, save_interval_secs: 30, refresh_rate_secs: 0 }.sanitized();
    assert_eq!(c, Config { idle_timeout_secs: 1, save_interval_secs: 30, refresh_rate_secs: 1 });
    assert_eq!(c.sanitized(), c);
}

#[test]
fn default_config_file_text() {
    let expected = "# Suntrack configuration. Edit and restart to apply.\n\n\
         # Seconds of inactivity before time is logged as \"Idle\".\n\
         idle_timeout_secs = 60\n\n\
         # How often (seconds) accumulated time is written to the database.\n\
         save_interval_secs = 15\n\n\
         # Tracker sampling interval (seconds). Lower = more responsive, slightly more CPU.\n\
         refresh_rate_secs = 1\n";
    assert_eq!(default_config_toml(), expected);
}

#[test]
fn default_config_file_parses_back_to_the_defaults() {
    let text = default_config_toml();
    let table: toml::Table = toml::from_str(&text).unwrap();
    let d = Config::default();
    assert_eq!(table.len(), 3);
    assert_eq!(table["idle_timeout_secs"].as_integer(), Some(d.idle_timeout_secs as i64));
    assert_eq!(table["save_interval_secs"].as_integer(), Some(d.save_interval_secs as i64));
    assert_eq!(table["refresh_rate_secs"].as_integer(), Some(d.refresh_rate_secs as i64));
    for line in text.lines() {
        let line = line.trim();
        assert!(
            line.is_empty()
                || line.starts_with('#')
                || line == "idle_timeout_secs = 60"
                || line == "save_interval_secs = 15"
                || line == "refresh_rate_secs = 1"
        );
    }
}

#[test]
fn default_config_lines_are_comments_blanks_or_settings() {
    let text = default_config_toml();
    assert!(text.ends_with('\n'));
    let lines: Vec<&str> = text.lines().collect();
    assert_eq!(lines.len(), 10);
    assert_eq!(lines[3], "idle_timeout_secs = 60");
    assert_eq!(lines[6], "save_interval_secs = 15");
    assert_eq!(lines[9], "refresh_rate_secs = 1");
    for (i, line) in lines.iter().enumerate() {
        if i != 3 && i != 6 && i != 9 {
            assert!(line.is_empty() || line.starts_with('#'));
        }
    }
}
