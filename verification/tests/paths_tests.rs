use suntrack::paths::{config_path, db_path, join_path};

#[test]
fn files_in_the_data_dir() {
    assert_eq!(db_path("/home/u/suntrack", '/'), "/home/u/suntrack/usage.db");
    assert_eq!(config_path("/home/u/suntrack/", '/'), "/home/u/suntrack/config.toml");
    assert_eq!(db_path("", '/'), "usage.db");
    assert_eq!(join_path(".", "suntrack", '/'), "./suntrack");
}

#[test]
fn backslash_is_a_separator_only_where_the_platform_says_so() {
    assert_eq!(join_path("/home/u/odd\\", "suntrack", '/'), "/home/u/odd\\/suntrack");
    assert_eq!(join_path("C:\\Users\\u\\", "suntrack", '\\'), "C:\\Users\\u\\suntrack");
    assert_eq!(db_path("C:\\Users\\u\\AppData\\suntrack", '\\'), "C:\\Users\\u\\AppData\\suntrack\\usage.db");
    assert_eq!(config_path("C:/data/", '\\'), "C:/data/config.toml");
}

#[test]
fn paths_match_std_join() {
    assert_matches_std_join("/home/u/suntrack");
    assert_matches_std_join("/home/u/suntrack/");
    assert_matches_std_join("relative/dir");
    assert_matches_std_join("");
}

fn assert_matches_std_join(dir: &str) {
    let expected = std::path::Path::new(dir).join("usage.db");
    assert_eq!(db_path(dir, std::path::MAIN_SEPARATOR), expected.to_string_lossy());
}

#[test]
fn a_bare_drive_takes_no_separator() {
    assert_eq!(join_path("C:", "suntrack", '\\'), "C:suntrack");
    assert_eq!(join_path("z:", "usage.db", '\\'), "z:usage.db");
    assert_eq!(join_path("C:", "suntrack", '/'), "C:/suntrack");
    assert_eq!(join_path("1:", "suntrack", '\\'), "1:\\suntrack");
    assert_eq!(join_path("C:\\", "suntrack", '\\'), "C:\\suntrack");
}
