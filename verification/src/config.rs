//! The tracker's configuration and the self-documenting file seeded with it.

use vstd::prelude::*;
use vstd::string::*;
use crate::text::{decimal, lemma_decimal_digits, push_char, push_decimal, push_text};

verus! {

/// Timing settings, read from a TOML file in the data directory.
#[derive(Debug, Clone, Copy, PartialEq, Eq)]
pub struct Config {
    /// Seconds of inactivity before time is logged as idle.
    pub idle_timeout_secs: u64,
    /// How often, in seconds, accumulated time is written to the database.
    pub save_interval_secs: u64,
    /// Tracker sampling interval in seconds.
    pub refresh_rate_secs: u64,
}

/// The default idle timeout, in seconds.
pub const DEFAULT_IDLE_TIMEOUT_SECS: u64 = 60;
/// The default save interval, in seconds.
pub const DEFAULT_SAVE_INTERVAL_SECS: u64 = 15;
/// The default sampling interval, in seconds.
pub const DEFAULT_REFRESH_RATE_SECS: u64 = 1;

impl Default for Config {
    /// Idle after 60 s, save every 15 s, sample every second.
    fn default() -> (c: Config)
        ensures
            c == default_config(),
    {
        Config {
            idle_timeout_secs: DEFAULT_IDLE_TIMEOUT_SECS,
            save_interval_secs: DEFAULT_SAVE_INTERVAL_SECS,
            refresh_rate_secs: DEFAULT_REFRESH_RATE_SECS,
        }
    }
}

/// The default settings.
pub open spec fn default_config() -> Config {
    Config {
        idle_timeout_secs: DEFAULT_IDLE_TIMEOUT_SECS,
        save_interval_secs: DEFAULT_SAVE_INTERVAL_SECS,
        refresh_rate_secs: DEFAULT_REFRESH_RATE_SECS,
    }
}

/// `x`, raised to 1 when it is 0.
pub open spec fn at_least_one(x: u64) -> u64 {
    if x == 0 { 1 } else { x }
}

impl Config {
    /// Whether every interval is at least one second, as the timing math needs.
    pub open spec fn is_sane(&self) -> bool {
        &&& self.idle_timeout_secs >= 1
        &&& self.save_interval_secs >= 1
        &&& self.refresh_rate_secs >= 1
    }

    /// Guards against zero values that would break the timing math: each
    /// interval is raised to at least one second, other values kept.
    pub fn sanitized(self) -> (c: Config)
        ensures
            c.idle_timeout_secs == at_least_one(self.idle_timeout_secs),
            c.save_interval_secs == at_least_one(self.save_interval_secs),
            c.refresh_rate_secs == at_least_one(self.refresh_rate_secs),
            c.is_sane(),
    {
        let mut c = self;
        c.idle_timeout_secs = max_one(c.idle_timeout_secs);
        c.save_interval_secs = max_one(c.save_interval_secs);
        c.refresh_rate_secs = max_one(c.refresh_rate_secs);
        c
    }
}

/// Sanitizing is idempotent, and a configuration that is already sane is kept
/// as it is.
pub proof fn lemma_sanitize_idempotent(c: Config)
    ensures
        at_least_one(at_least_one(c.idle_timeout_secs)) == at_least_one(c.idle_timeout_secs),
        at_least_one(at_least_one(c.save_interval_secs)) == at_least_one(c.save_interval_secs),
        at_least_one(at_least_one(c.refresh_rate_secs)) == at_least_one(c.refresh_rate_secs),
        c.is_sane() ==> (at_least_one(c.idle_timeout_secs) == c.idle_timeout_secs
            && at_least_one(c.save_interval_secs) == c.save_interval_secs
            && at_least_one(c.refresh_rate_secs) == c.refresh_rate_secs),
{
}

fn max_one(x: u64) -> (r: u64)
    ensures
        r == at_least_one(x),
{
    if x < 1 { 1 } else { x }
}

/// The file's title comment.
pub const CONFIG_TITLE: &'static str = "# Suntrack configuration. Edit and restart to apply.";
/// The comment above the idle timeout.
pub const IDLE_COMMENT: &'static str = "# Seconds of inactivity before time is logged as \"Idle\".";
/// The comment above the save interval.
pub const SAVE_COMMENT: &'static str = "# How often (seconds) accumulated time is written to the database.";
/// The comment above the sampling interval.
pub const REFRESH_COMMENT: &'static str = "# Tracker sampling interval (seconds). Lower = more responsive, slightly more CPU.";
/// The idle timeout's key.
pub const IDLE_KEY: &'static str = "idle_timeout_secs";
/// The save interval's key.
pub const SAVE_KEY: &'static str = "save_interval_secs";
/// The sampling interval's key.
pub const REFRESH_KEY: &'static str = "refresh_rate_secs";
/// What stands between a key and its value.
pub const ASSIGN: &'static str = " = ";

/// The text of `lines`, each followed by a line break.
pub open spec fn line_text(lines: Seq<Seq<char>>) -> Seq<char>
    decreases lines.len(),
{
    if lines.len() == 0 {
        Seq::empty()
    } else {
        line_text(lines.drop_last()) + lines.last().push('\n')
    }
}

/// A setting line: the key, " = " and the value in decimal.
pub open spec fn setting_line(key: Seq<char>, value: u64) -> Seq<char> {
    key + ASSIGN@ + decimal(value as nat)
}

/// The lines of the self-documenting configuration file for `c`: a title,
/// then each setting under a comment that explains it, blank lines between.
pub open spec fn config_lines(c: Config) -> Seq<Seq<char>> {
    seq![
        CONFIG_TITLE@,
        Seq::empty(),
        IDLE_COMMENT@,
        setting_line(IDLE_KEY@, c.idle_timeout_secs),
        Seq::empty(),
        SAVE_COMMENT@,
        setting_line(SAVE_KEY@, c.save_interval_secs),
        Seq::empty(),
        REFRESH_COMMENT@,
        setting_line(REFRESH_KEY@, c.refresh_rate_secs),
    ]
}

/// The self-documenting configuration file for `c`.
pub open spec fn config_toml_text(c: Config) -> Seq<char> {
    line_text(config_lines(c))
}

proof fn lemma_line_text_push(lines: Seq<Seq<char>>, l: Seq<char>)
    ensures
        line_text(lines.push(l)) == line_text(lines) + l.push('\n'),
{
    assert(lines.push(l).drop_last() =~= lines);
}

/// The text holds no line break.
pub open spec fn single_line(t: Seq<char>) -> bool {
    forall|j: int| 0 <= j < t.len() ==> #[trigger] t[j] != '\n'
}

/// Whether `line` is blank, a `#` comment, or one of the settings of `c`.
pub open spec fn comment_blank_or_setting(line: Seq<char>, c: Config) -> bool {
    ||| line.len() == 0
    ||| line[0] == '#'
    ||| line == setting_line(IDLE_KEY@, c.idle_timeout_secs)
    ||| line == setting_line(SAVE_KEY@, c.save_interval_secs)
    ||| line == setting_line(REFRESH_KEY@, c.refresh_rate_secs)
}

proof fn lemma_setting_single_line(key: Seq<char>, value: u64)
    requires
        single_line(key),
    ensures
        single_line(setting_line(key, value)),
{
    reveal_strlit(" = ");
    lemma_decimal_digits(value as nat);
    let t = setting_line(key, value);
    let d = decimal(value as nat);
    assert forall|j: int| 0 <= j < t.len() implies #[trigger] t[j] != '\n' by {
        if j < key.len() {
            assert(t[j] == key[j]);
        } else if j < key.len() + 3 {
            assert(t[j] == ASSIGN@[j - key.len()]);
        } else {
            assert(t[j] == d[j - key.len() - 3]);
        }
    }
}

/// The configuration file is made of whole lines, none holding a line break,
/// and each is blank, a `#` comment, or one of the three `key = value`
/// settings; each setting appears. So the file holds the three values and
/// nothing else a TOML reader would take for a setting.
pub proof fn lemma_config_file_lines(c: Config)
    ensures
        config_toml_text(c) == line_text(config_lines(c)),
        forall|i: int| 0 <= i < config_lines(c).len() ==> single_line(#[trigger] config_lines(c)[i]),
        forall|i: int| 0 <= i < config_lines(c).len() ==> comment_blank_or_setting(#[trigger] config_lines(c)[i], c),
        config_lines(c).contains(setting_line(IDLE_KEY@, c.idle_timeout_secs)),
        config_lines(c).contains(setting_line(SAVE_KEY@, c.save_interval_secs)),
        config_lines(c).contains(setting_line(REFRESH_KEY@, c.refresh_rate_secs)),
{
    reveal_strlit("# Suntrack configuration. Edit and restart to apply.");
    reveal_strlit("# Seconds of inactivity before time is logged as \"Idle\".");
    reveal_strlit("# How often (seconds) accumulated time is written to the database.");
    reveal_strlit("# Tracker sampling interval (seconds). Lower = more responsive, slightly more CPU.");
    reveal_strlit("idle_timeout_secs");
    reveal_strlit("save_interval_secs");
    reveal_strlit("refresh_rate_secs");
    let l = config_lines(c);
    lemma_setting_single_line(IDLE_KEY@, c.idle_timeout_secs);
    lemma_setting_single_line(SAVE_KEY@, c.save_interval_secs);
    lemma_setting_single_line(REFRESH_KEY@, c.refresh_rate_secs);
    assert(single_line(CONFIG_TITLE@));
    assert(single_line(IDLE_COMMENT@));
    assert(single_line(SAVE_COMMENT@));
    assert(single_line(REFRESH_COMMENT@));
    assert(single_line(Seq::<char>::empty()));
    assert(l[3] == setting_line(IDLE_KEY@, c.idle_timeout_secs));
    assert(l[6] == setting_line(SAVE_KEY@, c.save_interval_secs));
    assert(l[9] == setting_line(REFRESH_KEY@, c.refresh_rate_secs));
}

/// The seeded file's settings read "idle_timeout_secs = 60",
/// "save_interval_secs = 15" and "refresh_rate_secs = 1".
pub proof fn lemma_default_settings()
    ensures
        setting_line(IDLE_KEY@, default_config().idle_timeout_secs) == "idle_timeout_secs = 60"@,
        setting_line(SAVE_KEY@, default_config().save_interval_secs) == "save_interval_secs = 15"@,
        setting_line(REFRESH_KEY@, default_config().refresh_rate_secs) == "refresh_rate_secs = 1"@,
{
    reveal_strlit("idle_timeout_secs");
    reveal_strlit("save_interval_secs");
    reveal_strlit("refresh_rate_secs");
    reveal_strlit(" = ");
    reveal_strlit("idle_timeout_secs = 60");
    reveal_strlit("save_interval_secs = 15");
    reveal_strlit("refresh_rate_secs = 1");
    reveal_with_fuel(decimal, 3);
    assert(decimal(60) =~= seq!['6', '0']);
    assert(decimal(15) =~= seq!['1', '5']);
    assert(decimal(1) =~= seq!['1']);
    assert(setting_line(IDLE_KEY@, 60) =~= "idle_timeout_secs = 60"@);
    assert(setting_line(SAVE_KEY@, 15) =~= "save_interval_secs = 15"@);
    assert(setting_line(REFRESH_KEY@, 1) =~= "refresh_rate_secs = 1"@);
}


/// Appends `line` and a line break to `s`.
fn push_line(s: &mut String, line: &str)
    ensures
        final(s)@ == old(s)@ + line@.push('\n'),
{
    push_text(s, line);
    push_char(s, '\n');
    assert(final(s)@ =~= old(s)@ + line@.push('\n'));
}

/// Appends the setting line for `key` and `value`, and a line break, to `s`.
fn push_setting(s: &mut String, key: &str, value: u64)
    ensures
        final(s)@ == old(s)@ + setting_line(key@, value).push('\n'),
{
    let ghost s0 = s@;
    push_text(s, key);
    push_text(s, ASSIGN);
    push_decimal(s, value);
    push_char(s, '\n');
    assert(s@ =~= s0 + setting_line(key@, value).push('\n'));
}

/// The file written when no configuration exists, built from the defaults so
/// the seeded values never drift from them.
pub fn default_config_toml() -> (text: String)
    ensures
        text@ == config_toml_text(default_config()),
{
    let d = Config::default();
    let ghost l = config_lines(d);
    let ghost mut done: Seq<Seq<char>> = Seq::empty();
    proof {
        reveal_strlit("");
    }
    let mut s = String::new();
    push_line(&mut s, CONFIG_TITLE);
    proof { lemma_line_text_push(done, l[0]); done = done.push(l[0]); assert(s@ =~= line_text(done)); }
    push_line(&mut s, "");
    proof { lemma_line_text_push(done, l[1]); done = done.push(l[1]); assert(s@ =~= line_text(done)); }
    push_line(&mut s, IDLE_COMMENT);
    proof { lemma_line_text_push(done, l[2]); done = done.push(l[2]); assert(s@ =~= line_text(done)); }
    push_setting(&mut s, IDLE_KEY, d.idle_timeout_secs);
    proof { lemma_line_text_push(done, l[3]); done = done.push(l[3]); assert(s@ =~= line_text(done)); }
    push_line(&mut s, "");
    proof { lemma_line_text_push(done, l[4]); done = done.push(l[4]); assert(s@ =~= line_text(done)); }
    push_line(&mut s, SAVE_COMMENT);
    proof { lemma_line_text_push(done, l[5]); done = done.push(l[5]); assert(s@ =~= line_text(done)); }
    push_setting(&mut s, SAVE_KEY, d.save_interval_secs);
    proof { lemma_line_text_push(done, l[6]); done = done.push(l[6]); assert(s@ =~= line_text(done)); }
    push_line(&mut s, "");
    proof { lemma_line_text_push(done, l[7]); done = done.push(l[7]); assert(s@ =~= line_text(done)); }
    push_line(&mut s, REFRESH_COMMENT);
    proof { lemma_line_text_push(done, l[8]); done = done.push(l[8]); assert(s@ =~= line_text(done)); }
    push_setting(&mut s, REFRESH_KEY, d.refresh_rate_secs);
    proof { lemma_line_text_push(done, l[9]); done = done.push(l[9]); assert(s@ =~= line_text(done)); assert(done =~= l); }
    s
}

} // verus!
