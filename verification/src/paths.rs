//! Where the database and the configuration live inside the data directory.

use vstd::prelude::*;
use vstd::string::*;
use crate::text::push_text;

verus! {

/// The name of the data directory under the per-user base directory.
pub const APP_DIR: &'static str = "suntrack";
/// The database's file name.
pub const DB_FILE: &'static str = "usage.db";
/// The configuration's file name.
pub const CONFIG_FILE: &'static str = "config.toml";

/// Whether `dir` is a bare drive such as `C:`: an ASCII letter and a colon.
pub open spec fn bare_drive(dir: Seq<char>) -> bool {
    &&& dir.len() == 2
    &&& dir[1] == ':'
    &&& (('a' <= dir[0] && dir[0] <= 'z') || ('A' <= dir[0] && dir[0] <= 'Z'))
}

/// `name` inside directory `dir` on a platform whose path separator is
/// `sep`: `dir`, then `sep`, then `name`. No separator is added when `dir`
/// is empty, already ends in a separator ('/', which every platform accepts,
/// or `sep`), or, where the separator is `\`, is a bare drive: `C:` joined
/// with a name stays relative to that drive's current directory.
pub open spec fn joined(dir: Seq<char>, name: Seq<char>, sep: char) -> Seq<char> {
    if dir.len() == 0 || (sep == '\\' && bare_drive(dir)) {
        dir + name
    } else if dir.last() == '/' || dir.last() == sep {
        dir + name
    } else {
        dir + seq![sep] + name
    }
}

/// The path of `name` inside directory `dir`, with `sep` the platform's
/// path separator.
pub fn join_path(dir: &str, name: &str, sep: char) -> (p: String)
    ensures
        p@ == joined(dir@, name@, sep),
{
    let mut p = String::from_str(dir);
    let n = dir.unicode_len();
    let mut drive = false;
    if sep == '\\' && n == 2 && dir.get_char(1) == ':' {
        let c = dir.get_char(0);
        drive = ('a' <= c && c <= 'z') || ('A' <= c && c <= 'Z');
    }
    if n > 0 && !drive {
        let last = dir.get_char(n - 1);
        if last != '/' && last != sep {
            crate::text::push_char(&mut p, sep);
        }
    }
    push_text(&mut p, name);
    assert(p@ =~= joined(dir@, name@, sep));
    p
}

/// The usage database inside the data directory.
pub fn db_path(data_dir: &str, sep: char) -> (p: String)
    ensures
        p@ == joined(data_dir@, DB_FILE@, sep),
{
    join_path(data_dir, DB_FILE, sep)
}

/// The configuration file inside the data directory.
pub fn config_path(data_dir: &str, sep: char) -> (p: String)
    ensures
        p@ == joined(data_dir@, CONFIG_FILE@, sep),
{
    join_path(data_dir, CONFIG_FILE, sep)
}

} // verus!
