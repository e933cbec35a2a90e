//! Where the daemon keeps its files, and how paths are joined.
use vstd::prelude::*;
use vstd::string::*;
use crate::text::{chars_of, decimal, is_digit, push_decimal};

verus! {

broadcast use vstd::string::group_string_axioms;

/// The file that holds the process id of the running daemon.
pub const PID: &'static str = "/tmp/justrund/pid";

/// The socket on which the daemon listens.
pub const SOCKET: &'static str = "/tmp/justrund/socket";

/// The daemon's files that are removed when it stops.
pub const TMP_PATHS: [&'static str; 2] = [PID, SOCKET];

/// The daemon's configuration: the directories of the registered services.
pub const CONFIG: &'static str = "/etc/justrund/config.yaml";

/// The directory where results for the command line tool are written.
pub const RESULT_BASE: &'static str = "/tmp/justrund/results/";

/// The name of a service's configuration file inside its directory.
pub const SERVICE_FILE: &'static str = "justrun.yaml";

/// `base` joined with `name`, as `Path::join` does on Unix: an absolute `name`
/// replaces `base`; otherwise a `/` goes between them unless `base` is empty or
/// already ends with one.
pub open spec fn joined(base: Seq<char>, name: Seq<char>) -> Seq<char> {
    if name.len() > 0 && name[0] == '/' {
        name
    } else if base.len() == 0 {
        name
    } else if base.last() == '/' {
        base + name
    } else {
        base + seq!['/'] + name
    }
}

/// `base` joined with `name` (`Path::new(base).join(name)`).
pub fn join(base: &str, name: &str) -> (r: String)
    ensures
        r@ == joined(base@, name@),
{
    let name_chars = chars_of(name);
    if name_chars.len() > 0 && name_chars[0] == '/' {
        return name.to_owned();
    }
    let chars = chars_of(base);
    let mut r = base.to_owned();
    if chars.len() > 0 && chars[chars.len() - 1] != '/' {
        r.append("/");
        proof {
            reveal_strlit("/");
        }
        assert("/"@ == seq!['/']);
    }
    r.append(name);
    r
}

/// The path of the configuration file of the service in directory `dir`.
pub open spec fn service_file_path(dir: Seq<char>) -> Seq<char> {
    joined(dir, SERVICE_FILE@)
}

/// The path of the configuration file of the service in directory `dir`.
pub fn service_config_path(dir: &str) -> (r: String)
    ensures
        r@ == service_file_path(dir@),
{
    join(dir, SERVICE_FILE)
}

/// The file where the result of the request stamped `ts` is written.
pub fn result_path(ts: u64) -> (r: String)
    ensures
        r@ == joined(RESULT_BASE@, decimal(ts as nat)),
{
    let mut name = String::new();
    push_decimal(&mut name, ts);
    join(RESULT_BASE, name.as_str())
}

/// Whether `stamp` is a decimal numeral (as the tool's stamps are).
pub open spec fn is_stamp(stamp: Seq<char>) -> bool {
    stamp.len() > 0 && forall|i: int| 0 <= i < stamp.len() ==> is_digit(#[trigger] stamp[i])
}

/// The file where the result of the request stamped `stamp` is written; `None`
/// when the stamp is not a decimal numeral, so that no other file is named.
pub fn result_file(stamp: &str) -> (r: Option<String>)
    ensures
        match r {
            Some(p) => is_stamp(stamp@) && p@ == joined(RESULT_BASE@, stamp@),
            None => !is_stamp(stamp@),
        },
{
    let chars = chars_of(stamp);
    if chars.len() == 0 {
        return None;
    }
    let mut i: usize = 0;
    while i < chars.len()
        invariant
            i <= chars.len(),
            chars@ == stamp@,
            forall|j: int| 0 <= j < i ==> is_digit(#[trigger] chars@[j]),
        decreases chars.len() - i,
    {
        let code = chars[i] as u32;
        if code < 48 || code > 57 {
            assert(!is_digit(chars@[i as int]));
            return None;
        }
        i = i + 1;
    }
    Some(join(RESULT_BASE, stamp))
}

} // verus!
