//! The control protocol between the command line tool and the daemon: the
//! request messages, how the daemon reads them, and how the tool registers
//! service directories in the daemon's configuration.
use vstd::prelude::*;
use vstd::string::*;
use crate::text::{decimal, push_decimal, same_text, split_whitespace, trim, trimmed, views, words};
use crate::yaml::{
    dump_document, entry_models, get, key_index, key_position, load_documents, models, yaml_emit,
    yaml_load, YamlModel, YamlValue,
};

verus! {

broadcast use vstd::string::group_string_axioms;

/// A command of the command line tool.
#[derive(Debug)]
pub enum Command {
    Start { name: String },
    Stop { name: String },
    Restart { name: String },
    Status { name: String },
    Reg,
    Unreg,
    Restartd,
    Init,
}

/// The message that asks the daemon to carry out `command`, stamped `ts`:
/// the stamp, the verb and its argument; `None` for the commands that the tool
/// carries out itself.
pub open spec fn request_text(ts: u64, command: Command) -> Option<Seq<char>> {
    let stamp = decimal(ts as nat);
    match command {
        Command::Start { name } => Some(stamp + " start "@ + name@),
        Command::Stop { name } => Some(stamp + " stop "@ + name@),
        Command::Restart { name } => Some(stamp + " restart "@ + name@),
        Command::Status { name } => Some(stamp + " status "@ + name@),
        Command::Restartd => Some(stamp + " restartd none"@),
        _ => None,
    }
}

/// The message that asks the daemon to carry out `command`, stamped `ts`.
pub fn request_message(ts: u64, command: &Command) -> (r: Option<String>)
    ensures
        match (r, request_text(ts, *command)) {
            (Some(m), Some(t)) => m@ == t,
            (None, None) => true,
            _ => false,
        },
{
    let mut m = String::new();
    push_decimal(&mut m, ts);
    match command {
        Command::Start { name } => {
            m.append(" start ");
            m.append(name.as_str());
        },
        Command::Stop { name } => {
            m.append(" stop ");
            m.append(name.as_str());
        },
        Command::Restart { name } => {
            m.append(" restart ");
            m.append(name.as_str());
        },
        Command::Status { name } => {
            m.append(" status ");
            m.append(name.as_str());
        },
        Command::Restartd => {
            m.append(" restartd none");
        },
        _ => {
            return None;
        },
    }
    Some(m)
}

/// What the daemon is asked to do: to a service, or to itself (`Restartd`).
#[derive(PartialEq, Eq, Structural, Clone, Copy, Debug)]
pub enum Verb {
    Start,
    Stop,
    Restart,
    Status,
    Restartd,
}

/// A request that the daemon understood: the stamp that names the tool's
/// result file, a verb, and the name it applies to.
#[derive(Debug)]
pub struct Request {
    pub stamp: String,
    pub verb: Verb,
    pub arg: String,
}

/// Why the daemon did not understand a request.
#[derive(Debug)]
pub enum RequestError {
    /// The message has fewer than three words; it is kept whole.
    Invalid(String),
    /// The second word names no verb; it is kept.
    Unknown(String),
}

/// The message of a request error.
pub open spec fn request_error_message(e: RequestError) -> Seq<char> {
    match e {
        RequestError::Invalid(data) => "Invalid command: "@ + data@,
        RequestError::Unknown(word) => "Unknown command: "@ + word@,
    }
}

impl RequestError {
    /// The message of this error.
    pub fn message(&self) -> (r: String)
        ensures
            r@ == request_error_message(*self),
    {
        match self {
            RequestError::Invalid(data) => {
                let mut r = "Invalid command: ".to_owned();
                r.append(data.as_str());
                r
            },
            RequestError::Unknown(word) => {
                let mut r = "Unknown command: ".to_owned();
                r.append(word.as_str());
                r
            },
        }
    }
}

/// The verb a word names.
pub open spec fn verb_of(word: Seq<char>) -> Option<Verb> {
    if word == "start"@ {
        Some(Verb::Start)
    } else if word == "stop"@ {
        Some(Verb::Stop)
    } else if word == "restart"@ {
        Some(Verb::Restart)
    } else if word == "status"@ {
        Some(Verb::Status)
    } else if word == "restartd"@ {
        Some(Verb::Restartd)
    } else {
        None
    }
}

/// How the daemon reads a message.
pub enum Reading {
    /// A stamp, a verb and its argument.
    Understood(Seq<char>, Verb, Seq<char>),
    /// Fewer than three words.
    TooShort,
    /// A second word that names no verb.
    UnknownVerb(Seq<char>),
}

/// How the daemon reads a message of the tool: its first word is the stamp,
/// its second the verb, its third the argument; further words are ignored.
pub open spec fn reading(data: Seq<char>) -> Reading {
    let parts = words(data);
    if parts.len() < 3 {
        Reading::TooShort
    } else {
        match verb_of(parts[1]) {
            Some(v) => Reading::Understood(parts[0], v, parts[2]),
            None => Reading::UnknownVerb(parts[1]),
        }
    }
}

/// The verb that the tool's message for `command` carries.
pub open spec fn command_verb(command: Command) -> Option<Verb> {
    match command {
        Command::Start { .. } => Some(Verb::Start),
        Command::Stop { .. } => Some(Verb::Stop),
        Command::Restart { .. } => Some(Verb::Restart),
        Command::Status { .. } => Some(Verb::Status),
        Command::Restartd => Some(Verb::Restartd),
        _ => None,
    }
}

/// The argument that the tool's message for `command` carries.
pub open spec fn command_arg(command: Command) -> Seq<char> {
    match command {
        Command::Start { name } => name@,
        Command::Stop { name } => name@,
        Command::Restart { name } => name@,
        Command::Status { name } => name@,
        Command::Restartd => "none"@,
        _ => seq![],
    }
}

/// The verb that `word` names, if any.
fn verb_named(word: &str) -> (r: Option<Verb>)
    ensures
        r == verb_of(word@),
{
    if same_text(word, "start") {
        Some(Verb::Start)
    } else if same_text(word, "stop") {
        Some(Verb::Stop)
    } else if same_text(word, "restart") {
        Some(Verb::Restart)
    } else if same_text(word, "status") {
        Some(Verb::Status)
    } else if same_text(word, "restartd") {
        Some(Verb::Restartd)
    } else {
        None
    }
}

/// Reads a message the daemon received.
pub fn parse_request(data: &str) -> (r: Result<Request, RequestError>)
    ensures
        match (r, reading(data@)) {
            (Ok(req), Reading::Understood(t, v, a)) => req.stamp@ == t && req.verb == v && req.arg@
                == a,
            (Err(RequestError::Invalid(d)), Reading::TooShort) => d@ == data@,
            (Err(RequestError::Unknown(w)), Reading::UnknownVerb(u)) => w@ == u,
            _ => false,
        },
{
    let parts = split_whitespace(data);
    if parts.len() < 3 {
        return Err(RequestError::Invalid(data.to_owned()));
    }
    assert(parts@[0]@ == words(data@)[0]);
    assert(parts@[1]@ == words(data@)[1]);
    assert(parts@[2]@ == words(data@)[2]);
    match verb_named(parts[1].as_str()) {
        Some(verb) => Ok(Request { stamp: parts[0].clone(), verb, arg: parts[2].clone() }),
        None => Err(RequestError::Unknown(parts[1].clone())),
    }
}

/// The data of a connection, as the daemon keeps it: without surrounding white
/// space; `None` when nothing else is left.
pub fn received_message(data: &str) -> (r: Option<String>)
    ensures
        match r {
            Some(m) => m@ == trimmed(data@) && m@.len() > 0,
            None => trimmed(data@).len() == 0,
        },
{
    let t = trim(data);
    if t.as_str().is_empty() {
        None
    } else {
        Some(t)
    }
}

/// The registered directories in the daemon's configuration: the list under
/// `services`.
pub open spec fn registered(config: YamlModel) -> Option<Seq<YamlModel>> {
    match get(config, "services"@) {
        YamlModel::Array(list) => Some(list),
        _ => None,
    }
}

/// The list under `services` of a configuration document, if it has one.
pub fn registered_list(config: &YamlValue) -> (r: Option<&Vec<YamlValue>>)
    ensures
        match r {
            Some(v) => registered(config@) == Some(models(v@)),
            None => registered(config@) is None,
        },
{
    match config.get("services") {
        Some(v) => v.as_vec(),
        None => None,
    }
}

/// The list under `services` of a configuration document, taken out of it.
pub fn take_registered(config: YamlValue) -> (r: Option<Vec<YamlValue>>)
    ensures
        match r {
            Some(v) => registered(config@) == Some(models(v@)),
            None => registered(config@) is None,
        },
{
    let ghost before = config@;
    match config {
        YamlValue::Hash(entries) => {
            let mut entries = entries;
            let ghost m = entry_models(entries@);
            assert(before->Hash_0 =~= m);
            match key_position(&entries, "services") {
                Some(k) => {
                    let (key, value) = entries.remove(k);
                    assert(m[k as int] == (key@, value@));
                    let ghost vm = value@;
                    match value {
                        YamlValue::Array(list) => {
                            assert(vm->Array_0 =~= models(list@));
                            Some(list)
                        },
                        _ => None,
                    }
                },
                None => None,
            }
        },
        _ => None,
    }
}

/// `list` without the entries that are the string `dir`.
pub open spec fn without(list: Seq<YamlModel>, dir: Seq<char>) -> Seq<YamlModel>
    decreases list.len(),
{
    if list.len() == 0 {
        seq![]
    } else if list[0] == YamlModel::Str(dir) {
        without(list.drop_first(), dir)
    } else {
        seq![list[0]] + without(list.drop_first(), dir)
    }
}

/// The list after registering (`dir` is added at the end) or unregistering
/// (every entry that is `dir` is removed).
pub open spec fn edited(list: Seq<YamlModel>, dir: Seq<char>, register: bool) -> Seq<YamlModel> {
    if register {
        list.push(YamlModel::Str(dir))
    } else {
        without(list, dir)
    }
}

/// The configuration with `list` in place of the list under `services`.
pub open spec fn with_services(config: YamlModel, list: Seq<YamlModel>) -> YamlModel {
    match config {
        YamlModel::Hash(entries) => match key_index(entries, "services"@) {
            Some(k) => YamlModel::Hash(
                entries.update(k, (entries[k].0, YamlModel::Array(list))),
            ),
            None => config,
        },
        _ => config,
    }
}

/// The configuration after registering or unregistering `dir`.
pub open spec fn reregistered(config: YamlModel, dir: Seq<char>, register: bool) -> YamlModel {
    match registered(config) {
        Some(list) => with_services(config, edited(list, dir, register)),
        None => config,
    }
}

/// `list` without the entries that are the string `dir`.
fn remove_dir(list: Vec<YamlValue>, dir: &str) -> (r: Vec<YamlValue>)
    ensures
        models(r@) == without(models(list@), dir@),
{
    let ghost whole = models(list@);
    let mut rest = list;
    let mut kept: Vec<YamlValue> = Vec::new();
    assert(models(kept@) + without(models(rest@), dir@) == without(whole, dir@));
    while rest.len() > 0
        invariant
            models(kept@) + without(models(rest@), dir@) == without(whole, dir@),
        decreases rest.len(),
    {
        let ghost before_rest = models(rest@);
        let ghost before_kept = models(kept@);
        let x = rest.remove(0);
        assert(models(rest@) == before_rest.drop_first());
        assert(before_rest[0] == x@);
        let is_dir = match &x {
            YamlValue::Str(s) => same_text(s.as_str(), dir),
            _ => false,
        };
        assert(is_dir <==> x@ == YamlModel::Str(dir@));
        if !is_dir {
            kept.push(x);
            assert(models(kept@) == before_kept + seq![x@]);
            assert(before_kept + seq![x@] + without(models(rest@), dir@) == before_kept + (seq![x@]
                + without(models(rest@), dir@)));
        }
    }
    assert(without(models(rest@), dir@) == Seq::<YamlModel>::empty());
    assert(models(kept@) + Seq::<YamlModel>::empty() == models(kept@));
    kept
}

/// The daemon's configuration after registering (`register`) or unregistering
/// the service directory `dir`.
pub fn edit_registration(config: YamlValue, dir: &str, register: bool) -> (r: YamlValue)
    requires
        registered(config@) is Some,
    ensures
        r@ == reregistered(config@, dir@, register),
{
    let ghost before = config@;
    match config {
        YamlValue::Hash(entries) => {
            let mut entries = entries;
            let ghost m = entry_models(entries@);
            assert(before->Hash_0 =~= m);
            let k = match key_position(&entries, "services") {
                Some(k) => k,
                None => {
                    return YamlValue::Hash(entries);
                },
            };
            let (key, value) = entries.remove(k);
            assert(m[k as int] == (key@, value@));
            let list = match value {
                YamlValue::Array(list) => list,
                _ => {
                    return YamlValue::Hash(Vec::new());
                },
            };
            assert(value@->Array_0 =~= models(list@));
            let new_list = if register {
                let mut l = list;
                let ghost old_l = models(l@);
                l.push(YamlValue::Str(dir.to_owned()));
                assert(models(l@) == old_l.push(YamlModel::Str(dir@)));
                l
            } else {
                remove_dir(list, dir)
            };
            let new_value = YamlValue::Array(new_list);
            assert(new_value@->Array_0 =~= models(new_list@));
            entries.insert(k, (key, new_value));
            let r = YamlValue::Hash(entries);
            assert(r@->Hash_0 =~= m.update(k as int, (m[k as int].0, new_value@)));
            r
        },
        _ => YamlValue::BadValue,
    }
}

/// Why the registration of a directory could not be written.
#[derive(Debug)]
pub enum RegistrationError {
    /// The configuration is not YAML; the text is the parser's message.
    Parse(String),
    /// The configuration holds no document.
    NoDocument,
    /// The configuration has no list under `services`.
    NoServiceList,
    /// The new configuration could not be written as YAML; the text says why.
    Dump(String),
}

/// The configuration text after registering (`register`) or unregistering the
/// service directory `dir`: the first document of `config`, edited, written
/// back as YAML.
pub fn registration(config: &str, dir: &str, register: bool) -> (r: Result<String, RegistrationError>)
    ensures
        match yaml_load(config@) {
            Err(m) => r matches Err(RegistrationError::Parse(e)) && e@ == m,
            Ok(docs) => if docs.len() == 0 {
                r matches Err(RegistrationError::NoDocument)
            } else if registered(docs[0]) is None {
                r matches Err(RegistrationError::NoServiceList)
            } else {
                match yaml_emit(reregistered(docs[0], dir@, register)) {
                    Ok(t) => r matches Ok(s) && s@ == t,
                    Err(m) => r matches Err(RegistrationError::Dump(e)) && e@ == m,
                }
            },
        },
{
    let mut docs = match load_documents(config) {
        Ok(d) => d,
        Err(e) => return Err(RegistrationError::Parse(e)),
    };
    if docs.len() == 0 {
        return Err(RegistrationError::NoDocument);
    }
    let ghost m = models(docs@);
    let first = docs.remove(0);
    assert(first@ == m[0]);
    let has_list = registered_list(&first).is_some();
    if !has_list {
        return Err(RegistrationError::NoServiceList);
    }
    let edited_config = edit_registration(first, dir, register);
    match dump_document(&edited_config) {
        Ok(t) => Ok(t),
        Err(e) => Err(RegistrationError::Dump(e)),
    }
}

} // verus!
