//! The set of services the daemon supervises: loading them from the
//! configuration, starting them all, and finding one by name.
use vstd::prelude::*;
use vstd::string::*;
use crate::control::{registered, registered_list, take_registered};
use crate::paths::{service_config_path, service_file_path, CONFIG};
use crate::service::{
    command_words, launches, service_from_config, started, Service, ServiceError, ServiceView,
};
use crate::text::{same_text, views};
use crate::yaml::{load_documents, models, text, yaml_load, YamlModel, YamlValue};

verus! {

broadcast use vstd::string::group_string_axioms;

/// Why the services could not be loaded.
#[derive(Debug)]
pub enum LoadError {
    /// The configuration is not YAML; the text is the parser's message.
    ConfigParse(String),
    /// The configuration's first document has no list under `services`.
    ConfigNotList,
    /// An entry of the configuration's list is not a string.
    PathNotString,
    /// A service's configuration file is not YAML; the text is the parser's message.
    ServiceParse(String),
}

/// The message of a load error.
pub open spec fn load_error_message(e: LoadError) -> Seq<char> {
    match e {
        LoadError::ConfigParse(m) => "Failed to parse config file: "@ + m@,
        LoadError::ConfigNotList => "Config file has no list of services: "@ + CONFIG@,
        LoadError::PathNotString => "Service path is not a string in config file: "@ + CONFIG@,
        LoadError::ServiceParse(m) => "Failed to parse service config file: "@ + m@,
    }
}

impl LoadError {
    /// The message of this error.
    pub fn message(&self) -> (r: String)
        ensures
            r@ == load_error_message(*self),
    {
        match self {
            LoadError::ConfigParse(m) => {
                let mut r = "Failed to parse config file: ".to_owned();
                r.append(m.as_str());
                r
            },
            LoadError::ConfigNotList => {
                let mut r = "Config file has no list of services: ".to_owned();
                r.append(CONFIG);
                r
            },
            LoadError::PathNotString => {
                let mut r = "Service path is not a string in config file: ".to_owned();
                r.append(CONFIG);
                r
            },
            LoadError::ServiceParse(m) => {
                let mut r = "Failed to parse service config file: ".to_owned();
                r.append(m.as_str());
                r
            },
        }
    }
}

/// The directories that a list of configuration entries names, or `None` when
/// one entry is not a string.
pub open spec fn dir_list(entries: Seq<YamlModel>) -> Option<Seq<Seq<char>>>
    decreases entries.len(),
{
    if entries.len() == 0 {
        Some(seq![])
    } else {
        match (dir_list(entries.drop_last()), text(entries.last())) {
            (Some(l), Some(t)) => Some(l.push(t)),
            _ => None,
        }
    }
}

/// Whether configuration documents can be read as a list of directories: there
/// are none, or the first has a list under `services` (as registering writes it).
pub open spec fn lists_dirs(docs: Seq<YamlModel>) -> bool {
    docs.len() > 0 ==> registered(docs[0]) is Some
}

/// The service directories that the configuration documents name: nothing when
/// there is no document, else the strings of the list under `services` of the
/// first document.
pub open spec fn config_dirs(docs: Seq<YamlModel>) -> Result<Option<Seq<Seq<char>>>, LoadError> {
    if docs.len() == 0 {
        Ok(None)
    } else {
        match registered(docs[0]) {
            Some(entries) => match dir_list(entries) {
                Some(l) => Ok(Some(l)),
                None => Err(LoadError::PathNotString),
            },
            None => Err(LoadError::ConfigNotList),
        }
    }
}

/// The model of an optional list of directories.
pub open spec fn opt_dirs(r: Option<Vec<String>>) -> Option<Seq<Seq<char>>> {
    match r {
        Some(v) => Some(views(v@)),
        None => None,
    }
}

/// Whether a result of reading the configuration matches its model.
pub open spec fn dirs_match(
    r: Result<Option<Vec<String>>, LoadError>,
    m: Result<Option<Seq<Seq<char>>>, LoadError>,
) -> bool {
    match (r, m) {
        (Ok(d), Ok(e)) => opt_dirs(d) == e,
        (Err(LoadError::PathNotString), Err(LoadError::PathNotString)) => true,
        (Err(LoadError::ConfigNotList), Err(LoadError::ConfigNotList)) => true,
        _ => false,
    }
}

/// The service directories that the configuration documents `docs` name:
/// `None` when there is no document.
pub fn service_dirs(docs: &Vec<YamlValue>) -> (r: Result<Option<Vec<String>>, LoadError>)
    requires
        lists_dirs(models(docs@)),
    ensures
        dirs_match(r, config_dirs(models(docs@))),
{
    if docs.len() == 0 {
        return Ok(None);
    }
    let entries = match registered_list(&docs[0]) {
        Some(v) => v,
        None => return Err(LoadError::ConfigNotList),
    };
    let ghost m = models(entries@);
    assert(models(docs@)[0] == docs@[0]@);
    assert(registered(models(docs@)[0]) == Some(m));
    let mut dirs: Vec<String> = Vec::new();
    let mut i: usize = 0;
    assert(m.take(0) == Seq::<YamlModel>::empty());
    while i < entries.len()
        invariant
            i <= entries.len(),
            m == models(entries@),
            docs@.len() > 0,
            registered(models(docs@)[0]) == Some(m),
            dir_list(m.take(i as int)) == Some(views(dirs@)),
        decreases entries.len() - i,
    {
        assert(m.take(i + 1).drop_last() == m.take(i as int));
        assert(m.take(i + 1).last() == entries@[i as int]@);
        match entries[i].as_str() {
            Some(s) => {
                let ghost before = views(dirs@);
                dirs.push(s.clone());
                assert(views(dirs@) == before.push(s@));
            },
            None => {
                proof {
                    lemma_dir_list_stops(m, i as int + 1);
                }
                return Err(LoadError::PathNotString);
            },
        }
        i = i + 1;
    }
    assert(m.take(entries.len() as int) == m);
    Ok(Some(dirs))
}

/// Once an entry is not a string, no list of directories comes out.
proof fn lemma_dir_list_stops(entries: Seq<YamlModel>, k: int)
    requires
        0 <= k <= entries.len(),
        dir_list(entries.take(k)) is None,
    ensures
        dir_list(entries) is None,
    decreases entries.len() - k,
{
    if k < entries.len() {
        assert(entries.take(k + 1).drop_last() == entries.take(k));
        lemma_dir_list_stops(entries, k + 1);
    } else {
        assert(entries.take(k) == entries);
    }
}

/// The service directories that the configuration text names: `None` when it
/// holds no document; an error when it is not YAML, when its first document
/// has no list under `services`, or when an entry of that list is not a string.
pub fn config_service_dirs(config: &str) -> (r: Result<Option<Vec<String>>, LoadError>)
    ensures
        match yaml_load(config@) {
            Err(m) => r matches Err(LoadError::ConfigParse(e)) && e@ == m,
            Ok(docs) => if lists_dirs(docs) {
                dirs_match(r, config_dirs(docs))
            } else {
                r matches Err(LoadError::ConfigNotList)
            },
        },
{
    match load_documents(config) {
        Err(e) => Err(LoadError::ConfigParse(e)),
        Ok(docs) => {
            if docs.len() > 0 && registered_list(&docs[0]).is_none() {
                assert(models(docs@)[0] == docs@[0]@);
                return Err(LoadError::ConfigNotList);
            }
            service_dirs(&docs)
        },
    }
}

/// The services that configuration documents describe, in order, skipping the
/// documents that describe none.
pub open spec fn accepted(docs: Seq<YamlModel>, path: Seq<char>) -> Seq<ServiceView>
    decreases docs.len(),
{
    if docs.len() == 0 {
        seq![]
    } else {
        match service_from_config(docs.last(), path) {
            Ok(v) => accepted(docs.drop_last(), path).push(v),
            Err(_) => accepted(docs.drop_last(), path),
        }
    }
}

/// The documents that describe no service, by position, with the reason.
pub open spec fn rejected(docs: Seq<YamlModel>, path: Seq<char>) -> Seq<(int, ServiceError)>
    decreases docs.len(),
{
    if docs.len() == 0 {
        seq![]
    } else {
        match service_from_config(docs.last(), path) {
            Ok(_) => rejected(docs.drop_last(), path),
            Err(e) => rejected(docs.drop_last(), path).push((docs.len() - 1, e)),
        }
    }
}

/// The models of services.
pub open spec fn service_views(v: Seq<Service>) -> Seq<ServiceView> {
    Seq::new(v.len(), |i: int| v[i]@)
}

/// The model of rejected documents.
pub open spec fn rejection_views(v: Seq<(usize, ServiceError)>) -> Seq<(int, ServiceError)> {
    Seq::new(v.len(), |i: int| (v[i].0 as int, v[i].1))
}

/// The services that the documents of the file at `path` describe, and the
/// documents that describe none, with the reason.
pub fn services_from_documents(docs: &Vec<YamlValue>, path: &str) -> (r: (
    Vec<Service>,
    Vec<(usize, ServiceError)>,
))
    ensures
        service_views(r.0@) == accepted(models(docs@), path@),
        rejection_views(r.1@) == rejected(models(docs@), path@),
{
    let ghost m = models(docs@);
    let mut services: Vec<Service> = Vec::new();
    let mut skipped: Vec<(usize, ServiceError)> = Vec::new();
    let mut i: usize = 0;
    assert(m.take(0) == Seq::<YamlModel>::empty());
    while i < docs.len()
        invariant
            i <= docs.len(),
            m == models(docs@),
            service_views(services@) == accepted(m.take(i as int), path@),
            rejection_views(skipped@) == rejected(m.take(i as int), path@),
        decreases docs.len() - i,
    {
        let ghost t = m.take(i + 1);
        assert(t.drop_last() == m.take(i as int));
        assert(t.last() == docs@[i as int]@);
        let ghost before_s = service_views(services@);
        let ghost before_k = rejection_views(skipped@);
        match Service::new(&docs[i], path.to_owned()) {
            Ok(s) => {
                services.push(s);
                assert(service_views(services@) == before_s.push(services@.last()@));
            },
            Err(e) => {
                skipped.push((i, e));
                assert(rejection_views(skipped@) == before_k.push((i as int, skipped@.last().1)));
            },
        }
        i = i + 1;
    }
    assert(m.take(docs.len() as int) == m);
    (services, skipped)
}

/// The services that the configuration file at `path`, holding `source`,
/// describes, and the documents that describe none; an error when it is not YAML.
pub fn services_from_file(path: &str, source: &str) -> (r: Result<
    (Vec<Service>, Vec<(usize, ServiceError)>),
    LoadError,
>)
    ensures
        match (r, yaml_load(source@)) {
            (Ok((s, k)), Ok(docs)) => service_views(s@) == accepted(docs, path@)
                && rejection_views(k@) == rejected(docs, path@),
            (Err(LoadError::ServiceParse(e)), Err(m)) => e@ == m,
            _ => false,
        },
{
    match load_documents(source) {
        Err(e) => Err(LoadError::ServiceParse(e)),
        Ok(docs) => Ok(services_from_documents(&docs, path)),
    }
}

/// Why a request about a service failed.
#[derive(Debug)]
pub enum MaintainerError {
    /// No service has this name.
    NotFound(String),
}

/// The message of a maintainer error.
pub open spec fn maintainer_error_message(e: MaintainerError) -> Seq<char> {
    match e {
        MaintainerError::NotFound(name) => "Service not found: "@ + name@,
    }
}

impl MaintainerError {
    /// The message of this error.
    pub fn message(&self) -> (r: String)
        ensures
            r@ == maintainer_error_message(*self),
    {
        match self {
            MaintainerError::NotFound(name) => {
                let mut r = "Service not found: ".to_owned();
                r.append(name.as_str());
                r
            },
        }
    }
}

/// Whether `i` is the first position of a service named `name`.
pub open spec fn first_named(s: Seq<ServiceView>, name: Seq<char>, i: int) -> bool {
    &&& 0 <= i < s.len()
    &&& s[i].name == name
    &&& forall|j: int| 0 <= j < i ==> #[trigger] s[j].name != name
}

/// Whether no service is named `name`.
pub open spec fn none_named(s: Seq<ServiceView>, name: Seq<char>) -> bool {
    forall|j: int| 0 <= j < s.len() ==> #[trigger] s[j].name != name
}

/// The first position at or after `from` of a service that starting launches.
pub open spec fn first_launch(s: Seq<ServiceView>, from: int) -> Option<int>
    decreases s.len() - from,
{
    if from < 0 || from >= s.len() {
        None
    } else if launches(s[from]) {
        Some(from)
    } else {
        first_launch(s, from + 1)
    }
}

/// The services after the report `event` to a run in state `run`: the awaited
/// service is started when its spawn is reported.
pub open spec fn resumed(s: Seq<ServiceView>, run: StartAllView, event: StartEvent) -> Seq<
    ServiceView,
> {
    match (event, run.awaiting) {
        (StartEvent::Spawned(pid), Some(k)) => s.update(k as int, started(s[k as int], pid)),
        _ => s,
    }
}

/// The position from which the run looks on after the report `event`.
pub open spec fn resume_from(run: StartAllView, event: StartEvent) -> int {
    match (event, run.awaiting) {
        (StartEvent::Spawned(_), Some(k)) => k as int + 1,
        _ => run.next as int,
    }
}

/// Whether `r` and the run's new state `run` are the next step of starting
/// `services` from position `from`: spawn the first service there that starting
/// launches and await it (the run fails where its command has no words), or
/// report that all are done.
pub open spec fn next_step(services: Seq<ServiceView>, from: int, run: StartAllView, r: StartAction) -> bool {
    match first_launch(services, from) {
        Some(j) => if command_words(services[j].as_root, services[j].start).len() == 0 {
            &&& run.awaiting is None
            &&& run.next == j
            &&& r matches StartAction::Failed(ServiceError::EmptyCommand)
        } else {
            &&& run.awaiting == Some(j as nat)
            &&& run.next == j
            &&& r matches StartAction::Spawn(k, argv) && k == j && views(argv@) == command_words(
                services[j].as_root,
                services[j].start,
            )
        },
        None => run.awaiting is None && run.next == services.len() && r is Done,
    }
}

/// Where a run that starts all services is: the position from which it looks
/// for the next service to launch, and the service whose launch it awaits.
pub struct StartAll {
    next: usize,
    awaiting: Option<usize>,
}

/// The model of a run that starts all services.
pub struct StartAllView {
    pub next: nat,
    pub awaiting: Option<nat>,
}

impl View for StartAll {
    type V = StartAllView;

    closed spec fn view(&self) -> StartAllView {
        StartAllView {
            next: self.next as nat,
            awaiting: match self.awaiting {
                Some(k) => Some(k as nat),
                None => None,
            },
        }
    }
}

impl StartAll {
    /// A run that has launched nothing yet.
    pub fn new() -> (r: StartAll)
        ensures
            r@ == (StartAllView { next: 0, awaiting: None }),
    {
        StartAll { next: 0, awaiting: None }
    }
}

/// What the caller reports to a run that starts all services.
#[derive(Debug)]
pub enum StartEvent {
    /// The run begins.
    Begin,
    /// The awaited command was spawned as process `pid`.
    Spawned(u32),
    /// The awaited command could not be spawned, for this reason.
    SpawnFailed(String),
}

/// What a run that starts all services asks of the caller.
#[derive(Debug)]
pub enum StartAction {
    /// Spawn the command (program and arguments) of the service at this
    /// position, and report what came of it.
    Spawn(usize, Vec<String>),
    /// Every service that starting launches has been launched.
    Done,
    /// The run stops with this error; later services were not started.
    Failed(ServiceError),
}

/// The model of the services that loaded service files gave up on: the file's
/// path, the document's position, and the reason.
pub open spec fn skip_views(v: Seq<(String, usize, ServiceError)>) -> Seq<(Seq<char>, int, ServiceError)> {
    Seq::new(v.len(), |i: int| (v[i].0@, v[i].1 as int, v[i].2))
}

/// Rejected documents of the file at `path`, tagged with it.
pub open spec fn tagged(k: Seq<(int, ServiceError)>, path: Seq<char>) -> Seq<(Seq<char>, int, ServiceError)> {
    Seq::new(k.len(), |i: int| (path, k[i].0, k[i].1))
}

/// Where a load of the configuration is: the entries of its list of
/// directories, once read;
/// the position of the next service file; the services found so far; and the
/// documents that described no service.
pub struct Loading {
    entries: Option<Vec<YamlValue>>,
    next: usize,
    found: Vec<Service>,
    skipped: Vec<(String, usize, ServiceError)>,
}

/// The model of a load of the configuration.
pub struct LoadingView {
    pub entries: Option<Seq<YamlModel>>,
    pub next: nat,
    pub found: Seq<ServiceView>,
    pub skipped: Seq<(Seq<char>, int, ServiceError)>,
}

impl View for Loading {
    type V = LoadingView;

    closed spec fn view(&self) -> LoadingView {
        LoadingView {
            entries: match self.entries {
                Some(d) => Some(models(d@)),
                None => None,
            },
            next: self.next as nat,
            found: service_views(self.found@),
            skipped: skip_views(self.skipped@),
        }
    }
}

impl Loading {
    /// A load that has read nothing yet.
    pub fn new() -> (r: Loading)
        ensures
            r@ == (LoadingView {
                entries: None,
                next: 0,
                found: Seq::empty(),
                skipped: Seq::empty(),
            }),
    {
        let r = Loading { entries: None, next: 0, found: Vec::new(), skipped: Vec::new() };
        assert(r@.found =~= Seq::<ServiceView>::empty());
        assert(r@.skipped =~= Seq::<(Seq<char>, int, ServiceError)>::empty());
        r
    }

    /// The documents that described no service, with their file and position.
    pub fn skipped(&self) -> (r: &Vec<(String, usize, ServiceError)>)
        ensures
            skip_views(r@) == self@.skipped,
    {
        &self.skipped
    }
}

/// What the caller reports to a load of the configuration.
#[derive(Debug)]
pub enum LoadEvent {
    /// The text of the configuration.
    Config(String),
    /// The text of the service file asked for, or `None` when it does not exist.
    ServiceFile(Option<String>),
}

/// What a load of the configuration asks of the caller.
#[derive(Debug)]
pub enum LoadAction {
    /// Read the service file at this path and report its text.
    Read(String),
    /// The load is over; the services were replaced by those found, unless the
    /// configuration held no document.
    Done,
    /// The load stops with this error; the services are as they were.
    Failed(LoadError),
}

/// Whether the load goes on from `mid`: it asks for the service file of the
/// next directory, stops when that entry is not a string, or, after the last,
/// supervises the services found and is done.
pub open spec fn proceeds(
    before: Seq<ServiceView>,
    after: Seq<ServiceView>,
    mid: LoadingView,
    run: LoadingView,
    r: LoadAction,
) -> bool {
    if mid.next < mid.entries->0.len() {
        &&& run == mid
        &&& after == before
        &&& match text(mid.entries->0[mid.next as int]) {
            Some(dir) => r matches LoadAction::Read(p) && p@ == service_file_path(dir),
            None => r matches LoadAction::Failed(LoadError::PathNotString),
        }
    } else {
        &&& run == LoadingView { found: Seq::empty(), ..mid }
        &&& after == mid.found
        &&& r is Done
    }
}

/// Whether the load stopped with `r` and changed nothing.
pub open spec fn halted(
    before: Seq<ServiceView>,
    after: Seq<ServiceView>,
    old_run: LoadingView,
    run: LoadingView,
) -> bool {
    after == before && run == old_run
}

/// Whether `after`, `run` and `r` are the load's step from `before` and
/// `old_run` on `event`: the configuration's list of directories is read (no
/// document means nothing to load); each directory in turn must be a string,
/// and its service file adds the services it describes, a missing one adds
/// none; a text that is not YAML stops the load.
pub open spec fn load_step(
    before: Seq<ServiceView>,
    old_run: LoadingView,
    event: LoadEvent,
    after: Seq<ServiceView>,
    run: LoadingView,
    r: LoadAction,
) -> bool {
    match event {
        LoadEvent::Config(text) => match yaml_load(text@) {
            Err(m) => halted(before, after, old_run, run) && (r matches LoadAction::Failed(
                LoadError::ConfigParse(e),
            ) && e@ == m),
            Ok(docs) => if docs.len() == 0 {
                halted(before, after, old_run, run) && r is Done
            } else {
                match registered(docs[0]) {
                    Some(entries) => proceeds(
                        before,
                        after,
                        LoadingView { entries: Some(entries), ..old_run },
                        run,
                        r,
                    ),
                    None => halted(before, after, old_run, run) && r matches LoadAction::Failed(
                        LoadError::ConfigNotList,
                    ),
                }
            },
        },
        LoadEvent::ServiceFile(file) => {
            let path = service_file_path(text(old_run.entries->0[old_run.next as int])->0);
            match file {
                None => proceeds(
                    before,
                    after,
                    LoadingView { next: old_run.next + 1, ..old_run },
                    run,
                    r,
                ),
                Some(t) => match yaml_load(t@) {
                    Err(m) => halted(before, after, old_run, run) && (r matches LoadAction::Failed(
                        LoadError::ServiceParse(e),
                    ) && e@ == m),
                    Ok(docs) => proceeds(
                        before,
                        after,
                        LoadingView {
                            next: old_run.next + 1,
                            found: old_run.found + accepted(docs, path),
                            skipped: old_run.skipped + tagged(rejected(docs, path), path),
                            ..old_run
                        },
                        run,
                        r,
                    ),
                },
            }
        },
    }
}

/// The supervised services.
pub struct Maintainer {
    services: Vec<Service>,
}

impl View for Maintainer {
    type V = Seq<ServiceView>;

    closed spec fn view(&self) -> Seq<ServiceView> {
        service_views(self.services@)
    }
}

impl Maintainer {
    /// A maintainer with no services.
    pub fn new() -> (r: Maintainer)
        ensures
            r@ == Seq::<ServiceView>::empty(),
    {
        let r = Maintainer { services: Vec::new() };
        assert(r@ =~= Seq::<ServiceView>::empty());
        r
    }

    /// The supervised services.
    pub fn services(&self) -> (r: &Vec<Service>)
        ensures
            service_views(r@) == self@,
    {
        &self.services
    }

    /// The supervised service at position `i`, to change it.
    pub fn service_mut(&mut self, i: usize) -> (r: &mut Service)
        requires
            i < old(self)@.len(),
        ensures
            r@ == old(self)@[i as int],
            final(self)@ == old(self)@.update(i as int, final(r)@),
    {
        let ghost before = self.services@;
        let r = &mut self.services[i];
        proof {
            assert(service_views(before.update(i as int, *final(r))) == service_views(before).update(
                i as int,
                final(r)@,
            ));
        }
        r
    }

    /// One step of loading the services that the registered directories
    /// describe: first the configuration's text, then each service file in
    /// turn; after the last, the services found replace the current ones.
    pub fn load(&mut self, run: &mut Loading, event: LoadEvent) -> (r: LoadAction)
        requires
            (event is Config) == (old(run)@.entries is None),
            old(run)@.entries is Some ==> old(run)@.next < old(run)@.entries->0.len() && text(
                old(run)@.entries->0[old(run)@.next as int],
            ) is Some,
            old(run)@.entries is None ==> old(run)@.next == 0 && old(run)@.found.len() == 0
                && old(run)@.skipped.len() == 0,
        ensures
            load_step(old(self)@, old(run)@, event, final(self)@, final(run)@, r),
    {
        match event {
            LoadEvent::Config(source) => match load_documents(source.as_str()) {
                Err(e) => LoadAction::Failed(LoadError::ConfigParse(e)),
                Ok(docs) => {
                    let mut docs = docs;
                    if docs.len() == 0 {
                        return LoadAction::Done;
                    }
                    let ghost m = models(docs@);
                    let first = docs.remove(0);
                    assert(first@ == m[0]);
                    match take_registered(first) {
                        None => LoadAction::Failed(LoadError::ConfigNotList),
                        Some(list) => {
                            run.entries = Some(list);
                            self.proceed(run)
                        },
                    }
                },
            },
            LoadEvent::ServiceFile(file) => {
                let path = match &run.entries {
                    Some(d) => match d[run.next].as_str() {
                        Some(dir) => service_config_path(dir.as_str()),
                        None => String::new(),
                    },
                    None => String::new(),
                };
                let count = match &run.entries {
                    Some(d) => d.len(),
                    None => 0,
                };
                assert(run.next < count);
                match file {
                    None => {
                        run.next = run.next + 1;
                        self.proceed(run)
                    },
                    Some(t) => match services_from_file(path.as_str(), t.as_str()) {
                        Err(e) => LoadAction::Failed(e),
                        Ok((found, rejected)) => {
                            let mut found = found;
                            let ghost add = service_views(found@);
                            let ghost before = service_views(run.found@);
                            run.found.append(&mut found);
                            assert(service_views(run.found@) =~= before + add);
                            Self::record_skipped(run, rejected, &path);
                            run.next = run.next + 1;
                            self.proceed(run)
                        },
                    },
                }
            },
        }
    }

    /// Adds the documents of the file at `path` that described no service.
    fn record_skipped(run: &mut Loading, rejected: Vec<(usize, ServiceError)>, path: &String)
        ensures
            final(run)@ == (LoadingView {
                skipped: old(run)@.skipped + tagged(rejection_views(rejected@), path@),
                ..old(run)@
            }),
    {
        let ghost start = skip_views(run.skipped@);
        let ghost all = rejection_views(rejected@);
        let mut rest = rejected;
        let total = rest.len();
        assert(all.len() == total);
        let mut taken: usize = 0;
        while rest.len() > 0
            invariant
                taken + rest.len() == all.len(),
                all.len() <= usize::MAX,
                rejection_views(rest@) == all.skip(taken as int),
                skip_views(run.skipped@) == start + tagged(all.take(taken as int), path@),
                run.entries == old(run).entries,
                run.next == old(run).next,
                run.found == old(run).found,
            decreases rest.len(),
        {
            let ghost rest_before = rejection_views(rest@);
            let ghost skipped_before = skip_views(run.skipped@);
            let (i, e) = rest.remove(0);
            assert(rest_before[0] == (i as int, e));
            assert(rejection_views(rest@) =~= rest_before.drop_first());
            run.skipped.push((path.clone(), i, e));
            assert(skip_views(run.skipped@) =~= skipped_before.push((path@, i as int, e)));
            assert(all.take(taken + 1) =~= all.take(taken as int).push(all[taken as int]));
            assert(all.skip(taken as int)[0] == all[taken as int]);
            assert(tagged(all.take(taken + 1), path@) =~= tagged(all.take(taken as int), path@).push(
                (path@, i as int, e),
            ));
            assert(all.skip(taken + 1) =~= all.skip(taken as int).drop_first());
            taken = taken + 1;
        }
        assert(all.take(taken as int) =~= all);
    }

    /// Asks for the next service file, or, after the last, supervises the
    /// services found.
    fn proceed(&mut self, run: &mut Loading) -> (r: LoadAction)
        requires
            old(run)@.entries is Some,
            old(run)@.next <= old(run)@.entries->0.len(),
        ensures
            proceeds(old(self)@, final(self)@, old(run)@, final(run)@, r),
    {
        let count = match &run.entries {
            Some(d) => d.len(),
            None => 0,
        };
        if run.next < count {
            match &run.entries {
                Some(d) => {
                    assert(models(d@)[run.next as int] == d@[run.next as int]@);
                    match d[run.next].as_str() {
                        Some(dir) => LoadAction::Read(service_config_path(dir.as_str())),
                        None => LoadAction::Failed(LoadError::PathNotString),
                    }
                },
                None => LoadAction::Failed(LoadError::PathNotString),
            }
        } else {
            let mut found: Vec<Service> = Vec::new();
            std::mem::swap(&mut found, &mut run.found);
            assert(service_views(run.found@) =~= Seq::<ServiceView>::empty());
            self.services = found;
            LoadAction::Done
        }
    }

    /// Supervises `services` in place of the current ones.
    pub fn replace_services(&mut self, services: Vec<Service>)
        ensures
            final(self)@ == service_views(services@),
    {
        self.services = services;
    }

    /// The position of the first service named `name`, if any.
    pub fn position(&self, name: &str) -> (r: Option<usize>)
        ensures
            match r {
                Some(i) => first_named(self@, name@, i as int),
                None => none_named(self@, name@),
            },
    {
        let mut i: usize = 0;
        while i < self.services.len()
            invariant
                i <= self.services.len(),
                forall|j: int| 0 <= j < i ==> #[trigger] self@[j].name != name@,
            decreases self.services.len() - i,
        {
            if same_text(self.services[i].name(), name) {
                return Some(i);
            }
            i = i + 1;
        }
        None
    }

    /// The first service named `name` (the one whose log is asked for); an
    /// error when no service has that name.
    pub fn log(&self, name: &str) -> (r: Result<&Service, MaintainerError>)
        ensures
            match r {
                Ok(s) => exists|i: int| first_named(self@, name@, i) && s@ == self@[i],
                Err(MaintainerError::NotFound(n)) => n@ == name@ && none_named(self@, name@),
            },
    {
        match self.position(name) {
            Some(i) => Ok(&self.services[i]),
            None => Err(MaintainerError::NotFound(name.to_owned())),
        }
    }

    /// One step of starting all services in order, stopping at the first that
    /// cannot be spawned. `Begin` starts the run; each report of a spawn records
    /// the awaited service as started; then the run asks for the next service
    /// that starting launches, or reports that all are done.
    pub fn start_all(&mut self, run: &mut StartAll, event: StartEvent) -> (r: StartAction)
        requires
            (event is Begin) == (old(run)@.awaiting is None),
            old(run)@.next <= old(self)@.len(),
            match old(run)@.awaiting {
                Some(k) => k < old(self)@.len() && launches(old(self)@[k as int]),
                None => true,
            },
        ensures
            match event {
                StartEvent::SpawnFailed(reason) => {
                    &&& final(self)@ == old(self)@
                    &&& final(run)@ == old(run)@
                    &&& r matches StartAction::Failed(ServiceError::Spawn(e)) && e@ == reason@
                },
                _ => {
                    &&& final(self)@ == resumed(old(self)@, old(run)@, event)
                    &&& final(run)@.next <= final(self)@.len()
                    &&& next_step(final(self)@, resume_from(old(run)@, event), final(run)@, r)
                },
            },
    {
        let mut from: usize = run.next;
        match event {
            StartEvent::SpawnFailed(reason) => {
                return StartAction::Failed(ServiceError::Spawn(reason));
            },
            StartEvent::Spawned(pid) => {
                match run.awaiting {
                    Some(k) => {
                        assert(k < self.services.len());
                        let ghost before = self.services@;
                        self.services[k].start(pid);
                        assert(service_views(self.services@) == service_views(before).update(
                            k as int,
                            started(service_views(before)[k as int], pid),
                        ));
                        from = k + 1;
                    },
                    None => {},
                }
            },
            StartEvent::Begin => {},
        }
        match self.find_launch(from) {
            Some((i, argv)) => {
                run.next = i;
                if argv.len() == 0 {
                    run.awaiting = None;
                    StartAction::Failed(ServiceError::EmptyCommand)
                } else {
                    run.awaiting = Some(i);
                    StartAction::Spawn(i, argv)
                }
            },
            None => {
                run.next = self.services.len();
                run.awaiting = None;
                StartAction::Done
            },
        }
    }

    /// The first position at or after `from` of a service that starting
    /// launches, with the command that launches it.
    fn find_launch(&self, from: usize) -> (r: Option<(usize, Vec<String>)>)
        requires
            from <= self@.len(),
        ensures
            match (r, first_launch(self@, from as int)) {
                (Some((i, argv)), Some(j)) => i == j && views(argv@) == command_words(
                    self@[j].as_root,
                    self@[j].start,
                ),
                (None, None) => true,
                _ => false,
            },
            r matches Some((i, _)) ==> i < self@.len(),
    {
        let mut i = from;
        while i < self.services.len()
            invariant
                from <= i <= self.services.len(),
                first_launch(self@, from as int) == first_launch(self@, i as int),
            decreases self.services.len() - i,
        {
            match self.services[i].start_plan() {
                Ok(Some(argv)) => {
                    return Some((i, argv));
                },
                Ok(None) => {},
                Err(_) => {
                    let empty: Vec<String> = Vec::new();
                    assert(views(empty@) =~= Seq::<Seq<char>>::empty());
                    return Some((i, empty));
                },
            }
            i = i + 1;
        }
        None
    }
}

} // verus!
