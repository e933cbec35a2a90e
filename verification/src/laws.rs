//! Properties that span the library's functions, proved over the models that
//! their contracts use.
use vstd::prelude::*;
use crate::control::{
    command_arg, command_verb, edited, reading, registered, request_text, reregistered, verb_of, with_services,
    without, Command, Reading, Verb,
};
use crate::maintainer::{
    config_dirs, dir_list, first_launch, next_step, resume_from, resumed, LoadError, StartAction,
    StartAllView, StartEvent,
};
use crate::service::{
    log_lines, service_from_config, status_head, status_text, command_words, halts, launches, logged, probed_pid, started, stop_step, stopped, updated, Probe,
    ServiceState, ServiceView, StopAction, StopEvent, StopPhase,
};
use crate::startup::{
    cleaned, listed, pid_in_file, startup_step, Removal, StartupAction, StartupError, StartupEvent,
    StartupPhase,
};
use crate::text::{
    views,
    decimal, digit_char, digit_value, is_digit, is_space, parse_u32_spec, scan_digits, trim_end,
    trim_start, trimmed, words,
};
use crate::yaml::{get, key_index, lookup, YamlModel};

verus! {

/// A run of characters that holds no white space has itself as its only word.
proof fn lemma_words_of_word(s: Seq<char>)
    requires
        s.len() > 0,
        forall|i: int| 0 <= i < s.len() ==> !is_space(#[trigger] s[i]),
    ensures
        words(s) == seq![s],
    decreases s.len(),
{
    assert(!is_space(s[s.len() - 1]));
    if s.len() > 1 {
        let p = s.drop_last();
        assert forall|i: int| 0 <= i < p.len() implies !is_space(#[trigger] p[i]) by {
            assert(p[i] == s[i]);
        }
        lemma_words_of_word(p);
        assert(!is_space(s[s.len() - 2]));
        assert(p.push(s.last()) =~= s);
        assert(seq![p].update(0, p.push(s.last())) =~= seq![s]);
        let w = words(p);
        assert(words(s) == w.update(w.len() - 1, w.last().push(s.last())));
    } else {
        assert(s.drop_last() == Seq::<char>::empty());
        assert(words(s.drop_last()) == Seq::<Seq<char>>::empty());
        assert(seq![s.last()] == s);
        assert(words(s) == Seq::<Seq<char>>::empty().push(seq![s.last()]));
        assert(Seq::<Seq<char>>::empty().push(seq![s.last()]) =~= seq![s]);
    }
}

/// Text that ends in a word character has at least one word.
proof fn lemma_words_nonempty(s: Seq<char>)
    requires
        s.len() > 0,
        !is_space(s.last()),
    ensures
        words(s).len() > 0,
    decreases s.len(),
{
    if s.len() > 1 && !is_space(s[s.len() - 2]) {
        lemma_words_nonempty(s.drop_last());
    }
}

/// After white space, the words of the rest follow those of the start.
proof fn lemma_words_concat(p: Seq<char>, s: Seq<char>)
    requires
        p.len() > 0,
        is_space(p.last()),
    ensures
        words(p + s) == words(p) + words(s),
    decreases s.len(),
{
    if s.len() == 0 {
        assert(p + s == p);
    } else {
        let t = s.drop_last();
        let c = s.last();
        assert((p + s).drop_last() == p + t);
        assert((p + s).last() == c);
        lemma_words_concat(p, t);
        let a = words(p);
        let b = words(t);
        if is_space(c) {
        } else if (p + s).len() > 1 && !is_space((p + s)[(p + s).len() - 2]) {
            if s.len() == 1 {
                assert((p + s)[(p + s).len() - 2] == p.last());
            }
            assert(s.len() > 1);
            assert((p + s)[(p + s).len() - 2] == s[s.len() - 2]);
            assert(t.last() == s[s.len() - 2]);
            lemma_words_nonempty(t);
            let w = a + b;
            assert(w.update(w.len() - 1, w.last().push(c)) == a + b.update(
                b.len() - 1,
                b.last().push(c),
            ));
        } else {
            if s.len() > 1 {
                assert((p + s)[(p + s).len() - 2] == s[s.len() - 2]);
            }
            assert((a + b).push(seq![c]) == a + b.push(seq![c]));
        }
    }
}

/// Leading white space holds no word.
proof fn lemma_words_trim_start(s: Seq<char>)
    ensures
        words(trim_start(s)) == words(s),
    decreases s.len(),
{
    if s.len() > 0 && is_space(s[0]) {
        let p = seq![s[0]];
        let t = s.drop_first();
        assert(p + t == s);
        assert(p.drop_last() == Seq::<char>::empty());
        assert(p.last() == s[0]);
        assert(words(p.drop_last()) == Seq::<Seq<char>>::empty());
        assert(words(p) == Seq::<Seq<char>>::empty());
        lemma_words_concat(p, t);
        assert(Seq::<Seq<char>>::empty() + words(t) == words(t));
        lemma_words_trim_start(t);
    }
}

/// Trailing white space holds no word.
proof fn lemma_words_trim_end(s: Seq<char>)
    ensures
        words(trim_end(s)) == words(s),
    decreases s.len(),
{
    if s.len() > 0 && is_space(s.last()) {
        lemma_words_trim_end(s.drop_last());
    }
}

/// Trimming text keeps its words: the daemon reads a request the same with or
/// without the white space around it.
pub proof fn law_trimming_keeps_words(s: Seq<char>)
    ensures
        words(trimmed(s)) == words(s),
        reading(trimmed(s)) == reading(s),
{
    lemma_words_trim_end(trim_start(s));
    lemma_words_trim_start(s);
}

/// A service that runs as root launches `sudo` followed by the words of its
/// command; one that does not launches just those words.
pub proof fn law_root_commands_run_under_sudo(command: Seq<char>)
    ensures
        command_words(true, command) == seq!["sudo"@] + command_words(false, command),
{
    reveal_strlit("sudo ");
    reveal_strlit("sudo");
    let p = "sudo "@;
    assert(p == seq!['s', 'u', 'd', 'o', ' ']);
    assert(p.last() == ' ');
    lemma_words_concat(p, command);
    let w = seq!['s', 'u', 'd', 'o'];
    lemma_words_of_word(w);
    assert(p.drop_last() == w);
    assert(words(p) == words(w));
    assert("sudo"@ == w);
}

/// A digit is no white space.
proof fn lemma_digit_not_space(d: nat)
    requires
        d < 10,
    ensures
        !is_space(digit_char(d)),
        is_digit(digit_char(d)),
        digit_value(digit_char(d)) == d,
{
}

/// The decimal numeral of `n` starts and ends with a digit.
proof fn lemma_decimal_digits(n: nat)
    ensures
        decimal(n).len() > 0,
        is_digit(decimal(n)[0]),
        !is_space(decimal(n)[0]),
        !is_space(decimal(n).last()),
        decimal(n)[0] != '+',
        decimal(n)[0] != '-',
    decreases n,
{
    if n >= 10 {
        lemma_decimal_digits(n / 10);
        lemma_digit_not_space(n % 10);
    } else {
        lemma_digit_not_space(n);
    }
}

/// Reading the digits of a numeral gives back its value.
proof fn lemma_scan_decimal(n: nat)
    requires
        n <= u32::MAX,
    ensures
        scan_digits(decimal(n)) == Ok::<nat, crate::text::IntParseError>(n),
    decreases n,
{
    if n >= 10 {
        lemma_scan_decimal(n / 10);
        lemma_digit_not_space(n % 10);
        assert(decimal(n).drop_last() == decimal(n / 10));
        assert(decimal(n).last() == digit_char(n % 10));
        assert((n / 10) * 10 + n % 10 == n);
        assert(scan_digits(decimal(n / 10)) == Ok::<nat, crate::text::IntParseError>(n / 10));
    } else {
        lemma_digit_not_space(n);
        let d = decimal(n);
        assert(d == seq![digit_char(n)]);
        assert(d.drop_last() == Seq::<char>::empty());
        assert(d.last() == digit_char(n));
        assert(scan_digits(d.drop_last()) == Ok::<nat, crate::text::IntParseError>(0));
    }
}

/// The process id file that the daemon writes (the decimal numeral of its
/// process id) is read back as that process id.
pub proof fn law_pid_file_reads_back(pid: u32)
    ensures
        pid_in_file(decimal(pid as nat)) == Ok::<u32, crate::text::IntParseError>(pid),
{
    let d = decimal(pid as nat);
    lemma_decimal_digits(pid as nat);
    assert(trim_start(d) == d);
    assert(trim_end(d) == d);
    assert(trimmed(d) == d);
    lemma_scan_decimal(pid as nat);
}

/// Starting a service that starting launches makes it running, and starting it
/// again does nothing.
pub proof fn law_start_is_idempotent(s: ServiceView, pid: u32, again: u32)
    requires
        launches(s),
    ensures
        started(s, pid).state == ServiceState::Running,
        started(s, pid).pid == Some(pid),
        !launches(started(s, pid)),
        started(started(s, pid), again) == started(s, pid),
{
}

/// Stopping a service twice is stopping it once.
pub proof fn law_stop_is_idempotent(s: ServiceView)
    ensures
        stopped(stopped(s)) == stopped(s),
        !halts(stopped(s)),
{
}

/// Once stopped, an enabled service is launched again by starting it.
pub proof fn law_stopped_services_restart(s: ServiceView)
    requires
        s.enabled,
    ensures
        launches(stopped(s)),
{
}

/// A status check changes only the state and the log, and leaves a service
/// that it does not probe as it is.
pub proof fn law_probe_changes_only_state_and_log(s: ServiceView, probe: Probe)
    ensures
        probed_pid(s) is None ==> updated(s, probe) == s,
        updated(s, probe).pid == s.pid,
        updated(s, probe).name == s.name,
        updated(s, probe).path == s.path,
        updated(s, probe).enabled == s.enabled,
        updated(s, probe).start == s.start,
        updated(s, probe).stop == s.stop,
{
}

/// When a run that starts all services looks on from `from`, it launches the
/// first service there that starting launches; when it finds none, none is
/// left from there on.
pub proof fn law_start_all_launches_in_order(services: Seq<ServiceView>, from: int)
    requires
        0 <= from,
    ensures
        match first_launch(services, from) {
            Some(j) => from <= j < services.len() && launches(services[j]) && forall|i: int|
                from <= i < j ==> !launches(#[trigger] services[i]),
            None => forall|i: int| from <= i < services.len() ==> !launches(#[trigger] services[i]),
        },
    decreases services.len() - from,
{
    if from < services.len() && !launches(services[from]) {
        law_start_all_launches_in_order(services, from + 1);
    }
}

/// Unregistering keeps exactly the entries that are not the directory.
proof fn lemma_without_contains(list: Seq<YamlModel>, dir: Seq<char>, y: YamlModel)
    ensures
        y == YamlModel::Str(dir) ==> !without(list, dir).contains(y),
        y != YamlModel::Str(dir) ==> (list.contains(y) <==> without(list, dir).contains(y)),
    decreases list.len(),
{
    if list.len() > 0 {
        let rest = list.drop_first();
        lemma_without_contains(rest, dir, y);
        let w = without(list, dir);
        let wr = without(rest, dir);
        if list[0] != YamlModel::Str(dir) {
            assert(w == seq![list[0]] + wr);
            if wr.contains(y) {
                let i = choose|i: int| 0 <= i < wr.len() && wr[i] == y;
                assert(w[i + 1] == y);
            }
            if w.contains(y) {
                let i = choose|i: int| 0 <= i < w.len() && w[i] == y;
                if i > 0 {
                    assert(wr[i - 1] == y);
                } else {
                    assert(list[0] == y);
                }
            }
        }
        if rest.contains(y) {
            let i = choose|i: int| 0 <= i < rest.len() && rest[i] == y;
            assert(list[i + 1] == y);
        }
        if list.contains(y) {
            let i = choose|i: int| 0 <= i < list.len() && list[i] == y;
            if i > 0 {
                assert(rest[i - 1] == y);
            } else if y != YamlModel::Str(dir) {
                assert(w[0] == y);
            }
        }
    }
}

/// Unregistering a directory removes every entry that is it, keeps every
/// other entry, and undoes registering it.
pub proof fn law_unregister_undoes_register(list: Seq<YamlModel>, dir: Seq<char>)
    ensures
        edited(edited(list, dir, true), dir, false) == edited(list, dir, false),
        !edited(list, dir, false).contains(YamlModel::Str(dir)),
        forall|x: YamlModel| x != YamlModel::Str(dir) ==> (#[trigger] list.contains(x)
            <==> edited(list, dir, false).contains(x)),
    decreases list.len(),
{
    let x = YamlModel::Str(dir);
    lemma_without_contains(list, dir, x);
    assert forall|y: YamlModel| y != x implies (#[trigger] list.contains(y) <==> edited(
        list,
        dir,
        false,
    ).contains(y)) by {
        lemma_without_contains(list, dir, y);
    }
    if list.len() == 0 {
        assert(list.push(x).drop_first() == Seq::<YamlModel>::empty());
        assert(without(list.push(x), dir) == without(Seq::<YamlModel>::empty(), dir));
    } else {
        let rest = list.drop_first();
        law_unregister_undoes_register(rest, dir);
        assert(list.push(x).drop_first() == rest.push(x));
        assert(list.push(x)[0] == list[0]);
    }
}

/// `key_index` names an entry with the key, and none before it has the key.
proof fn lemma_key_index_found(entries: Seq<(YamlModel, YamlModel)>, key: Seq<char>)
    requires
        key_index(entries, key) is Some,
    ensures
        0 <= key_index(entries, key)->0 < entries.len(),
        entries[key_index(entries, key)->0].0 == YamlModel::Str(key),
        forall|j: int| 0 <= j < key_index(entries, key)->0 ==> #[trigger] entries[j].0
            != YamlModel::Str(key),
    decreases entries.len(),
{
    if entries[0].0 != YamlModel::Str(key) {
        let rest = entries.drop_first();
        lemma_key_index_found(rest, key);
        assert forall|j: int| 0 <= j < key_index(entries, key)->0 implies #[trigger] entries[j].0
            != YamlModel::Str(key) by {
            if j > 0 {
                assert(entries[j] == rest[j - 1]);
            }
        }
    }
}

/// Reading back the registered directories after registering or unregistering
/// one gives the edited list.
pub proof fn law_registration_reads_back(config: YamlModel, dir: Seq<char>, register: bool)
    requires
        registered(config) is Some,
    ensures
        registered(reregistered(config, dir, register)) == Some(
            edited(registered(config)->0, dir, register),
        ),
{
    let key = "services"@;
    let entries = config->Hash_0;
    let k = key_index(entries, key)->0;
    lemma_key_index_found(entries, key);
    let list = edited(registered(config)->0, dir, register);
    let updated_entries = entries.update(k, (entries[k].0, YamlModel::Array(list)));
    assert forall|j: int| 0 <= j < k implies #[trigger] updated_entries[j].0 != YamlModel::Str(
        key,
    ) by {
        assert(updated_entries[j] == entries[j]);
    }
    crate::yaml::lemma_key_index(updated_entries, key, k);
    assert(with_services(config, list) == YamlModel::Hash(updated_entries));
    assert(lookup(updated_entries, key) == YamlModel::Array(list));
    assert(get(YamlModel::Hash(updated_entries), key) == YamlModel::Array(list));
}

/// The daemon loads what registering writes: after a directory is registered,
/// the configuration names the directories it named before, then that one.
pub proof fn law_loading_reads_registration(
    config: YamlModel,
    dir: Seq<char>,
    dirs: Seq<Seq<char>>,
)
    requires
        registered(config) is Some,
        dir_list(registered(config)->0) == Some(dirs),
    ensures
        config_dirs(seq![reregistered(config, dir, true)]) == Ok::<
            Option<Seq<Seq<char>>>,
            LoadError,
        >(Some(dirs.push(dir))),
        dirs.push(dir).contains(dir),
{
    law_registration_reads_back(config, dir, true);
    let list = registered(config)->0;
    let grown = list.push(YamlModel::Str(dir));
    assert(grown.drop_last() == list);
    assert(dir_list(grown) == Some(dirs.push(dir)));
    assert(seq![reregistered(config, dir, true)][0] == reregistered(config, dir, true));
    assert(dirs.push(dir)[dirs.len() as int] == dir);
}

/// A decimal numeral holds no white space.
proof fn lemma_decimal_no_space(n: nat)
    ensures
        decimal(n).len() > 0,
        forall|i: int| 0 <= i < decimal(n).len() ==> !is_space(#[trigger] decimal(n)[i]),
    decreases n,
{
    lemma_decimal_digits(n);
    if n >= 10 {
        lemma_decimal_no_space(n / 10);
        lemma_digit_not_space(n % 10);
        let d = decimal(n);
        assert forall|i: int| 0 <= i < d.len() implies !is_space(#[trigger] d[i]) by {
            if i < d.len() - 1 {
                assert(d[i] == decimal(n / 10)[i]);
            }
        }
    }
}

/// Three words joined by single spaces read back as those three words.
proof fn lemma_three_words(a: Seq<char>, b: Seq<char>, c: Seq<char>)
    requires
        a.len() > 0,
        b.len() > 0,
        c.len() > 0,
        forall|i: int| 0 <= i < a.len() ==> !is_space(#[trigger] a[i]),
        forall|i: int| 0 <= i < b.len() ==> !is_space(#[trigger] b[i]),
        forall|i: int| 0 <= i < c.len() ==> !is_space(#[trigger] c[i]),
    ensures
        words(a + seq![' '] + b + seq![' '] + c) == seq![a, b, c],
{
    let p1 = a + seq![' '];
    let p2 = b + seq![' '];
    assert(is_space(' '));
    assert(a + seq![' '] + b + seq![' '] + c == p1 + (p2 + c));
    assert(p1.last() == ' ');
    assert(p2.last() == ' ');
    lemma_words_concat(p1, p2 + c);
    lemma_words_concat(p2, c);
    assert(p1.drop_last() == a);
    assert(p2.drop_last() == b);
    lemma_words_of_word(a);
    lemma_words_of_word(b);
    lemma_words_of_word(c);
    assert(seq![a] + (seq![b] + seq![c]) == seq![a, b, c]);
}

/// A literal word holds no white space.
proof fn lemma_plain_word(w: Seq<char>)
    requires
        w.len() > 0,
        forall|i: int| 0 <= i < w.len() ==> 97 <= (#[trigger] w[i] as u32) <= 122 || w[i] == '-',
    ensures
        forall|i: int| 0 <= i < w.len() ==> !is_space(#[trigger] w[i]),
{
}

/// The daemon understands every request that the tool sends: it reads the
/// stamp, the verb and the name of the service (a name of one word).
pub proof fn law_daemon_understands_tool(ts: u64, command: Command)
    requires
        command_verb(command) is Some,
        command_arg(command).len() > 0,
        forall|i: int|
            0 <= i < command_arg(command).len() ==> !is_space(#[trigger] command_arg(command)[i]),
    ensures
        request_text(ts, command) is Some,
        reading(request_text(ts, command)->0) == Reading::Understood(
            decimal(ts as nat),
            command_verb(command)->0,
            command_arg(command),
        ),
{
    reveal_strlit("start");
    reveal_strlit("stop");
    reveal_strlit("restart");
    reveal_strlit("status");
    reveal_strlit("restartd");
    reveal_strlit("none");
    reveal_strlit(" start ");
    reveal_strlit(" stop ");
    reveal_strlit(" restart ");
    reveal_strlit(" status ");
    reveal_strlit(" restartd none");
    let stamp = decimal(ts as nat);
    lemma_decimal_no_space(ts as nat);
    let verb = command_verb(command)->0;
    let name = command_arg(command);
    let word: Seq<char> = match verb {
        Verb::Start => "start"@,
        Verb::Stop => "stop"@,
        Verb::Restart => "restart"@,
        Verb::Status => "status"@,
        Verb::Restartd => "restartd"@,
    };
    lemma_plain_word(word);
    match command {
        Command::Start { name: n } => {
            assert(" start "@ == seq![' '] + "start"@ + seq![' ']);
            assert(stamp + " start "@ + n@ == stamp + seq![' '] + word + seq![' '] + n@);
        },
        Command::Stop { name: n } => {
            assert(" stop "@ == seq![' '] + "stop"@ + seq![' ']);
            assert(stamp + " stop "@ + n@ == stamp + seq![' '] + word + seq![' '] + n@);
        },
        Command::Restart { name: n } => {
            assert(" restart "@ == seq![' '] + "restart"@ + seq![' ']);
            assert(stamp + " restart "@ + n@ == stamp + seq![' '] + word + seq![' '] + n@);
        },
        Command::Status { name: n } => {
            assert(" status "@ == seq![' '] + "status"@ + seq![' ']);
            assert(stamp + " status "@ + n@ == stamp + seq![' '] + word + seq![' '] + n@);
        },
        Command::Restartd => {
            assert(" restartd none"@ == seq![' '] + "restartd"@ + seq![' '] + "none"@);
            assert(stamp + " restartd none"@ == stamp + seq![' '] + word + seq![' '] + name);
        },
        _ => {},
    }
    assert(request_text(ts, command)->0 == stamp + seq![' '] + word + seq![' '] + name);
    lemma_three_words(stamp, word, name);
    assert(verb_of(word) == Some(verb));
}

/// A second daemon does not start while the first runs: when the process id
/// file holds the first daemon's id (as it wrote it) and the process listing
/// shows that id, the check asks to list it and then refuses with that id,
/// without asking to write the file again.
pub proof fn law_second_instance_refused(first: u32, file: String, listing: String)
    requires
        file@ == decimal(first as nat),
        listed(listing@, first),
    ensures
        forall|next: StartupPhase, r: StartupAction|
            startup_step(StartupPhase::Begin, StartupEvent::PidFile(Some(file)), next, r) ==> next
                == StartupPhase::Probing(first) && r is RunPs,
        forall|next: StartupPhase, r: StartupAction|
            startup_step(StartupPhase::Probing(first), StartupEvent::PsOutput(listing), next, r)
                ==> next == StartupPhase::Finished && (r matches StartupAction::Finish(
                Err(StartupError::AlreadyRunning(p)),
            ) && p == first),
{
    law_pid_file_reads_back(first);
}

/// Cleaning up again after a clean-up, when none of the files exists any more,
/// succeeds and removes nothing.
pub proof fn law_cleanup_again_succeeds(outcomes: Seq<Removal>)
    requires
        forall|i: int| 0 <= i < outcomes.len() ==> #[trigger] outcomes[i] == Removal::Absent,
    ensures
        cleaned(outcomes),
{
}

/// What holds of a run that starts all services: no service before its
/// position is left to launch, and the service it awaits is the one at its
/// position, which starting launches.
pub open spec fn run_invariant(services: Seq<ServiceView>, run: StartAllView) -> bool {
    &&& run.next <= services.len()
    &&& forall|j: int| 0 <= j < run.next ==> !launches(#[trigger] services[j])
    &&& run.awaiting matches Some(k) ==> k == run.next && k < services.len() && launches(
        services[k as int],
    )
}

/// A new run satisfies the run invariant.
pub proof fn law_run_starts_valid(services: Seq<ServiceView>)
    ensures
        run_invariant(services, StartAllView { next: 0, awaiting: None }),
{
}

/// Every step of a run that starts all services keeps the run invariant.
pub proof fn law_run_keeps_invariant(
    services: Seq<ServiceView>,
    run: StartAllView,
    event: StartEvent,
    after: Seq<ServiceView>,
    next_run: StartAllView,
    r: StartAction,
)
    requires
        run_invariant(services, run),
        (event is Begin) == (run.awaiting is None),
        !(event is SpawnFailed),
        after == resumed(services, run, event),
        next_step(after, resume_from(run, event), next_run, r),
    ensures
        run_invariant(after, next_run),
{
    let from = resume_from(run, event);
    assert(forall|j: int| 0 <= j < from ==> !launches(#[trigger] after[j])) by {
        match (event, run.awaiting) {
            (StartEvent::Spawned(pid), Some(k)) => {
                assert forall|j: int| 0 <= j < from implies !launches(#[trigger] after[j]) by {
                    if j < k {
                        assert(after[j] == services[j]);
                    }
                }
            },
            _ => {},
        }
    }
    assert(0 <= from <= after.len());
    law_start_all_launches_in_order(after, from);
}

/// Once a run that keeps the run invariant is done, no service is left to
/// launch: starting all services again is done at once and spawns nothing.
pub proof fn law_second_start_all_spawns_nothing(services: Seq<ServiceView>, run: StartAllView)
    requires
        run_invariant(services, run),
        run.next == services.len(),
    ensures
        first_launch(services, 0) is None,
{
    law_start_all_launches_in_order(services, 0);
    if first_launch(services, 0) is Some {
        let j = first_launch(services, 0)->0;
        assert(!launches(services[j]));
    }
}

/// A service's log only grows: starting, stopping (every step of it) and
/// status checks keep the entries it has, in order, and recording a line adds
/// it at the end.
pub proof fn law_log_only_grows(
    s: ServiceView,
    pid: u32,
    probe: Probe,
    time: u64,
    line: Seq<char>,
    phase: StopPhase,
    event: StopEvent,
    after: ServiceView,
    next: StopPhase,
    r: StopAction,
)
    ensures
        started(s, pid).logs == s.logs,
        stopped(s).logs == s.logs,
        updated(s, probe).logs.len() >= s.logs.len(),
        updated(s, probe).logs.subrange(0, s.logs.len() as int) == s.logs,
        logged(s, time, line).logs == s.logs.push((time, line)),
        stop_step(s, phase, event, after, next, r) ==> after.logs == s.logs,
{
    assert(s.logs.subrange(0, s.logs.len() as int) == s.logs);
    if probed_pid(s) is Some {
        if let Probe::Failed { time: t, error } = probe {
            let pushed = s.logs.push((t, "Failed to check process: "@ + error@));
            assert(pushed.subrange(0, s.logs.len() as int) == s.logs);
        }
    }
}

/// A service is what its definition says: the strings under `name`, `start`
/// and `stop`, the boolean under `enabled` (true when there is none) and
/// under `as_root` (false when there is none), the path it was found at; it is
/// loaded, with no process and an empty log.
pub proof fn law_service_reads_its_definition(config: YamlModel, path: Seq<char>)
    requires
        get(config, "name"@) is Str,
        get(config, "start"@) is Str,
    ensures
        service_from_config(config, path) matches Ok(v) && {
            &&& v.name == get(config, "name"@)->Str_0
            &&& v.start == get(config, "start"@)->Str_0
            &&& v.path == path
            &&& v.state == ServiceState::Loaded
            &&& v.pid is None
            &&& v.logs.len() == 0
            &&& (get(config, "enabled"@) matches YamlModel::Boolean(b) ==> v.enabled == b)
            &&& (!(get(config, "enabled"@) is Boolean) ==> v.enabled)
            &&& (get(config, "as_root"@) matches YamlModel::Boolean(b) ==> v.as_root == b)
            &&& (!(get(config, "as_root"@) is Boolean) ==> !v.as_root)
            &&& (get(config, "stop"@) matches YamlModel::Str(c) ==> v.stop == Some(c))
            &&& (!(get(config, "stop"@) is Str) ==> v.stop is None)
        },
{
}

/// The stop command runs under `sudo` only for a service that runs as root:
/// when a stop begins for a service with a process and a stop command, it asks
/// to spawn the words of that command, preceded by `sudo` exactly when the
/// service runs as root.
pub proof fn law_stop_command_under_sudo_only_for_root(
    before: ServiceView,
    after: ServiceView,
    next: StopPhase,
    r: StopAction,
)
    requires
        before.enabled,
        before.state != ServiceState::Stopped,
        before.pid is Some,
        before.stop is Some,
        words(before.stop->0).len() > 0,
        stop_step(before, StopPhase::Begin, StopEvent::Begin, after, next, r),
    ensures
        after == before,
        next == StopPhase::StopCommand,
        r matches StopAction::Spawn(argv) && views(argv@) == if before.as_root {
            seq!["sudo"@] + words(before.stop->0)
        } else {
            words(before.stop->0)
        },
{
    law_root_commands_run_under_sudo(before.stop->0);
}

/// Logging a line adds exactly its line to the end of the status report: every
/// logged entry is listed, each as `[time] text`, in the order logged.
pub proof fn law_status_lists_each_logged_line(s: ServiceView, time: u64, line: Seq<char>)
    ensures
        status_text(logged(s, time, line)) == status_text(s) + "["@ + decimal(time as nat) + "] "@
            + line + "\n"@,
        log_lines(Seq::empty()) == Seq::<char>::empty(),
{
    let t = logged(s, time, line);
    assert(t.logs.drop_last() == s.logs);
    assert(status_head(t) == status_head(s));
}

/// Starting launches exactly the enabled services that are not running, in
/// whatever other state they are (loaded, stopped or failed), and records the
/// new process as running; any other service is left as it is.
pub proof fn law_start_launches_every_enabled_service_not_running(s: ServiceView, pid: u32)
    ensures
        launches(s) <==> (s.enabled && s.state != ServiceState::Running),
        s.enabled && s.state != ServiceState::Running ==> started(s, pid).state
            == ServiceState::Running && started(s, pid).pid == Some(pid),
        !(s.enabled && s.state != ServiceState::Running) ==> started(s, pid) == s,
{
}

/// A clean-up in which some file could not be removed fails; one in which none
/// failed succeeds.
pub proof fn law_cleanup_fails_on_any_failed_removal(outcomes: Seq<Removal>)
    ensures
        (exists|i: int| 0 <= i < outcomes.len() && #[trigger] outcomes[i] == Removal::Failed)
            ==> !cleaned(outcomes),
        (forall|i: int| 0 <= i < outcomes.len() ==> #[trigger] outcomes[i] != Removal::Failed)
            ==> cleaned(outcomes),
{
}

/// A status check of a probed service sets its state from what was found, and
/// stopping a service that stopping concerns leaves it stopped without a
/// process.
pub proof fn law_probe_and_stop_set_the_state(s: ServiceView, time: u64, error: String)
    ensures
        s.enabled && s.state != ServiceState::Stopped ==> probed_pid(s) == s.pid,
        !(s.enabled && s.state != ServiceState::Stopped) ==> probed_pid(s) is None,
        probed_pid(s) is Some ==> updated(s, Probe::Alive).state == ServiceState::Running,
        probed_pid(s) is Some ==> updated(s, Probe::Gone).state == ServiceState::Stopped,
        probed_pid(s) is Some ==> updated(s, Probe::Failed { time, error }).state
            == ServiceState::Failed && updated(s, Probe::Failed { time, error }).logs.len()
            == s.logs.len() + 1,
        s.enabled && s.state != ServiceState::Stopped ==> stopped(s).state == ServiceState::Stopped
            && stopped(s).pid is None,
{
}

} // verus!
