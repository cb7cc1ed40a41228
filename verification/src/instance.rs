//! Game-instance bookkeeping: reading Minecraft logs and tracking the
//! processes the launcher started.

use std::collections::HashMap;
use vstd::prelude::*;
use crate::text::{
    contains, contains_exec, copy_range, extend_chars, lemma_views_push, from_chars, lines, lines_exec, starts_with, starts_with_exec, str_views, to_chars,
    to_strings, trim, trim_exec, views,
};

verus! {

/// Declares `std::io::Error` so that error enums can carry it.
#[verifier::external_type_specification]
#[verifier::external_body]
pub struct ExIoError(std::io::Error);

/// The state carried from one log line to the next while collecting errors:
/// the lines kept so far, and whether an exception block is open.
pub open spec fn error_step(state: (Seq<Seq<char>>, bool), line: Seq<char>) -> (Seq<Seq<char>>, bool) {
    let (kept, in_exception) = state;
    let t = trim(line);
    if contains(t, "ERROR"@) || contains(t, "FATAL"@) {
        (kept.push(line), true)
    } else if starts_with(t, "at "@) || starts_with(t, "Caused by:"@) || starts_with(t, "Suppressed:"@) {
        (if in_exception { kept.push(line) } else { kept }, in_exception)
    } else if contains(t, "crash report"@) || contains(t, "crash-reports"@) {
        (kept.push(line), in_exception)
    } else if in_exception && t.len() == 0 {
        (kept, false)
    } else {
        (kept, in_exception)
    }
}

/// The result of feeding `ls` to `error_step`, one line after the other.
pub open spec fn scan_errors(ls: Seq<Seq<char>>) -> (Seq<Seq<char>>, bool)
    decreases ls.len(),
{
    if ls.len() == 0 {
        (seq![], false)
    } else {
        error_step(scan_errors(ls.drop_last()), ls.last())
    }
}

/// The error lines of a log: those that carry `ERROR` or `FATAL`, the stack
/// trace lines that follow them up to the next blank line, and crash-report
/// references.
pub open spec fn log_errors(log: Seq<char>) -> Seq<Seq<char>> {
    scan_errors(lines(log)).0
}

/// Extracts the error lines of Minecraft log content.
///
/// A line counts when, once trimmed, it contains `ERROR` or `FATAL`; starts
/// with `at `, `Caused by:` or `Suppressed:` while an exception block opened
/// by such a line is still running (a blank line closes it); or mentions a
/// crash report.
pub fn extract_errors_from_log(log_content: &str) -> (r: Vec<String>)
    ensures
        str_views(r@) == log_errors(log_content@),
{
    let chars = to_chars(log_content);
    let ls = lines_exec(chars.as_slice());
    let error = to_chars("ERROR");
    let fatal = to_chars("FATAL");
    let at = to_chars("at ");
    let caused = to_chars("Caused by:");
    let suppressed = to_chars("Suppressed:");
    let crash_report = to_chars("crash report");
    let crash_reports = to_chars("crash-reports");
    let mut kept: Vec<Vec<char>> = Vec::new();
    let mut in_exception = false;
    let mut i: usize = 0;
    while i < ls.len()
        invariant
            i <= ls@.len(),
            views(ls@) == lines(log_content@),
            error@ == "ERROR"@,
            fatal@ == "FATAL"@,
            at@ == "at "@,
            caused@ == "Caused by:"@,
            suppressed@ == "Suppressed:"@,
            crash_report@ == "crash report"@,
            crash_reports@ == "crash-reports"@,
            (views(kept@), in_exception) == scan_errors(views(ls@).subrange(0, i as int)),
        decreases ls.len() - i,
    {
        let line = &ls[i];
        let t = trim_exec(line.as_slice());
        let ghost before = views(kept@);
        proof {
            assert(views(ls@).subrange(0, i + 1).drop_last() =~= views(ls@).subrange(0, i as int));
            assert(views(ls@).subrange(0, i + 1).last() == line@);
        }
        if contains_exec(t.as_slice(), error.as_slice()) || contains_exec(t.as_slice(), fatal.as_slice()) {
            kept.push(line.clone());
            in_exception = true;
            assert(views(kept@) =~= before.push(line@));
        } else if starts_with_exec(t.as_slice(), at.as_slice()) || starts_with_exec(t.as_slice(), caused.as_slice())
            || starts_with_exec(t.as_slice(), suppressed.as_slice()) {
            if in_exception {
                kept.push(line.clone());
                assert(views(kept@) =~= before.push(line@));
            }
        } else if contains_exec(t.as_slice(), crash_report.as_slice()) || contains_exec(
            t.as_slice(),
            crash_reports.as_slice(),
        ) {
            kept.push(line.clone());
            assert(views(kept@) =~= before.push(line@));
        } else if in_exception && t.len() == 0 {
            in_exception = false;
        }
        i += 1;
    }
    assert(views(ls@).subrange(0, ls@.len() as int) =~= views(ls@));
    to_strings(&kept)
}


/// A line that carries `ERROR` or `FATAL` once trimmed.
pub open spec fn is_error_marker_line(line: Seq<char>) -> bool {
    contains(trim(line), "ERROR"@) || contains(trim(line), "FATAL"@)
}

proof fn lemma_scan_errors(ls: Seq<Seq<char>>)
    ensures
        forall|k: int| 0 <= k < scan_errors(ls).0.len() ==> ls.contains(#[trigger] scan_errors(ls).0[k]),
        forall|i: int|
            0 <= i < ls.len() && is_error_marker_line(#[trigger] ls[i]) ==> scan_errors(ls).0.contains(
                ls[i],
            ),
    decreases ls.len(),
{
    if ls.len() > 0 {
        let prev = ls.drop_last();
        lemma_scan_errors(prev);
        let p = scan_errors(prev);
        let cur = scan_errors(ls);
        assert(cur == error_step(p, ls.last()));
        assert(cur.0 == p.0 || cur.0 == p.0.push(ls.last()));
        assert forall|k: int| 0 <= k < cur.0.len() implies ls.contains(#[trigger] cur.0[k]) by {
            if k < p.0.len() {
                assert(cur.0[k] == p.0[k]);
                assert(prev.contains(p.0[k]));
                let j = choose|j: int| 0 <= j < prev.len() && prev[j] == p.0[k];
                assert(ls[j] == prev[j]);
            } else {
                assert(cur.0[k] == ls.last());
                assert(ls[ls.len() - 1] == ls.last());
            }
        }
        assert forall|i: int| 0 <= i < ls.len() && is_error_marker_line(#[trigger] ls[i]) implies cur.0.contains(
            ls[i],
        ) by {
            if i < ls.len() - 1 {
                assert(prev[i] == ls[i]);
                assert(p.0.contains(prev[i]));
                let j = choose|j: int| 0 <= j < p.0.len() && p.0[j] == prev[i];
                assert(cur.0[j] == p.0[j]);
            } else {
                assert(ls[i] == ls.last());
                assert(cur.0 == p.0.push(ls.last()));
                assert(cur.0[cur.0.len() - 1] == ls[i]);
            }
        }
    }
}

/// Every line that `extract_errors_from_log` returns is a line of the log,
/// and every line of the log that carries `ERROR` or `FATAL` is returned.
pub proof fn lemma_log_errors_sound_and_complete(log: Seq<char>)
    ensures
        forall|k: int|
            0 <= k < log_errors(log).len() ==> lines(log).contains(#[trigger] log_errors(log)[k]),
        forall|i: int|
            0 <= i < lines(log).len() && is_error_marker_line(#[trigger] lines(log)[i])
                ==> log_errors(log).contains(lines(log)[i]),
{
    lemma_scan_errors(lines(log));
}


/// The last `max_lines` lines of `content` (all of them when there are
/// fewer), in their original order.
pub open spec fn last_lines(content: Seq<char>, max_lines: nat) -> Seq<Seq<char>> {
    let ls = lines(content);
    if ls.len() <= max_lines {
        ls
    } else {
        ls.subrange(ls.len() - max_lines, ls.len() as int)
    }
}

/// Keeps the last `max_lines` lines of the content of `logs/latest.log`.
pub fn last_log_lines(content: &str, max_lines: usize) -> (r: Vec<String>)
    ensures
        str_views(r@) == last_lines(content@, max_lines as nat),
{
    let chars = to_chars(content);
    let ls = lines_exec(chars.as_slice());
    let start = if ls.len() <= max_lines {
        0
    } else {
        ls.len() - max_lines
    };
    let mut kept: Vec<Vec<char>> = Vec::new();
    let mut i = start;
    while i < ls.len()
        invariant
            start <= i <= ls@.len(),
            kept@.len() == i - start,
            views(kept@) == views(ls@).subrange(start as int, i as int),
        decreases ls.len() - i,
    {
        let line = copy_range(ls[i].as_slice(), 0, ls[i].len());
        proof {
            assert(ls[i as int]@.subrange(0, ls[i as int]@.len() as int) =~= ls[i as int]@);
            lemma_views_push(kept@, line);
            assert(views(kept@).push(line@) =~= views(ls@).subrange(start as int, i + 1));
        }
        kept.push(line);
        i += 1;
    }
    assert(views(ls@).subrange(0, ls@.len() as int) =~= views(ls@));
    to_strings(&kept)
}

/// The single line reported when `logs/latest.log` does not exist.
pub fn log_not_found_lines(log_path: &str) -> (r: Vec<String>)
    ensures
        str_views(r@) == seq!["Log file not found: "@ + log_path@],
{
    let mut line = to_chars("Log file not found: ");
    let path = to_chars(log_path);
    extend_chars(&mut line, path.as_slice());
    let mut r: Vec<String> = Vec::new();
    r.push(from_chars(line.as_slice()));
    assert(str_views(r@) =~= seq!["Log file not found: "@ + log_path@]);
    r
}

/// The text `read_all_logs` reports, from the contents of `latest.log` and
/// `debug.log` (`None` for a file that does not exist).
pub open spec fn all_logs_text(latest: Option<Seq<char>>, debug: Option<Seq<char>>) -> Seq<char> {
    let a = match latest {
        Some(t) => "=== latest.log ===\n"@ + t + "\n\n"@,
        None => seq![],
    };
    let b = match debug {
        Some(t) => "=== debug.log ===\n"@ + t,
        None => seq![],
    };
    if (a + b).len() == 0 {
        "No log files found in logs/ directory"@
    } else {
        a + b
    }
}

/// Puts the contents of the two Minecraft logs together under headers.
pub fn compose_all_logs(latest: Option<&str>, debug: Option<&str>) -> (r: String)
    ensures
        r@ == all_logs_text(
            match latest {
                Some(t) => Some(t@),
                None => None,
            },
            match debug {
                Some(t) => Some(t@),
                None => None,
            },
        ),
{
    let mut out: Vec<char> = Vec::new();
    match latest {
        Some(t) => {
            let header = to_chars("=== latest.log ===\n");
            extend_chars(&mut out, header.as_slice());
            let body = to_chars(t);
            extend_chars(&mut out, body.as_slice());
            let tail = to_chars("\n\n");
            extend_chars(&mut out, tail.as_slice());
        },
        None => {},
    }
    match debug {
        Some(t) => {
            let header = to_chars("=== debug.log ===\n");
            extend_chars(&mut out, header.as_slice());
            let body = to_chars(t);
            extend_chars(&mut out, body.as_slice());
        },
        None => {},
    }
    if out.len() == 0 {
        let none = to_chars("No log files found in logs/ directory");
        return from_chars(none.as_slice());
    }
    from_chars(out.as_slice())
}

/// A running game instance as the launcher remembers it.
#[derive(Debug)]
pub struct GameInstance {
    /// Process ID
    pub pid: u32,
    /// Instance name
    pub instance_name: String,
    /// Version string, such as `1.20.1-fabric-0.15.0`
    pub version: String,
    /// Username used to launch
    pub username: String,
    /// Game directory path
    pub game_dir: String,
    /// Launch time, in seconds since the Unix epoch
    pub started_at: u64,
}

/// Errors of instance control.
#[derive(Debug)]
pub enum InstanceError {
    /// No running instance has this process ID.
    NotFound { pid: u32 },
    /// The operating system refused to stop the process.
    Io(std::io::Error),
}

/// Tracks the running game instances, keyed by process ID.
pub struct InstanceManager {
    instances: HashMap<u32, GameInstance>,
}

impl View for InstanceManager {
    type V = Map<u32, GameInstance>;

    closed spec fn view(&self) -> Map<u32, GameInstance> {
        self.instances@
    }
}

/// The process IDs of the instances in `m` that carry the name `name`.
pub open spec fn pids_named(m: Map<u32, GameInstance>, name: Seq<char>) -> Set<u32> {
    Set::new(|p: u32| m.contains_key(p) && m[p].instance_name@ == name)
}

impl InstanceManager {
    /// Every instance is filed under its own process ID.
    pub open spec fn wf(&self) -> bool {
        forall|p: u32| #[trigger] self@.contains_key(p) ==> self@[p].pid == p
    }

    /// Creates a manager with no instance.
    pub fn new() -> (r: Self)
        ensures
            r.wf(),
            r@ == Map::<u32, GameInstance>::empty(),
    {
        InstanceManager { instances: HashMap::new() }
    }

    /// The process IDs of all running instances named `instance_name`.
    pub fn get_pids(&self, instance_name: &str) -> (r: Vec<u32>)
        requires
            self.wf(),
        ensures
            r@.to_set() == pids_named(self@, instance_name@),
            r@.no_duplicates(),
    {
        broadcast use vstd::std_specs::hash::group_hash_axioms;
        let ghost named = pids_named(self@, instance_name@);
        let ghost mut seen: Set<u32> = Set::empty();
        let target = instance_name.to_owned();
        let mut r: Vec<u32> = Vec::new();
        for k in it: self.instances.keys()
            invariant
                self.wf(),
                named == pids_named(self@, instance_name@),
                target@ == instance_name@,
                it.seq().unref().to_set() == self@.dom(),
                it.seq().unref().no_duplicates(),
                seen == it.seq().unref().subrange(0, it.index() as int).to_set(),
                it.index() == it.seq().len() ==> seen == self@.dom(),
                r@.to_set() == seen.intersect(named),
                r@.no_duplicates(),
                forall|p: u32| r@.contains(p) ==> seen.contains(p),
        {
            assert(it.seq().unref().subrange(0, it.index() + 1) =~= it.seq().unref().subrange(
                0,
                it.index() as int,
            ).push(*k));
            assert(it.seq().unref().subrange(0, it.index() + 1).to_set() =~= it.seq().unref().subrange(
                0,
                it.index() as int,
            ).to_set().insert(*k)) by {
                it.seq().unref().subrange(0, it.index() as int).lemma_push_to_set_commute(*k);
            }
            assert(it.index() + 1 == it.seq().len() ==> it.seq().unref().subrange(0, it.index() + 1)
                =~= it.seq().unref());
            assert(!seen.contains(*k)) by {
                if seen.contains(*k) {
                    let j = choose|j: int|
                        0 <= j < it.index() && it.seq().unref().subrange(0, it.index() as int)[j] == *k;
                    assert(it.seq().unref()[j] == it.seq().unref()[it.index() as int]);
                }
            }
            let inst = self.instances.get(k).unwrap();
            if inst.instance_name == target {
                let ghost r0 = r@;
                r.push(inst.pid);
                proof {
                    r0.lemma_push_to_set_commute(*k);
                    assert forall|a: int, b: int| 0 <= a < b < r@.len() implies r@[a] != r@[b] by {
                        if b == r@.len() - 1 {
                            assert(r0.contains(r0[a]));
                        }
                    }
                }
            }
            proof {
                seen = seen.insert(*k);
            }
            assert(r@.to_set() =~= seen.intersect(named));
        }
        r
    }

    /// Files a newly started instance under its process ID.
    pub fn register_instance(&mut self, instance: GameInstance)
        requires
            old(self).wf(),
        ensures
            final(self).wf(),
            final(self)@ == old(self)@.insert(instance.pid, instance),
    {
        broadcast use vstd::std_specs::hash::group_hash_axioms;
        let pid = instance.pid;
        self.instances.insert(pid, instance);
        assert forall|p: u32| #[trigger] self@.contains_key(p) implies self@[p].pid == p by {
            if p != pid {
                assert(old(self)@.contains_key(p));
            }
        }
    }

    /// Forgets the instance with this process ID, if any.
    pub fn unregister_instance(&mut self, pid: u32)
        requires
            old(self).wf(),
        ensures
            final(self).wf(),
            final(self)@ == old(self)@.remove(pid),
    {
        broadcast use vstd::std_specs::hash::group_hash_axioms;
        self.instances.remove(&pid);
    }

    /// Takes the instance with this process ID out of the manager before it
    /// is stopped; an unknown process ID is refused.
    pub fn close_instance(&mut self, pid: u32) -> (r: Result<(), InstanceError>)
        requires
            old(self).wf(),
        ensures
            final(self).wf(),
            r is Ok <==> old(self)@.contains_key(pid),
            r matches Err(e) ==> e == (InstanceError::NotFound { pid }),
            final(self)@ == old(self)@.remove(pid),
    {
        broadcast use vstd::std_specs::hash::group_hash_axioms;
        let removed = self.instances.remove(&pid);
        assert forall|p: u32| #[trigger] self@.contains_key(p) implies self@[p].pid == p by {
            assert(old(self)@.contains_key(p));
        }
        match removed {
            Some(_) => Ok(()),
            None => Err(InstanceError::NotFound { pid }),
        }
    }

    /// The process ID of some running instance named `instance_name`.
    pub fn get_pid(&self, instance_name: &str) -> (r: Option<u32>)
        requires
            self.wf(),
        ensures
            r matches Some(p) ==> pids_named(self@, instance_name@).contains(p),
            r is None ==> pids_named(self@, instance_name@).is_empty(),
    {
        broadcast use vstd::std_specs::hash::group_hash_axioms;
        let ghost named = pids_named(self@, instance_name@);
        let ghost mut seen: Set<u32> = Set::empty();
        let target = instance_name.to_owned();
        for k in it: self.instances.keys()
            invariant
                self.wf(),
                named == pids_named(self@, instance_name@),
                target@ == instance_name@,
                it.seq().unref().to_set() == self@.dom(),
                seen == it.seq().unref().subrange(0, it.index() as int).to_set(),
                it.index() == it.seq().len() ==> seen == self@.dom(),
                forall|p: u32| seen.contains(p) ==> !named.contains(p),
        {
            let inst = self.instances.get(k).unwrap();
            if inst.instance_name == target {
                return Some(inst.pid);
            }
            assert(it.seq().unref().subrange(0, it.index() + 1) =~= it.seq().unref().subrange(
                0,
                it.index() as int,
            ).push(*k));
            assert(it.seq().unref().subrange(0, it.index() + 1).to_set() =~= it.seq().unref().subrange(
                0,
                it.index() as int,
            ).to_set().insert(*k)) by {
                it.seq().unref().subrange(0, it.index() as int).lemma_push_to_set_commute(*k);
            }
            assert(it.index() + 1 == it.seq().len() ==> it.seq().unref().subrange(0, it.index() + 1)
                =~= it.seq().unref());
            proof {
                seen = seen.insert(*k);
            }
        }
        proof {
            assert(named =~= Set::<u32>::empty());
        }
        None
    }
}

/// A registered instance is found under its name, and registering one
/// leaves what the other names find unchanged but for its process ID.
pub proof fn lemma_registered_instance_found(m: Map<u32, GameInstance>, instance: GameInstance, name: Seq<char>)
    ensures
        pids_named(m.insert(instance.pid, instance), instance.instance_name@).contains(instance.pid),
        name != instance.instance_name@ ==> pids_named(m.insert(instance.pid, instance), name)
            == pids_named(m, name).remove(instance.pid),
{
    assert(name != instance.instance_name@ ==> pids_named(m.insert(instance.pid, instance), name)
        =~= pids_named(m, name).remove(instance.pid));
}

/// Once an instance is unregistered (or closed), no name finds its process
/// ID, and every other process ID is found as before.
pub proof fn lemma_unregistered_instance_gone(m: Map<u32, GameInstance>, pid: u32, name: Seq<char>)
    ensures
        pids_named(m.remove(pid), name) == pids_named(m, name).remove(pid),
        !pids_named(m.remove(pid), name).contains(pid),
{
    assert(pids_named(m.remove(pid), name) =~= pids_named(m, name).remove(pid));
}

/// Unregistering an instance undoes its registration when its process ID
/// was not registered before.
pub proof fn lemma_unregister_undoes_register(m: Map<u32, GameInstance>, instance: GameInstance)
    requires
        !m.contains_key(instance.pid),
    ensures
        m.insert(instance.pid, instance).remove(instance.pid) == m,
{
    assert(m.insert(instance.pid, instance).remove(instance.pid) =~= m);
}

/// A line of a Java stack trace: once trimmed it starts with `at `,
/// `Caused by:` or `Suppressed:`.
pub open spec fn stack_trace_line(line: Seq<char>) -> bool {
    starts_with(trim(line), "at "@) || starts_with(trim(line), "Caused by:"@) || starts_with(
        trim(line),
        "Suppressed:"@,
    )
}

/// A line that mentions a crash report.
pub open spec fn crash_report_line(line: Seq<char>) -> bool {
    contains(trim(line), "crash report"@) || contains(trim(line), "crash-reports"@)
}

/// Before line `i` an exception block is open: some earlier line carries
/// `ERROR` or `FATAL` and no blank line follows it before `i`.
pub open spec fn exception_open(ls: Seq<Seq<char>>, i: int) -> bool {
    exists|j: int|
        0 <= j < i && #[trigger] is_error_marker_line(ls[j]) && forall|k: int| j < k < i ==> #[trigger] trim(ls[k]).len() > 0
}

/// Whether line `i` is an error line: it carries `ERROR` or `FATAL`; or it
/// is a stack-trace line inside an open exception block; or, not being a
/// stack-trace line, it mentions a crash report.
pub open spec fn error_line_at(ls: Seq<Seq<char>>, i: int) -> bool {
    ||| is_error_marker_line(ls[i])
    ||| (stack_trace_line(ls[i]) && exception_open(ls, i))
    ||| (!stack_trace_line(ls[i]) && crash_report_line(ls[i]))
}

/// The error lines of `ls`, in order.
pub open spec fn error_lines_of(ls: Seq<Seq<char>>) -> Seq<Seq<char>>
    decreases ls.len(),
{
    if ls.len() == 0 {
        seq![]
    } else {
        error_lines_of(ls.drop_last()) + (if error_line_at(ls, ls.len() - 1) {
            seq![ls.last()]
        } else {
            seq![]
        })
    }
}

proof fn lemma_nonblank_lines(line: Seq<char>)
    ensures
        is_error_marker_line(line) ==> trim(line).len() > 0,
        stack_trace_line(line) ==> trim(line).len() > 0,
        crash_report_line(line) ==> trim(line).len() > 0,
{
    reveal_strlit("ERROR");
    reveal_strlit("FATAL");
    reveal_strlit("at ");
    reveal_strlit("Caused by:");
    reveal_strlit("Suppressed:");
    reveal_strlit("crash report");
    reveal_strlit("crash-reports");
}

proof fn lemma_open_step(ls: Seq<Seq<char>>, i: int)
    requires
        0 <= i < ls.len(),
    ensures
        is_error_marker_line(ls[i]) ==> exception_open(ls, i + 1),
        trim(ls[i]).len() > 0 && !is_error_marker_line(ls[i]) ==> exception_open(ls, i + 1) == exception_open(ls, i),
        trim(ls[i]).len() == 0 ==> !exception_open(ls, i + 1),
{
    lemma_nonblank_lines(ls[i]);
    if is_error_marker_line(ls[i]) {
        assert(forall|k: int| i < k < i + 1 ==> #[trigger] trim(ls[k]).len() > 0);
    }
    if trim(ls[i]).len() > 0 && !is_error_marker_line(ls[i]) {
        if exception_open(ls, i) {
            let j = choose|j: int|
                0 <= j < i && #[trigger] is_error_marker_line(ls[j]) && forall|k: int| j < k < i ==> #[trigger] trim(ls[k]).len() > 0;
            assert(forall|k: int| j < k < i + 1 ==> #[trigger] trim(ls[k]).len() > 0);
        }
        if exception_open(ls, i + 1) {
            let j = choose|j: int|
                0 <= j < i + 1 && #[trigger] is_error_marker_line(ls[j]) && forall|k: int| j < k < i + 1 ==> #[trigger] trim(ls[k]).len() > 0;
            assert(j != i);
            assert(forall|k: int| j < k < i ==> #[trigger] trim(ls[k]).len() > 0);
        }
    }
    if trim(ls[i]).len() == 0 {
        if exception_open(ls, i + 1) {
            let j = choose|j: int|
                0 <= j < i + 1 && #[trigger] is_error_marker_line(ls[j]) && forall|k: int| j < k < i + 1 ==> #[trigger] trim(ls[k]).len() > 0;
            if j < i {
                assert(trim(ls[i]).len() > 0);
            }
        }
    }
}

proof fn lemma_open_prefix(ls: Seq<Seq<char>>)
    requires
        ls.len() > 0,
    ensures
        exception_open(ls.drop_last(), ls.len() - 1) == exception_open(ls, ls.len() - 1),
{
    let d = ls.drop_last();
    let n = ls.len() - 1;
    if exception_open(d, n) {
        let j = choose|j: int|
            0 <= j < n && #[trigger] is_error_marker_line(d[j]) && forall|k: int| j < k < n ==> #[trigger] trim(d[k]).len() > 0;
        assert(d[j] == ls[j]);
        assert forall|k: int| j < k < n implies #[trigger] trim(ls[k]).len() > 0 by {
            assert(d[k] == ls[k]);
        }
    }
    if exception_open(ls, n) {
        let j = choose|j: int|
            0 <= j < n && #[trigger] is_error_marker_line(ls[j]) && forall|k: int| j < k < n ==> #[trigger] trim(ls[k]).len() > 0;
        assert(d[j] == ls[j]);
        assert forall|k: int| j < k < n implies #[trigger] trim(d[k]).len() > 0 by {
            assert(d[k] == ls[k]);
        }
    }
}

proof fn lemma_scan_matches(ls: Seq<Seq<char>>)
    ensures
        scan_errors(ls) == (error_lines_of(ls), exception_open(ls, ls.len() as int)),
    decreases ls.len(),
{
    if ls.len() > 0 {
        let d = ls.drop_last();
        let n = ls.len() - 1;
        lemma_scan_matches(d);
        lemma_open_prefix(ls);
        lemma_open_step(ls, n);
        lemma_nonblank_lines(ls[n]);
        assert(ls.last() == ls[n]);
    } else {
        assert(!exception_open(ls, 0));
    }
}

/// What `extract_errors_from_log` returns, said line by line: exactly the
/// log's lines that carry `ERROR` or `FATAL`, the stack-trace lines (`at `,
/// `Caused by:`, `Suppressed:`) that stand in an exception block opened by
/// such a line and not yet closed by a blank line, and the other lines that
/// mention a crash report, in the log's order.
pub proof fn lemma_log_errors_by_line(log: Seq<char>)
    ensures
        log_errors(log) == error_lines_of(lines(log)),
{
    lemma_scan_matches(lines(log));
}

} // verus!
