//! The runs that are under way, and the sessions they belong to.

use vstd::prelude::*;
use vstd::string::*;

use crate::models::text_result;
use crate::text::{concat3, decimal, decimal_text, owned, same, trim, trimmed};

verus! {

broadcast use vstd::string::group_string_axioms;

// ---------------------------------------------------------------------------
// The maps
// ---------------------------------------------------------------------------

#[verifier::external_type_specification]
#[verifier::external_body]
#[verifier::reject_recursive_types(K)]
#[verifier::reject_recursive_types(V)]
#[verifier::reject_recursive_types(S)]
pub struct ExDashMap<K, V, S>(dashmap::DashMap<K, V, S>);

/// The entries of a map from run to process.
pub uninterp spec fn run_entries(m: dashmap::DashMap<String, u32>) -> Map<Seq<char>, u32>;

/// The entries of a map from session to run.
pub uninterp spec fn session_entries(m: dashmap::DashMap<String, String>) -> Map<
    Seq<char>,
    Seq<char>,
>;

/// `dashmap::DashMap::new`: a map without entries.
#[verifier::external_body]
fn new_runs() -> (r: dashmap::DashMap<String, u32>)
    ensures
        (run_entries(r) == Map::<Seq<char>, u32>::empty()),
{
    dashmap::DashMap::new()
}

/// `dashmap::DashMap::new`: a map without entries.
#[verifier::external_body]
fn new_sessions() -> (r: dashmap::DashMap<String, String>)
    ensures
        (session_entries(r) == Map::<Seq<char>, Seq<char>>::empty()),
{
    dashmap::DashMap::new()
}

/// `dashmap::DashMap::insert`: the key has the new value, the others keep theirs.
#[verifier::external_body]
fn insert_run(m: &mut dashmap::DashMap<String, u32>, key: &str, value: u32)
    ensures
        run_entries(*final(m)) == run_entries(*old(m)).insert(key@, value),
{
    m.insert(key.to_string(), value);
}

/// `dashmap::DashMap::insert`: the key has the new value, the others keep theirs.
#[verifier::external_body]
fn insert_session(m: &mut dashmap::DashMap<String, String>, key: &str, value: &str)
    ensures
        session_entries(*final(m)) == session_entries(*old(m)).insert(key@, value@),
{
    m.insert(key.to_string(), value.to_string());
}

/// `dashmap::DashMap::remove`: the key is gone, the others keep their values, and
/// the value that was there is handed out.
#[verifier::external_body]
fn remove_run(m: &mut dashmap::DashMap<String, u32>, key: &str) -> (r: Option<u32>)
    ensures
        run_entries(*final(m)) == run_entries(*old(m)).remove(key@),
        r is Some <==> run_entries(*old(m)).contains_key(key@),
        r matches Some(v) ==> v == run_entries(*old(m))[key@],
{
    m.remove(key).map(|entry| entry.1)
}

/// `dashmap::DashMap::remove`: the key is gone and the others keep their values.
#[verifier::external_body]
fn remove_session(m: &mut dashmap::DashMap<String, String>, key: &str)
    ensures
        session_entries(*final(m)) == session_entries(*old(m)).remove(key@),
{
    m.remove(key);
}

/// `dashmap::DashMap::get`: a copy of the value of a key, if it has one.
#[verifier::external_body]
fn get_session(m: &dashmap::DashMap<String, String>, key: &str) -> (r: Option<String>)
    ensures
        r is Some <==> session_entries(*m).contains_key(key@),
        r matches Some(v) ==> v@ == session_entries(*m)[key@],
{
    m.get(key).map(|entry| entry.value().clone())
}

/// `dashmap::DashMap::iter`: a copy of every entry once, in no particular order.
#[verifier::external_body]
fn list_runs(m: &dashmap::DashMap<String, u32>) -> (r: Vec<(String, u32)>)
    ensures
        forall|k: Seq<char>| #[trigger]
            run_entries(*m).contains_key(k) <==> exists|i: int|
                0 <= i < r@.len() && #[trigger] r@[i].0@ == k,
        forall|i: int| 0 <= i < r@.len() ==> run_entries(*m)[(#[trigger] r@[i]).0@] == r@[i].1,
        forall|i: int, j: int|
            0 <= i < j < r@.len() ==> (#[trigger] r@[i]).0@ != (#[trigger] r@[j]).0@,
{
    m.iter().map(|entry| (entry.key().clone(), *entry.value())).collect()
}

/// `dashmap::DashMap::iter`: a copy of every entry once, in no particular order.
#[verifier::external_body]
fn list_sessions(m: &dashmap::DashMap<String, String>) -> (r: Vec<(String, String)>)
    ensures
        forall|k: Seq<char>| #[trigger]
            session_entries(*m).contains_key(k) <==> exists|i: int|
                0 <= i < r@.len() && #[trigger] r@[i].0@ == k,
        forall|i: int|
            0 <= i < r@.len() ==> session_entries(*m)[(#[trigger] r@[i]).0@] == r@[i].1@,
{
    m.iter().map(|entry| (entry.key().clone(), entry.value().clone())).collect()
}

/// `dashmap::DashMap::clear`: no entry is left.
#[verifier::external_body]
fn clear_sessions(m: &mut dashmap::DashMap<String, String>)
    ensures
        (session_entries(*final(m)) == Map::<Seq<char>, Seq<char>>::empty()),
{
    m.clear();
}

// ---------------------------------------------------------------------------
// The register
// ---------------------------------------------------------------------------

/// The processes of the runs that are under way, and the run of each session.
pub struct ActiveRuns {
    runs: dashmap::DashMap<String, u32>,
    sessions: dashmap::DashMap<String, String>,
}

/// The sessions that do not belong to a run.
pub open spec fn without_run(m: Map<Seq<char>, Seq<char>>, run_id: Seq<char>) -> Map<
    Seq<char>,
    Seq<char>,
> {
    Map::new(|k: Seq<char>| m.contains_key(k) && m[k] != run_id, |k: Seq<char>| m[k])
}

impl ActiveRuns {
    /// The process of each run.
    pub closed spec fn processes(self) -> Map<Seq<char>, u32> {
        run_entries(self.runs)
    }

    /// The run of each session.
    pub closed spec fn sessions_of(self) -> Map<Seq<char>, Seq<char>> {
        session_entries(self.sessions)
    }

    pub fn new() -> (r: Self)
        ensures
            r.processes() == Map::<Seq<char>, u32>::empty(),
            r.sessions_of() == Map::<Seq<char>, Seq<char>>::empty(),
    {
        ActiveRuns { runs: new_runs(), sessions: new_sessions() }
    }

    /// Notes that a run has taken over a session, and tells which run had it.
    pub fn claim_session(&mut self, session_key: &str, run_id: &str) -> (r: Option<String>)
        ensures
            final(self).processes() == old(self).processes(),
            final(self).sessions_of() == old(self).sessions_of().insert(session_key@, run_id@),
            r is Some <==> old(self).sessions_of().contains_key(session_key@),
            r matches Some(previous) ==> previous@ == old(self).sessions_of()[session_key@],
    {
        let previous = get_session(&self.sessions, session_key);
        insert_session(&mut self.sessions, session_key, run_id);
        previous
    }

    /// The run that has a session.
    pub fn session_run(&self, session_key: &str) -> (r: Option<String>)
        ensures
            r is Some <==> self.sessions_of().contains_key(session_key@),
            r matches Some(run) ==> run@ == self.sessions_of()[session_key@],
    {
        get_session(&self.sessions, session_key)
    }

    /// Notes the process of a run, unless the process is not known.
    pub fn register_process(&mut self, run_id: &str, pid: u32)
        ensures
            final(self).sessions_of() == old(self).sessions_of(),
            final(self).processes() == (if pid == 0 {
                old(self).processes()
            } else {
                old(self).processes().insert(run_id@, pid)
            }),
    {
        if pid != 0 {
            insert_run(&mut self.runs, run_id, pid);
        }
    }

    /// Forgets the process of a run and hands it out.
    pub fn take_process(&mut self, run_id: &str) -> (r: Option<u32>)
        ensures
            final(self).sessions_of() == old(self).sessions_of(),
            final(self).processes() == old(self).processes().remove(run_id@),
            r is Some <==> old(self).processes().contains_key(run_id@),
            r matches Some(pid) ==> pid == old(self).processes()[run_id@],
    {
        remove_run(&mut self.runs, run_id)
    }

    /// Forgets the sessions of a run.
    pub fn remove_active_sessions_for_run(&mut self, run_id: &str)
        ensures
            final(self).processes() == old(self).processes(),
            final(self).sessions_of() == without_run(old(self).sessions_of(), run_id@),
    {
        let entries = list_sessions(&self.sessions);
        let ghost all = session_entries(self.sessions);
        let mut i: usize = 0;
        while i < entries.len()
            invariant
                i <= entries@.len(),
                self.runs == old(self).runs,
                all == session_entries(old(self).sessions),
                forall|k: Seq<char>| #[trigger]
                    all.contains_key(k) <==> exists|j: int|
                        0 <= j < entries@.len() && #[trigger] entries@[j].0@ == k,
                forall|j: int|
                    0 <= j < entries@.len() ==> all[(#[trigger] entries@[j]).0@]
                        == entries@[j].1@,
                forall|k: Seq<char>| #[trigger]
                    session_entries(self.sessions).contains_key(k) <==> all.contains_key(k) && !(
                    all[k] == run_id@ && exists|j: int|
                        0 <= j < i && #[trigger] entries@[j].0@ == k),
                forall|k: Seq<char>| #[trigger]
                    session_entries(self.sessions).contains_key(k) ==> session_entries(
                        self.sessions,
                    )[k] == all[k],
            decreases entries@.len() - i,
        {
            let ghost before = session_entries(self.sessions);
            let mine = same(entries[i].1.as_str(), run_id);
            if mine {
                remove_session(&mut self.sessions, entries[i].0.as_str());
            }
            proof {
                let here = entries@[i as int].0@;
                let now = session_entries(self.sessions);
                assert(all[here] == entries@[i as int].1@);
                assert forall|k: Seq<char>| #[trigger]
                    now.contains_key(k) <==> all.contains_key(k) && !(all[k] == run_id@
                        && exists|j: int| 0 <= j < i + 1 && #[trigger] entries@[j].0@ == k) by {
                    if k == here {
                        assert(entries@[i as int].0@ == k);
                        assert(all.contains_key(k));
                    } else {
                        assert(before.contains_key(k) <==> now.contains_key(k));
                        if exists|j: int| 0 <= j < i + 1 && #[trigger] entries@[j].0@ == k {
                            let j = choose|j: int|
                                0 <= j < i + 1 && #[trigger] entries@[j].0@ == k;
                            assert(j < i);
                            assert(entries@[j].0@ == k);
                        }
                    }
                }
                assert forall|k: Seq<char>| #[trigger] now.contains_key(k) implies now[k]
                    == all[k] by {
                    assert(before.contains_key(k));
                }
            }
            i = i + 1;
        }
        proof {
            assert(session_entries(self.sessions) =~= without_run(all, run_id@)) by {
                assert forall|k: Seq<char>| #[trigger]
                    session_entries(self.sessions).contains_key(k) <==> without_run(
                        all,
                        run_id@,
                    ).contains_key(k) by {
                    if all.contains_key(k) {
                        let j = choose|j: int|
                            0 <= j < entries@.len() && #[trigger] entries@[j].0@ == k;
                        assert(entries@[j].0@ == k);
                    }
                }
            }
        }
    }

    /// Forgets a run that has ended, with its sessions.
    pub fn finish_run(&mut self, run_id: &str)
        ensures
            final(self).processes() == old(self).processes().remove(run_id@),
            final(self).sessions_of() == without_run(old(self).sessions_of(), run_id@),
    {
        let pid = self.take_process(run_id);
        self.remove_active_sessions_for_run(run_id);
    }

    /// The run that a request to stop a session is about.
    pub fn run_to_stop(&self, session_key: &str) -> (r: Result<String, String>)
        ensures
            text_result(r) == stop_target(self.sessions_of(), session_key@),
    {
        let key = trim(session_key);
        if key.is_empty() {
            return Err(owned("session_key cannot be empty"));
        }
        match get_session(&self.sessions, key) {
            Some(run_id) => Ok(run_id),
            None => Err(concat3("no active external cli run for session '", key, "'")),
        }
    }
}

/// Forgets all runs and sessions and hands out the processes that are to be
/// ended, so that none outlives the gateway.
pub fn kill_all_active_runs(active: &mut ActiveRuns) -> (r: Vec<(String, u32)>)
    ensures
        final(active).processes() == Map::<Seq<char>, u32>::empty(),
        final(active).sessions_of() == Map::<Seq<char>, Seq<char>>::empty(),
        forall|k: Seq<char>| #[trigger]
            old(active).processes().contains_key(k) <==> exists|i: int|
                0 <= i < r@.len() && #[trigger] r@[i].0@ == k,
        forall|i: int|
            0 <= i < r@.len() ==> old(active).processes()[(#[trigger] r@[i]).0@] == r@[i].1,
        forall|i: int, j: int|
            0 <= i < j < r@.len() ==> (#[trigger] r@[i]).0@ != (#[trigger] r@[j]).0@,
{
    let entries = list_runs(&active.runs);
    let ghost all = run_entries(active.runs);
    let mut i: usize = 0;
    while i < entries.len()
        invariant
            i <= entries@.len(),
            all == run_entries(old(active).runs),
            forall|k: Seq<char>| #[trigger]
                all.contains_key(k) <==> exists|j: int|
                    0 <= j < entries@.len() && #[trigger] entries@[j].0@ == k,
            forall|k: Seq<char>| #[trigger]
                run_entries(active.runs).contains_key(k) ==> all.contains_key(k) && !exists|
                    j: int,
                |
                    0 <= j < i && #[trigger] entries@[j].0@ == k,
        decreases entries@.len() - i,
    {
        let ghost before = run_entries(active.runs);
        let removed = remove_run(&mut active.runs, entries[i].0.as_str());
        proof {
            let now = run_entries(active.runs);
            assert forall|k: Seq<char>| #[trigger] now.contains_key(k) implies all.contains_key(
                k,
            ) && !exists|j: int| 0 <= j < i + 1 && #[trigger] entries@[j].0@ == k by {
                assert(before.contains_key(k));
                if exists|j: int| 0 <= j < i + 1 && #[trigger] entries@[j].0@ == k {
                    let j = choose|j: int| 0 <= j < i + 1 && #[trigger] entries@[j].0@ == k;
                    assert(j == i);
                    assert(k == entries@[i as int].0@);
                }
            }
        }
        i = i + 1;
    }
    proof {
        assert(run_entries(active.runs) =~= Map::<Seq<char>, u32>::empty()) by {
            assert forall|k: Seq<char>| !(#[trigger] run_entries(active.runs).contains_key(k)) by {
                if run_entries(active.runs).contains_key(k) {
                    let j = choose|j: int|
                        0 <= j < entries@.len() && #[trigger] entries@[j].0@ == k;
                    assert(entries@[j].0@ == k);
                }
            }
        }
    }
    clear_sessions(&mut active.sessions);
    entries
}

/// The run that a request to stop a session is about, or why there is none.
pub open spec fn stop_target(sessions: Map<Seq<char>, Seq<char>>, session_key: Seq<char>) -> Result<
    Seq<char>,
    Seq<char>,
> {
    let key = trimmed(session_key);
    if key.len() == 0 {
        Err("session_key cannot be empty"@)
    } else if sessions.contains_key(key) {
        Ok(sessions[key])
    } else {
        Err("no active external cli run for session '"@ + key + "'"@)
    }
}

/// A run that has ended has no session, and the sessions of other runs stay.
pub proof fn lemma_ended_run_has_no_session(
    m: Map<Seq<char>, Seq<char>>,
    run_id: Seq<char>,
    key: Seq<char>,
)
    ensures
        without_run(m, run_id).contains_key(key) ==> m.contains_key(key) && m[key] != run_id
            && without_run(m, run_id)[key] == m[key],
        m.contains_key(key) && m[key] != run_id ==> without_run(m, run_id).contains_key(key),
{
}

// ---------------------------------------------------------------------------
// Ending processes
// ---------------------------------------------------------------------------

/// What came of a signal.
#[derive(Debug, Clone, Copy, PartialEq, Eq, Structural)]
pub enum ProcessSignalOutcome {
    Signaled,
    NotFound,
}

/// How the system answers a signal.
#[derive(Debug, Clone, Copy, PartialEq, Eq, Structural)]
pub enum SignalReply {
    Delivered,
    NoSuchProcess,
    NotPermitted,
    Failed,
}

/// What to do after a signal to a process group.
#[derive(Debug, Clone, Copy, PartialEq, Eq, Structural)]
pub enum SignalStep {
    Done(ProcessSignalOutcome),
    SignalChild,
    Fail,
}

/// Checks a process before it is ended, and gives the number of its group as
/// the system wants it: negative.
pub fn terminate_process(pid: u32) -> (r: Result<i32, String>)
    ensures
        match r {
            Ok(group) => 0 < pid <= i32::MAX && group == -(pid as int),
            Err(e) => if pid == 0 {
                e@ == "refusing to terminate pid 0"@
            } else {
                pid > i32::MAX && e@ == "pid "@ + decimal(pid as nat)
                    + " is too large to terminate"@
            },
        },
{
    if pid == 0 {
        return Err(owned("refusing to terminate pid 0"));
    }
    if pid > 2147483647u32 {
        let digits = decimal_text(pid as u64);
        return Err(concat3("pid ", digits.as_str(), " is too large to terminate"));
    }
    Ok(0 - (pid as i32))
}

/// Decides after a signal to a process group: a group that may not be signalled
/// is reached through its leader.
pub fn after_group_signal(reply: SignalReply) -> (r: SignalStep)
    ensures
        r == (match reply {
            SignalReply::Delivered => SignalStep::Done(ProcessSignalOutcome::Signaled),
            SignalReply::NoSuchProcess => SignalStep::Done(ProcessSignalOutcome::NotFound),
            SignalReply::NotPermitted => SignalStep::SignalChild,
            SignalReply::Failed => SignalStep::Fail,
        }),
{
    match reply {
        SignalReply::Delivered => SignalStep::Done(ProcessSignalOutcome::Signaled),
        SignalReply::NoSuchProcess => SignalStep::Done(ProcessSignalOutcome::NotFound),
        SignalReply::NotPermitted => SignalStep::SignalChild,
        SignalReply::Failed => SignalStep::Fail,
    }
}

/// Decides after a signal to the leader of a process group.
pub fn after_child_signal(reply: SignalReply) -> (r: SignalStep)
    ensures
        r == (match reply {
            SignalReply::Delivered => SignalStep::Done(ProcessSignalOutcome::Signaled),
            SignalReply::NoSuchProcess => SignalStep::Done(ProcessSignalOutcome::NotFound),
            _ => SignalStep::Fail,
        }),
{
    match reply {
        SignalReply::Delivered => SignalStep::Done(ProcessSignalOutcome::Signaled),
        SignalReply::NoSuchProcess => SignalStep::Done(ProcessSignalOutcome::NotFound),
        _ => SignalStep::Fail,
    }
}

/// Whether a process group that got the first signal is to be killed after a
/// while. One that is gone is not: its number may belong to another one by then.
pub fn needs_force_kill(outcome: ProcessSignalOutcome) -> (r: bool)
    ensures
        r == (outcome == ProcessSignalOutcome::Signaled),
{
    match outcome {
        ProcessSignalOutcome::Signaled => true,
        ProcessSignalOutcome::NotFound => false,
    }
}

} // verus!
