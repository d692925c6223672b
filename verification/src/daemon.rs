//! The daemon state machine: interval parsing, and the pure decisions
//! behind starting, stopping and inspecting the single-instance cycling
//! daemon.
//!
//! The PID file is the daemon's only cross-process record. The
//! surrounding application reads the file, probes the recorded process,
//! and hands the combined observation in as a [`PidLock`]; the functions
//! here decide what follows from it. Writing and removing the file,
//! sending the signal and running the sleep/apply loop stay outside.

use vstd::prelude::*;
use crate::collection::{Collection, CycleOrder};
use crate::digits::{all_digits, lemma_num_nonneg, parse_digits, spec_num};

verus! {

/// What one observation of the PID file and a liveness probe showed:
/// no file, an unreadable number, or a recorded process together with
/// whether it is alive.
#[derive(Debug, Clone, Copy, PartialEq, Eq, Structural)]
pub enum PidLock {
    Absent,
    Corrupt,
    Held { pid: i32, alive: bool },
}

/// Whether the lock names a live process.
pub open spec fn spec_lock_live(lock: PidLock) -> bool {
    match lock {
        PidLock::Held { pid: _, alive } => alive,
        _ => false,
    }
}

/// Whether the lock is stale: a recorded process that is no longer alive.
pub open spec fn spec_lock_stale(lock: PidLock) -> bool {
    match lock {
        PidLock::Held { pid: _, alive } => !alive,
        _ => false,
    }
}

/// The recorded process id, where there is one.
pub open spec fn spec_lock_pid(lock: PidLock) -> int {
    match lock {
        PidLock::Held { pid, alive: _ } => pid as int,
        _ => 0,
    }
}

/// Why the daemon could not start, stop or report.
#[derive(Debug)]
pub enum DaemonError {
    /// A live daemon already holds the PID file.
    AlreadyRunning { pid: i32 },
    /// The PID file exists but does not hold a process id.
    CorruptPidFile,
    /// No collection is configured as active.
    NoActiveCollection,
    /// The active collection has no rotation interval set.
    MissingInterval,
    /// The rotation interval does not parse; the message says why.
    InvalidInterval { message: String },
    /// The active collection has no themes.
    EmptyCollection,
    /// No daemon is running.
    NotRunning,
    /// The recorded daemon is dead; its stale PID file should be removed.
    StaleLock { pid: i32 },
}

/// The multiplier of an interval suffix: seconds, minutes or hours.
pub open spec fn spec_interval_mult(c: char) -> int {
    if c == 's' {
        1
    } else if c == 'm' {
        60
    } else {
        3600
    }
}

/// Whether `s` ends in one of the three interval suffixes.
pub open spec fn spec_interval_suffix_ok(s: Seq<char>) -> bool {
    s.len() >= 1 && (s.last() == 's' || s.last() == 'm' || s.last() == 'h')
}

/// Whether `s` is a well-formed, usable interval: a nonempty digit run,
/// naming a positive count whose seconds fit a machine word, followed by
/// `s`, `m` or `h`.
pub open spec fn spec_interval_ok(s: Seq<char>) -> bool {
    &&& spec_interval_suffix_ok(s)
    &&& s.len() >= 2
    &&& all_digits(s.drop_last())
    &&& spec_num(s.drop_last()) >= 1
    &&& spec_num(s.drop_last()) * spec_interval_mult(s.last()) <= u64::MAX
}

/// The seconds a well-formed interval names.
pub open spec fn spec_interval_secs(s: Seq<char>) -> int {
    spec_num(s.drop_last()) * spec_interval_mult(s.last())
}

/// The error text for an interval that does not parse: empty input, a
/// missing suffix, an unusable number, and a zero interval each have
/// their own message.
pub open spec fn spec_interval_err(s: Seq<char>) -> Seq<char> {
    if s.len() == 0 {
        "Interval string is empty"@
    } else if !spec_interval_suffix_ok(s) {
        "Invalid interval '"@ + s + "': must end with 's', 'm', or 'h'"@
    } else if !(s.len() >= 2 && all_digits(s.drop_last())) || spec_num(s.drop_last()) > u64::MAX
        || spec_num(s.drop_last()) * spec_interval_mult(s.last()) > u64::MAX {
        "Invalid interval '"@ + s + "': could not parse number"@
    } else {
        "Interval must be greater than zero"@
    }
}

/// Parse an interval string like `30m`, `1h` or `90s` into seconds: a
/// positive integer immediately followed by `s`, `m` or `h`. A count
/// whose seconds exceed the machine word is rejected as unparsable.
pub fn parse_interval(s: &str) -> (r: Result<u64, String>)
    ensures
        r is Ok <==> spec_interval_ok(s@),
        r matches Ok(v) ==> v == spec_interval_secs(s@),
        r matches Err(e) ==> e@ == spec_interval_err(s@),
{
    proof {
        reveal_strlit("Invalid interval '");
        reveal_strlit("': must end with 's', 'm', or 'h'");
        reveal_strlit("': could not parse number");
    }
    let n = s.unicode_len();
    if n == 0 {
        return Err(String::from_str("Interval string is empty"));
    }
    let last = s.get_char(n - 1);
    let mult: u64 = if last == 's' {
        1
    } else if last == 'm' {
        60
    } else if last == 'h' {
        3600
    } else {
        let mut msg = String::from_str("Invalid interval '");
        msg.append(s);
        msg.append("': must end with 's', 'm', or 'h'");
        assert(msg@ =~= "Invalid interval '"@ + s@ + "': must end with 's', 'm', or 'h'"@);
        return Err(msg);
    };
    let ghost body = s@.drop_last();
    assert(body =~= s@.subrange(0, n as int - 1));
    let digits = parse_digits(s, 0, n - 1);
    let (value, over) = match digits {
        Some(p) => p,
        None => {
            let mut msg = String::from_str("Invalid interval '");
            msg.append(s);
            msg.append("': could not parse number");
            assert(msg@ =~= "Invalid interval '"@ + s@ + "': could not parse number"@);
            return Err(msg);
        },
    };
    proof {
        lemma_num_nonneg(body);
    }
    if over {
        let mut msg = String::from_str("Invalid interval '");
        msg.append(s);
        msg.append("': could not parse number");
        assert(msg@ =~= "Invalid interval '"@ + s@ + "': could not parse number"@);
        return Err(msg);
    }
    if value == 0 {
        return Err(String::from_str("Interval must be greater than zero"));
    }
    if value > u64::MAX / mult {
        proof {
            assert(spec_num(body) * spec_interval_mult(s@.last()) > u64::MAX) by (nonlinear_arith)
                requires
                    spec_num(body) > u64::MAX as int / spec_interval_mult(s@.last()),
                    spec_interval_mult(s@.last()) >= 1,
            ;
        }
        let mut msg = String::from_str("Invalid interval '");
        msg.append(s);
        msg.append("': could not parse number");
        assert(msg@ =~= "Invalid interval '"@ + s@ + "': could not parse number"@);
        return Err(msg);
    }
    proof {
        assert(spec_num(body) * spec_interval_mult(s@.last()) <= u64::MAX) by (nonlinear_arith)
            requires
                0 <= spec_num(body) <= u64::MAX as int / spec_interval_mult(s@.last()),
                spec_interval_mult(s@.last()) >= 1,
        ;
    }
    Ok(value * mult)
}

/// What a permitted start must do before entering the loop: clear a stale
/// PID file or not, and sleep this many seconds per cycle.
#[derive(Debug, Clone, Copy, PartialEq, Eq, Structural)]
pub struct StartPlan {
    pub remove_stale: bool,
    pub interval_secs: u64,
}

/// Decide whether the daemon may start, from one observation of the PID
/// file and the active collection (if any is configured and loadable).
///
/// A live holder or an unreadable PID file blocks the start; a stale
/// holder is cleared. Starting further requires an active collection
/// with a parsable interval and at least one theme.
pub fn plan_start(lock: &PidLock, collection: Option<&Collection>) -> (r: Result<
    StartPlan,
    DaemonError,
>)
    ensures
        r is Ok <==> (!(*lock is Corrupt) && !spec_lock_live(*lock) && (collection matches Some(c)
            && c.interval matches Some(iv) && spec_interval_ok(iv@) && c.themes@.len() > 0)),
        r matches Ok(p) ==> (p.remove_stale == spec_lock_stale(*lock) && (collection matches Some(
            c,
        ) && c.interval matches Some(iv) && p.interval_secs == spec_interval_secs(iv@))),
        lock is Corrupt ==> (r matches Err(e) && e is CorruptPidFile),
        spec_lock_live(*lock) ==> (r matches Err(e) && e matches DaemonError::AlreadyRunning {
            pid,
        } && pid == spec_lock_pid(*lock)),
        !(*lock is Corrupt) && !spec_lock_live(*lock) && collection is None ==> (r matches Err(e)
            && e is NoActiveCollection),
        !(*lock is Corrupt) && !spec_lock_live(*lock) && (collection matches Some(c)
            && c.interval is None) ==> (r matches Err(e) && e is MissingInterval),
        !(*lock is Corrupt) && !spec_lock_live(*lock) && (collection matches Some(c)
            && c.interval matches Some(iv) && !spec_interval_ok(iv@)) ==> (r matches Err(e)
            && e matches DaemonError::InvalidInterval { message } && message@
            == spec_interval_err(collection->0.interval->0@)),
        !(*lock is Corrupt) && !spec_lock_live(*lock) && (collection matches Some(c)
            && c.interval matches Some(iv) && spec_interval_ok(iv@) && c.themes@.len() == 0) ==> (
        r matches Err(e) && e is EmptyCollection),
{
    let remove_stale = match lock {
        PidLock::Corrupt => {
            return Err(DaemonError::CorruptPidFile);
        },
        PidLock::Held { pid, alive } => {
            if *alive {
                return Err(DaemonError::AlreadyRunning { pid: *pid });
            }
            true
        },
        PidLock::Absent => false,
    };
    let coll = match collection {
        Some(c) => c,
        None => {
            return Err(DaemonError::NoActiveCollection);
        },
    };
    let interval = match &coll.interval {
        Some(iv) => iv,
        None => {
            return Err(DaemonError::MissingInterval);
        },
    };
    let interval_secs = match parse_interval(interval.as_str()) {
        Ok(v) => v,
        Err(message) => {
            return Err(DaemonError::InvalidInterval { message });
        },
    };
    if coll.themes.len() == 0 {
        return Err(DaemonError::EmptyCollection);
    }
    Ok(StartPlan { remove_stale, interval_secs })
}

/// Decide what a stop request does, from one observation of the PID file:
/// signal the live holder, report that nothing runs, or have a stale or
/// unreadable file cleaned up.
pub fn plan_stop(lock: &PidLock) -> (r: Result<i32, DaemonError>)
    ensures
        r is Ok <==> spec_lock_live(*lock),
        r matches Ok(pid) ==> pid == spec_lock_pid(*lock),
        lock is Absent ==> (r matches Err(e) && e is NotRunning),
        lock is Corrupt ==> (r matches Err(e) && e is CorruptPidFile),
        spec_lock_stale(*lock) ==> (r matches Err(e) && e matches DaemonError::StaleLock { pid }
            && pid == spec_lock_pid(*lock)),
{
    match lock {
        PidLock::Absent => Err(DaemonError::NotRunning),
        PidLock::Corrupt => Err(DaemonError::CorruptPidFile),
        PidLock::Held { pid, alive } => {
            if *alive {
                Ok(*pid)
            } else {
                Err(DaemonError::StaleLock { pid: *pid })
            }
        },
    }
}

/// The daemon's liveness as a status report tells it.
#[derive(Debug, Clone, Copy, PartialEq, Eq, Structural)]
pub enum DaemonLiveness {
    Running { pid: i32 },
    Stale { pid: i32 },
    NotRunning,
}

/// Classify one observation of the PID file for a status report. An
/// unreadable file is the one error.
pub fn daemon_status(lock: &PidLock) -> (r: Result<DaemonLiveness, DaemonError>)
    ensures
        r is Ok <==> !(*lock is Corrupt),
        lock is Corrupt ==> (r matches Err(e) && e is CorruptPidFile),
        lock is Absent ==> (r matches Ok(l) && l is NotRunning),
        spec_lock_live(*lock) ==> (r matches Ok(l) && l matches DaemonLiveness::Running { pid }
            && pid == spec_lock_pid(*lock)),
        spec_lock_stale(*lock) ==> (r matches Ok(l) && l matches DaemonLiveness::Stale { pid }
            && pid == spec_lock_pid(*lock)),
{
    match lock {
        PidLock::Absent => Ok(DaemonLiveness::NotRunning),
        PidLock::Corrupt => Err(DaemonError::CorruptPidFile),
        PidLock::Held { pid, alive } => {
            if *alive {
                Ok(DaemonLiveness::Running { pid: *pid })
            } else {
                Ok(DaemonLiveness::Stale { pid: *pid })
            }
        },
    }
}

/// The read-only summary of the active collection that a status report
/// shows.
#[derive(Debug, Clone)]
pub struct CollectionStatus {
    pub theme_count: usize,
    pub order: CycleOrder,
    pub interval: Option<String>,
    pub current_title: Option<String>,
}

/// Summarize a collection for a status report: theme count, order,
/// interval, and the title at the stored index, clamped to the last theme
/// and absent when the collection is empty. Purely read-only.
pub fn collection_status(coll: &Collection) -> (r: CollectionStatus)
    ensures
        r.theme_count == coll.themes@.len(),
        r.order == coll.order,
        r.interval matches Some(iv) <==> coll.interval is Some,
        coll.interval matches Some(civ) ==> (r.interval matches Some(iv) && iv@ == civ@),
        coll.themes@.len() == 0 <==> r.current_title is None,
        coll.themes@.len() > 0 ==> (r.current_title matches Some(t) && t@ == coll.themes@[
            if coll.current_index < coll.themes@.len() {
                coll.current_index as int
            } else {
                coll.themes@.len() - 1
            }
        ].title@),
{
    let count = coll.themes.len();
    let current_title = if count == 0 {
        None
    } else {
        let idx = if coll.current_index < count {
            coll.current_index
        } else {
            count - 1
        };
        Some(coll.themes[idx].title.clone())
    };
    let interval = match &coll.interval {
        Some(iv) => Some(iv.clone()),
        None => None,
    };
    CollectionStatus { theme_count: count, order: coll.order, interval, current_title }
}

} // verus!
