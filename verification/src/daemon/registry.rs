//! The registry of running daemons: entries, identifiers, liveness, the
//! registry lock and process signals.

use vstd::prelude::*;
use crate::paths::with_extension;
use crate::text::{chars_of, decimal, decimal_chars, extend_chars, string_of};

verus! {

/// Role of the daemon (server or client).
#[derive(Clone, Copy, Debug, PartialEq, Eq, Structural)]
pub enum DaemonRole {
    Server,
    Client,
}

/// The name of a role, as it is displayed and stored.
pub open spec fn role_name(r: DaemonRole) -> Seq<char> {
    match r {
        DaemonRole::Server => "server"@,
        DaemonRole::Client => "client"@,
    }
}

impl DaemonRole {
    /// The role's name: `server` or `client`.
    pub fn as_str(&self) -> (r: &'static str)
        ensures
            r@ == role_name(*self),
    {
        match self {
            DaemonRole::Server => "server",
            DaemonRole::Client => "client",
        }
    }
}

/// Information about a registered daemon.
#[derive(Clone, Debug)]
pub struct DaemonInfo {
    pub id: u32,
    pub pid: u32,
    pub role: DaemonRole,
    pub args: Vec<String>,
    /// Unix timestamp
    pub started_at: u64,
    /// Actual port the daemon is listening on (set after binding)
    pub port: Option<u16>,
}

/// The largest identifier in the registry, 0 when it is empty.
pub open spec fn max_id(ds: Seq<DaemonInfo>) -> nat
    decreases ds.len(),
{
    if ds.len() == 0 {
        0
    } else {
        let m = max_id(ds.drop_last());
        if ds.last().id > m {
            ds.last().id as nat
        } else {
            m
        }
    }
}

proof fn lemma_max_id(ds: Seq<DaemonInfo>)
    ensures
        forall|i: int| 0 <= i < ds.len() ==> ds[i].id <= max_id(ds),
        ds.len() == 0 ==> max_id(ds) == 0,
        ds.len() > 0 ==> exists|i: int| 0 <= i < ds.len() && ds[i].id == max_id(ds),
    decreases ds.len(),
{
    if ds.len() > 0 {
        lemma_max_id(ds.drop_last());
        assert forall|i: int| 0 <= i < ds.len() implies ds[i].id <= max_id(ds) by {
            if i < ds.len() - 1 {
                assert(ds[i] == ds.drop_last()[i]);
            }
        }
        if ds.last().id <= max_id(ds.drop_last()) && ds.len() > 1 {
            let j = choose|j: int| 0 <= j < ds.len() - 1 && ds.drop_last()[j].id == max_id(ds.drop_last());
            assert(ds[j] == ds.drop_last()[j]);
        }
        if ds.len() == 1 {
            assert(ds.drop_last().len() == 0);
        }
    }
}

/// The identifier for a new daemon: one more than the largest registered.
pub fn next_daemon_id(daemons: &Vec<DaemonInfo>) -> (r: u32)
    requires
        forall|i: int| 0 <= i < daemons@.len() ==> daemons@[i].id < u32::MAX,
    ensures
        r == max_id(daemons@) + 1,
{
    proof {
        lemma_max_id(daemons@);
    }
    let mut m: u32 = 0;
    let n = daemons.len();
    for i in 0..n
        invariant
            n == daemons@.len(),
            forall|j: int| 0 <= j < daemons@.len() ==> daemons@[j].id < u32::MAX,
            m == max_id(daemons@.take(i as int)),
            m < u32::MAX,
    {
        assert(daemons@.take(i + 1).drop_last() =~= daemons@.take(i as int));
        if daemons[i].id > m {
            m = daemons[i].id;
        }
    }
    assert(daemons@.take(n as int) =~= daemons@);
    m + 1
}

/// A fresh identifier is used by no registered daemon.
pub proof fn lemma_next_id_fresh(daemons: Seq<DaemonInfo>)
    ensures
        forall|i: int| 0 <= i < daemons.len() ==> daemons[i].id != max_id(daemons) + 1,
{
    lemma_max_id(daemons);
}

/// The daemons whose liveness flag is set, in registry order.
pub open spec fn alive_only(ds: Seq<DaemonInfo>, alive: Seq<bool>) -> Seq<DaemonInfo>
    decreases ds.len(),
{
    if ds.len() == 0 || alive.len() == 0 {
        Seq::empty()
    } else {
        let rest = alive_only(ds.drop_last(), alive.drop_last());
        if alive.last() {
            rest.push(ds.last())
        } else {
            rest
        }
    }
}

/// Keeps the daemons that are alive, in order (a listing cleans up the
/// dead ones); `alive[i]` says whether the process of `daemons[i]` runs.
pub fn keep_alive(daemons: Vec<DaemonInfo>, alive: &Vec<bool>) -> (r: Vec<DaemonInfo>)
    requires
        alive@.len() == daemons@.len(),
    ensures
        r@ == alive_only(daemons@, alive@),
{
    let ghost ds = daemons@;
    let mut r: Vec<DaemonInfo> = Vec::new();
    let mut i: usize = 0;
    let n = daemons.len();
    for d in it: daemons
        invariant
            n == ds.len(),
            alive@.len() == n,
            it.seq() == ds,
            i == it.index(),
            r@ == alive_only(ds.take(i as int), alive@.take(i as int)),
    {
        assert(ds.take(i + 1).drop_last() =~= ds.take(i as int));
        assert(alive@.take(i + 1).drop_last() =~= alive@.take(i as int));
        assert(ds.take(i + 1).last() == ds[i as int]);
        if alive[i] {
            r.push(d);
        }
        i = i + 1;
    }
    assert(ds.take(n as int) =~= ds);
    assert(alive@.take(n as int) =~= alive@);
    r
}

/// The registry without the daemons of the given identifier.
pub open spec fn without_id(ds: Seq<DaemonInfo>, id: u32) -> Seq<DaemonInfo> {
    ds.filter(|d: DaemonInfo| d.id != id)
}

/// Unregisters a daemon: removes every entry with its identifier.
pub fn remove_daemon(daemons: &mut Vec<DaemonInfo>, id: u32)
    ensures
        final(daemons)@ == without_id(old(daemons)@, id),
{
    let ghost ds = old(daemons)@;
    let mut kept: Vec<DaemonInfo> = Vec::new();
    let mut taken: Vec<DaemonInfo> = Vec::new();
    core::mem::swap(&mut taken, daemons);
    assert(taken@ == ds);
    let n = taken.len();
    let mut i: usize = 0;
    for d in it: taken
        invariant
            n == ds.len(),
            it.seq() == ds,
            i == it.index(),
            kept@ == ds.take(i as int).filter(|d: DaemonInfo| d.id != id),
    {
        assert(ds.take(i + 1).drop_last() =~= ds.take(i as int));
        assert(ds.take(i + 1).last() == ds[i as int]);
        reveal_with_fuel(Seq::<_>::filter, 1);
        if d.id != id {
            kept.push(d);
        }
        i = i + 1;
    }
    assert(ds.take(n as int) =~= ds);
    *daemons = kept;
}

/// A request to stop a daemon's process.
#[derive(Clone, Copy, Debug, PartialEq, Eq)]
pub struct KillRequest {
    pub pid: u32,
    /// Kill at once (with its children) rather than interrupt.
    pub force: bool,
}

/// The position of the first daemon with the identifier.
pub open spec fn first_with_id(ds: Seq<DaemonInfo>, id: u32, i: int) -> bool {
    &&& 0 <= i < ds.len()
    &&& ds[i].id == id
    &&& forall|j: int| 0 <= j < i ==> ds[j].id != id
}

fn position_of_id(daemons: &Vec<DaemonInfo>, id: u32) -> (r: Option<usize>)
    ensures
        match r {
            Some(i) => first_with_id(daemons@, id, i as int),
            None => forall|j: int| 0 <= j < daemons@.len() ==> daemons@[j].id != id,
        },
{
    let n = daemons.len();
    for i in 0..n
        invariant
            n == daemons@.len(),
            forall|j: int| 0 <= j < i ==> daemons@[j].id != id,
    {
        if daemons[i].id == id {
            return Some(i);
        }
    }
    None
}

/// Which process to signal to shut a daemon down, if it is registered.
pub fn shutdown_request(daemons: &Vec<DaemonInfo>, id: u32, force: bool) -> (r: Option<KillRequest>)
    ensures
        match r {
            Some(k) => exists|i: int| first_with_id(daemons@, id, i) && k == (KillRequest { pid: daemons@[i].pid, force }),
            None => forall|j: int| 0 <= j < daemons@.len() ==> daemons@[j].id != id,
        },
{
    match position_of_id(daemons, id) {
        Some(i) => Some(KillRequest { pid: daemons[i].pid, force }),
        None => None,
    }
}

/// Shuts a daemon down in the registry, given whether its process was
/// signalled: the answer is whether it was, and a signalled daemon leaves the
/// registry; an unknown identifier gives `false` and changes nothing.
pub fn shutdown(daemons: &mut Vec<DaemonInfo>, id: u32, killed: bool) -> (r: bool)
    ensures
        (exists|i: int| first_with_id(old(daemons)@, id, i)) ==> r == killed,
        !(exists|i: int| first_with_id(old(daemons)@, id, i)) ==> !r,
        forall|i: int| first_with_id(old(daemons)@, id, i) ==> final(daemons)@ == (if killed {
            old(daemons)@.remove(i)
        } else {
            old(daemons)@
        }),
        !(exists|i: int| first_with_id(old(daemons)@, id, i)) ==> final(daemons)@ == old(daemons)@,
{
    match position_of_id(daemons, id) {
        Some(pos) => {
            proof {
                assert forall|i: int| first_with_id(old(daemons)@, id, i) implies i == pos by {
                    if i < pos {
                    } else if i > pos {
                    }
                }
            }
            if killed {
                daemons.remove(pos);
            }
            killed
        },
        None => {
            assert(!exists|i: int| first_with_id(old(daemons)@, id, i));
            false
        },
    }
}

/// With distinct identifiers, a daemon that was signalled is no longer
/// registered after the shutdown.
pub proof fn lemma_shutdown_unregisters(ds: Seq<DaemonInfo>, id: u32, i: int)
    requires
        first_with_id(ds, id, i),
        forall|a: int, b: int| 0 <= a < ds.len() && 0 <= b < ds.len() && a != b ==> ds[a].id != ds[b].id,
    ensures
        forall|j: int| 0 <= j < ds.remove(i).len() ==> ds.remove(i)[j].id != id,
{
    assert forall|j: int| 0 <= j < ds.remove(i).len() implies ds.remove(i)[j].id != id by {
        if j < i {
            assert(ds.remove(i)[j] == ds[j]);
        } else {
            assert(ds.remove(i)[j] == ds[j + 1]);
        }
    }
}

/// The lock file of a registry file: the registry path with its extension
/// replaced by `lock`.
pub fn lock_path(registry_path: &str) -> (r: String)
    ensures
        r@ == with_extension(registry_path@, "lock"@),
{
    crate::paths::lock_path(registry_path)
}

/// What trying to create the lock file gave.
#[derive(Clone, Copy, Debug, PartialEq, Eq)]
pub enum LockAttempt {
    /// The lock file was created: the lock is ours.
    Created,
    /// The lock file exists already.
    AlreadyExists,
    /// Creating it failed otherwise.
    Failed,
}

/// What to do next while acquiring the registry lock.
#[derive(Clone, Copy, Debug, PartialEq, Eq)]
pub enum LockDecision {
    /// The lock is held.
    Acquired,
    /// The lock file is stale: remove it and try again.
    RemoveStale,
    /// Give up: waited too long for the lock.
    TimedOut,
    /// Sleep a little and try again.
    Wait,
    /// Give up with the creation error.
    Fail,
}

/// A lock older than this (30 s) is stale.
pub const STALE_LOCK_NANOS: u128 = 30_000_000_000;

/// Waiting for the lock gives up after this long (5 s).
pub const LOCK_TIMEOUT_NANOS: u128 = 5_000_000_000;

/// Decides a step of acquiring the registry lock, given what creating the
/// lock file gave, the lock file's age if it could be read, and how long we
/// have waited.
pub fn lock_decision(attempt: LockAttempt, lock_age_nanos: Option<u128>, waited_nanos: u128) -> (r: LockDecision)
    ensures
        attempt == LockAttempt::Created ==> r == LockDecision::Acquired,
        attempt == LockAttempt::Failed ==> r == LockDecision::Fail,
        attempt == LockAttempt::AlreadyExists ==> r == (if lock_age_nanos matches Some(a) && a > STALE_LOCK_NANOS {
            LockDecision::RemoveStale
        } else if waited_nanos > LOCK_TIMEOUT_NANOS {
            LockDecision::TimedOut
        } else {
            LockDecision::Wait
        }),
{
    match attempt {
        LockAttempt::Created => LockDecision::Acquired,
        LockAttempt::Failed => LockDecision::Fail,
        LockAttempt::AlreadyExists => {
            if let Some(a) = lock_age_nanos {
                if a > STALE_LOCK_NANOS {
                    return LockDecision::RemoveStale;
                }
            }
            if waited_nanos > LOCK_TIMEOUT_NANOS {
                LockDecision::TimedOut
            } else {
                LockDecision::Wait
            }
        },
    }
}

/// Whether a signal reached its process, or the process is gone already:
/// the call returned 0, or failed with "no such process".
pub fn signal_delivered(result: i32, errno: Option<i32>, no_such_process: i32) -> (r: bool)
    ensures
        r == (result == 0 || errno == Some(no_such_process)),
{
    result == 0 || match errno {
        Some(e) => e == no_such_process,
        None => false,
    }
}

/// The processes whose parent is `pid`, from (pid, parent) pairs.
pub fn children_of(processes: &Vec<(u32, Option<u32>)>, pid: u32) -> (r: Vec<u32>)
    ensures
        r@ == processes@.filter(|p: (u32, Option<u32>)| p.1 == Some(pid)).map_values(|p: (u32, Option<u32>)| p.0),
{
    let ghost ps = processes@;
    let ghost pred = |p: (u32, Option<u32>)| p.1 == Some(pid);
    let ghost f = |p: (u32, Option<u32>)| p.0;
    let mut r: Vec<u32> = Vec::new();
    let n = processes.len();
    for i in 0..n
        invariant
            n == ps.len(),
            ps == processes@,
            pred == (|p: (u32, Option<u32>)| p.1 == Some(pid)),
            f == (|p: (u32, Option<u32>)| p.0),
            r@ == ps.take(i as int).filter(pred).map_values(f),
    {
        assert(ps.take(i + 1).drop_last() =~= ps.take(i as int));
        assert(ps.take(i + 1).last() == ps[i as int]);
        reveal_with_fuel(Seq::<_>::filter, 1);
        let (child, parent) = processes[i];
        let is_child = match parent {
            Some(p) => p == pid,
            None => false,
        };
        if is_child {
            let ghost before = r@;
            r.push(child);
            assert(ps.take(i + 1).filter(pred) == ps.take(i as int).filter(pred).push(ps[i as int]));
            assert(r@ =~= ps.take(i + 1).filter(pred).map_values(f));
        } else {
            assert(ps.take(i + 1).filter(pred) == ps.take(i as int).filter(pred));
        }
    }
    assert(ps.take(n as int) =~= ps);
    r
}

/// `s` followed by spaces up to `width` characters; longer text is kept whole.
pub open spec fn pad_right(s: Seq<char>, width: nat) -> Seq<char> {
    if s.len() >= width {
        s
    } else {
        s + Seq::new((width - s.len()) as nat, |i: int| ' ')
    }
}

/// A line of the daemon listing: the first column padded to 4 characters,
/// the second to 8, each followed by a space, then the rest.
pub open spec fn listing_text(first: Seq<char>, second: Seq<char>, rest: Seq<char>) -> Seq<char> {
    pad_right(first, 4) + " "@ + pad_right(second, 8) + " "@ + rest
}

/// Words joined with single spaces.
pub open spec fn join_spaced(words: Seq<Seq<char>>) -> Seq<char>
    decreases words.len(),
{
    if words.len() == 0 {
        Seq::empty()
    } else if words.len() == 1 {
        words[0]
    } else {
        join_spaced(words.drop_last()) + " "@ + words.last()
    }
}

/// The listing line of a daemon: its ID, its PID and its arguments.
pub open spec fn listing_row(d: DaemonInfo) -> Seq<char> {
    listing_text(decimal(d.id as nat), decimal(d.pid as nat), join_spaced(d.args@.map_values(|a: String| a@)))
}

fn pad_right_chars(v: &mut Vec<char>, width: usize)
    ensures
        final(v)@ == pad_right(old(v)@, width as nat),
{
    let ghost start = v@;
    if v.len() >= width {
        return;
    }
    let n = v.len();
    while v.len() < width
        invariant
            n == start.len(),
            n < width,
            n <= v@.len() <= width,
            v@ == start + Seq::new((v@.len() - n) as nat, |i: int| ' '),
        decreases width - v@.len(),
    {
        let ghost before = v@;
        v.push(' ');
        assert(v@ =~= start + Seq::new((v@.len() - n) as nat, |i: int| ' '));
    }
}

/// Formats a line of the daemon listing.
pub fn listing_line(first: &str, second: &str, rest: &str) -> (r: String)
    ensures
        r@ == listing_text(first@, second@, rest@),
{
    proof {
        reveal_strlit(" ");
    }
    let mut v = chars_of(first);
    pad_right_chars(&mut v, 4);
    v.push(' ');
    let mut w = chars_of(second);
    pad_right_chars(&mut w, 8);
    extend_chars(&mut v, w.as_slice());
    v.push(' ');
    extend_chars(&mut v, chars_of(rest).as_slice());
    assert(v@ =~= listing_text(first@, second@, rest@));
    string_of(v.as_slice())
}

/// Joins words with single spaces.
pub fn join_with_spaces(words: &Vec<String>) -> (r: String)
    ensures
        r@ == join_spaced(words@.map_values(|a: String| a@)),
{
    let ghost ws = words@.map_values(|a: String| a@);
    let mut v: Vec<char> = Vec::new();
    let n = words.len();
    for i in 0..n
        invariant
            n == words@.len(),
            ws == words@.map_values(|a: String| a@),
            v@ == join_spaced(ws.take(i as int)),
    {
        assert(ws.take(i + 1).drop_last() =~= ws.take(i as int));
        assert(ws.take(i + 1).last() == words@[i as int]@);
        let ghost before = v@;
        if i > 0 {
            v.push(' ');
        }
        extend_chars(&mut v, chars_of(words[i].as_str()).as_slice());
        assert(i > 0 ==> v@ =~= before + seq![' '] + ws[i as int]);
        proof {
            if i == 0 {
                assert(ws.take(0) =~= Seq::<Seq<char>>::empty());
                assert(v@ =~= ws.take(1)[0]);
            } else {
                reveal_strlit(" ");
                assert(v@ =~= join_spaced(ws.take(i as int)) + " "@ + ws[i as int]);
            }
        }
    }
    assert(ws.take(n as int) =~= ws);
    string_of(v.as_slice())
}

/// The listing line of a daemon.
pub fn listing_row_text(d: &DaemonInfo) -> (r: String)
    ensures
        r@ == listing_row(*d),
{
    let id = string_of(decimal_chars(d.id as u64).as_slice());
    let pid = string_of(decimal_chars(d.pid as u64).as_slice());
    let args = join_with_spaces(&d.args);
    listing_line(id.as_str(), pid.as_str(), args.as_str())
}

} // verus!
