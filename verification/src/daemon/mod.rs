//! Daemon mode: command lines of daemon workers, restarts with exponential
//! backoff, and readiness.

pub mod registry;
pub mod server_only;

use vstd::prelude::*;
use crate::text::{contains, chars_of, contains_chars, decimal, decimal_string, join3, starts_with, starts_with_chars};
use registry::DaemonRole;

verus! {

/// A daemon to start: its role and the worker's command-line arguments.
#[derive(Clone, Debug)]
pub struct DaemonLaunch {
    pub role: DaemonRole,
    pub args: Vec<String>,
}

/// The view of a list of strings.
pub open spec fn strings_view(v: Seq<String>) -> Seq<Seq<char>> {
    v.map_values(|s: String| s@)
}

/// `flag value` for each value, in order.
pub open spec fn flag_pairs(flag: Seq<char>, values: Seq<Seq<char>>) -> Seq<Seq<char>>
    decreases values.len(),
{
    if values.len() == 0 {
        Seq::empty()
    } else {
        flag_pairs(flag, values.drop_last()) + seq![flag, values.last()]
    }
}

/// `flag value` if there is a value.
pub open spec fn opt_flag(flag: Seq<char>, value: Option<Seq<char>>) -> Seq<Seq<char>> {
    match value {
        Some(v) => seq![flag, v],
        None => Seq::empty(),
    }
}

/// `flag` if it is set.
pub open spec fn bool_flag(flag: Seq<char>, set: bool) -> Seq<Seq<char>> {
    if set {
        seq![flag]
    } else {
        Seq::empty()
    }
}

/// The worker arguments of a server daemon: with a configuration file, only
/// `--config`; else the listen address, routes, default target and TLS
/// options that are given.
pub open spec fn server_args(
    config: Option<Seq<char>>,
    listen: Option<Seq<char>>,
    route: Seq<Seq<char>>,
    default_target: Option<Seq<char>>,
    tls_cert: Option<Seq<char>>,
    tls_key: Option<Seq<char>>,
    tls_self_signed: bool,
) -> Seq<Seq<char>> {
    seq!["server"@] + match config {
        Some(c) => seq!["--config"@, c],
        None => opt_flag("--listen"@, listen) + flag_pairs("--route"@, route) + opt_flag(
            "--default-target"@,
            default_target,
        ) + opt_flag("--tls-cert"@, tls_cert) + opt_flag("--tls-key"@, tls_key) + bool_flag(
            "--tls-self-signed"@,
            tls_self_signed,
        ),
    }
}

/// The worker arguments of a client daemon.
pub open spec fn client_args(listen: Seq<char>, server: Seq<char>, insecure: bool, tls_ca_cert: Option<Seq<char>>) -> Seq<Seq<char>> {
    seq!["client"@, "--listen"@, listen, "--server"@, server] + bool_flag("--insecure"@, insecure) + opt_flag(
        "--tls-ca-cert"@,
        tls_ca_cert,
    )
}

fn push_str(v: &mut Vec<String>, s: &str)
    ensures
        strings_view(final(v)@) == strings_view(old(v)@).push(s@),
{
    let ghost before = strings_view(v@);
    v.push(s.to_owned());
    assert(strings_view(v@) =~= before.push(s@));
}

fn push_opt_flag(v: &mut Vec<String>, flag: &str, value: &Option<String>)
    ensures
        strings_view(final(v)@) == strings_view(old(v)@) + opt_flag(flag@, crate::config::opt_str(*value)),
{
    match value {
        Some(x) => {
            push_str(v, flag);
            push_str(v, x.as_str());
        },
        None => {},
    }
    assert(strings_view(v@) =~= strings_view(old(v)@) + opt_flag(flag@, crate::config::opt_str(*value)));
}

fn push_flag_pairs(v: &mut Vec<String>, flag: &str, values: &Vec<String>)
    ensures
        strings_view(final(v)@) == strings_view(old(v)@) + flag_pairs(flag@, strings_view(values@)),
{
    let ghost vals = strings_view(values@);
    let n = values.len();
    for i in 0..n
        invariant
            n == values@.len(),
            vals == strings_view(values@),
            strings_view(v@) == strings_view(old(v)@) + flag_pairs(flag@, vals.take(i as int)),
    {
        assert(vals.take(i + 1).drop_last() =~= vals.take(i as int));
        assert(vals.take(i + 1).last() == values@[i as int]@);
        push_str(v, flag);
        push_str(v, values[i].as_str());
        assert(strings_view(v@) =~= strings_view(old(v)@) + flag_pairs(flag@, vals.take(i + 1)));
    }
    assert(vals.take(n as int) =~= vals);
}

/// `flag value` for each value: two arguments per value.
pub proof fn lemma_flag_pairs_len(flag: Seq<char>, values: Seq<Seq<char>>)
    ensures
        flag_pairs(flag, values).len() == 2 * values.len(),
    decreases values.len(),
{
    if values.len() > 0 {
        lemma_flag_pairs_len(flag, values.drop_last());
    }
}

/// The number of arguments a server worker gets without a configuration
/// file and without `--tls-self-signed`: `server`, then two for each option
/// given and for each route.
pub open spec fn server_base_len(
    listen: Option<Seq<char>>,
    route: Seq<Seq<char>>,
    default_target: Option<Seq<char>>,
    tls_cert: Option<Seq<char>>,
    tls_key: Option<Seq<char>>,
) -> int {
    1 + (if listen is Some { 2int } else { 0int }) + 2 * route.len() + (if default_target is Some { 2int } else { 0int })
        + (if tls_cert is Some { 2int } else { 0int }) + (if tls_key is Some { 2int } else { 0int })
}

/// A server worker gets `--tls-self-signed` exactly when it is asked for:
/// without a configuration file, asking for it adds that one argument at the
/// end of what the worker gets otherwise, and the worker gets `server` plus
/// two arguments for each option given and for each route; with a
/// configuration file the worker gets `server --config <file>` alone.
pub proof fn lemma_server_args(
    listen: Option<Seq<char>>,
    route: Seq<Seq<char>>,
    default_target: Option<Seq<char>>,
    tls_cert: Option<Seq<char>>,
    tls_key: Option<Seq<char>>,
    tls_self_signed: bool,
)
    ensures
        server_args(None, listen, route, default_target, tls_cert, tls_key, true) == server_args(
            None,
            listen,
            route,
            default_target,
            tls_cert,
            tls_key,
            false,
        ).push("--tls-self-signed"@),
        server_args(None, listen, route, default_target, tls_cert, tls_key, false).len() == server_base_len(
            listen,
            route,
            default_target,
            tls_cert,
            tls_key,
        ),
        forall|f: Seq<char>|
            #[trigger] server_args(Some(f), listen, route, default_target, tls_cert, tls_key, tls_self_signed)
                == seq!["server"@, "--config"@, f],
{
    lemma_flag_pairs_len("--route"@, route);
    let off = server_args(None, listen, route, default_target, tls_cert, tls_key, false);
    let on = server_args(None, listen, route, default_target, tls_cert, tls_key, true);
    assert(on =~= off.push("--tls-self-signed"@));
    assert forall|f: Seq<char>|
        #[trigger] server_args(Some(f), listen, route, default_target, tls_cert, tls_key, tls_self_signed)
            == seq!["server"@, "--config"@, f] by {
        assert(server_args(Some(f), listen, route, default_target, tls_cert, tls_key, tls_self_signed) =~= seq![
            "server"@,
            "--config"@,
            f,
        ]);
    }
}

/// Prepares a server daemon: its worker runs `server` with these options.
pub fn spawn_server(
    config: Option<String>,
    listen: Option<String>,
    route: Vec<String>,
    default_target: Option<String>,
    tls_cert: Option<String>,
    tls_key: Option<String>,
    tls_self_signed: bool,
) -> (r: DaemonLaunch)
    ensures
        r.role == DaemonRole::Server,
        strings_view(r.args@) == server_args(
            crate::config::opt_str(config),
            crate::config::opt_str(listen),
            strings_view(route@),
            crate::config::opt_str(default_target),
            crate::config::opt_str(tls_cert),
            crate::config::opt_str(tls_key),
            tls_self_signed,
        ),
        config is None ==> r.args@.len() == server_base_len(
            crate::config::opt_str(listen),
            strings_view(route@),
            crate::config::opt_str(default_target),
            crate::config::opt_str(tls_cert),
            crate::config::opt_str(tls_key),
        ) + (if tls_self_signed { 1int } else { 0int }),
        config is None && tls_self_signed ==> r.args@.last()@ == "--tls-self-signed"@,
        config is Some ==> r.args@.len() == 3,
{
    proof {
        lemma_server_args(
            crate::config::opt_str(listen),
            strings_view(route@),
            crate::config::opt_str(default_target),
            crate::config::opt_str(tls_cert),
            crate::config::opt_str(tls_key),
            tls_self_signed,
        );
    }
    let mut args: Vec<String> = Vec::new();
    push_str(&mut args, "server");
    match &config {
        Some(c) => {
            push_str(&mut args, "--config");
            push_str(&mut args, c.as_str());
        },
        None => {
            push_opt_flag(&mut args, "--listen", &listen);
            push_flag_pairs(&mut args, "--route", &route);
            push_opt_flag(&mut args, "--default-target", &default_target);
            push_opt_flag(&mut args, "--tls-cert", &tls_cert);
            push_opt_flag(&mut args, "--tls-key", &tls_key);
            if tls_self_signed {
                push_str(&mut args, "--tls-self-signed");
            }
        },
    }
    assert(strings_view(args@) =~= server_args(
        crate::config::opt_str(config),
        crate::config::opt_str(listen),
        strings_view(route@),
        crate::config::opt_str(default_target),
        crate::config::opt_str(tls_cert),
        crate::config::opt_str(tls_key),
        tls_self_signed,
    ));
    proof {
        if config is None && tls_self_signed {
            let v = strings_view(args@);
            assert(v.len() == args@.len());
            assert(v[v.len() - 1] == args@[args@.len() - 1]@);
        }
    }
    DaemonLaunch { role: DaemonRole::Server, args }
}

/// Prepares a client daemon: its worker runs `client` with these options.
pub fn spawn_client(listen: String, server: String, insecure: bool, tls_ca_cert: Option<String>) -> (r: DaemonLaunch)
    ensures
        r.role == DaemonRole::Client,
        strings_view(r.args@) == client_args(listen@, server@, insecure, crate::config::opt_str(tls_ca_cert)),
{
    let mut args: Vec<String> = Vec::new();
    push_str(&mut args, "client");
    push_str(&mut args, "--listen");
    push_str(&mut args, listen.as_str());
    push_str(&mut args, "--server");
    push_str(&mut args, server.as_str());
    if insecure {
        push_str(&mut args, "--insecure");
    }
    push_opt_flag(&mut args, "--tls-ca-cert", &tls_ca_cert);
    assert(strings_view(args@) =~= client_args(listen@, server@, insecure, crate::config::opt_str(tls_ca_cert)));
    DaemonLaunch { role: DaemonRole::Client, args }
}

/// The arguments of the daemon process that supervises a launch: `daemon`
/// followed by the worker's arguments.
pub fn daemon_arguments(launch: &DaemonLaunch) -> (r: Vec<String>)
    ensures
        strings_view(r@) == seq!["daemon"@] + strings_view(launch.args@),
{
    let mut r: Vec<String> = Vec::new();
    push_str(&mut r, "daemon");
    let n = launch.args.len();
    for i in 0..n
        invariant
            n == launch.args@.len(),
            strings_view(r@) == seq!["daemon"@] + strings_view(launch.args@).take(i as int),
    {
        push_str(&mut r, launch.args[i].as_str());
        assert(strings_view(launch.args@).take(i + 1) =~= strings_view(launch.args@).take(i as int).push(
            launch.args@[i as int]@,
        ));
        assert(strings_view(r@) =~= seq!["daemon"@] + strings_view(launch.args@).take(i + 1));
    }
    assert(strings_view(launch.args@).take(n as int) =~= strings_view(launch.args@));
    r
}

/// The command line of the worker that a daemon restarts: its own command
/// line without the first `daemon` argument.
pub open spec fn worker_command(args: Seq<Seq<char>>) -> Seq<Seq<char>>
    decreases args.len(),
{
    if args.len() == 0 {
        Seq::empty()
    } else if args[0] == "daemon"@ {
        args.drop_first()
    } else {
        seq![args[0]] + worker_command(args.drop_first())
    }
}

proof fn lemma_worker_command_prefix(args: Seq<Seq<char>>, i: int)
    requires
        0 <= i <= args.len(),
        forall|j: int| 0 <= j < i ==> args[j] != "daemon"@,
    ensures
        worker_command(args) == args.take(i) + worker_command(args.skip(i)),
    decreases i,
{
    if i > 0 {
        lemma_worker_command_prefix(args.drop_first(), i - 1);
        assert(args.drop_first().take(i - 1) =~= args.take(i).drop_first());
        assert(args.drop_first().skip(i - 1) =~= args.skip(i));
        assert(args.take(i) =~= seq![args[0]] + args.take(i).drop_first());
    } else {
        assert(args.skip(0) =~= args);
    }
}

/// The worker's command line from the daemon's command line.
pub fn child_args(args: &Vec<String>) -> (r: Vec<String>)
    ensures
        strings_view(r@) == worker_command(strings_view(args@)),
{
    let ghost a = strings_view(args@);
    let mut r: Vec<String> = Vec::new();
    let mut found = false;
    let n = args.len();
    let dname = chars_of("daemon");
    for i in 0..n
        invariant
            n == args@.len(),
            a == strings_view(args@),
            dname@ == "daemon"@,
            !found ==> forall|j: int| 0 <= j < i ==> a[j] != "daemon"@,
            !found ==> strings_view(r@) == a.take(i as int),
            found ==> exists|k: int| 0 <= k < i && (forall|j: int| 0 <= j < k ==> a[j] != "daemon"@) && a[k]
                == "daemon"@ && strings_view(r@) == a.take(k) + a.subrange(k + 1, i as int),
    {
        let ghost before = strings_view(r@);
        if found {
            push_str(&mut r, args[i].as_str());
            proof {
                let k = choose|k: int| 0 <= k < i && (forall|j: int| 0 <= j < k ==> a[j] != "daemon"@) && a[k]
                    == "daemon"@ && before == a.take(k) + a.subrange(k + 1, i as int);
                assert(a.subrange(k + 1, i + 1) =~= a.subrange(k + 1, i as int).push(a[i as int]));
                assert(strings_view(r@) =~= a.take(k) + a.subrange(k + 1, i + 1));
            }
        } else if crate::paths::chars_eq(chars_of(args[i].as_str()).as_slice(), dname.as_slice()) {
            found = true;
            proof {
                assert(a[i as int] == "daemon"@);
                assert(a.subrange(i + 1, i + 1) =~= Seq::<Seq<char>>::empty());
                assert(strings_view(r@) =~= a.take(i as int) + a.subrange(i + 1, i + 1));
            }
        } else {
            push_str(&mut r, args[i].as_str());
            assert(a.take(i + 1) =~= a.take(i as int).push(a[i as int]));
        }
    }
    proof {
        if found {
            let k = choose|k: int| 0 <= k < n && (forall|j: int| 0 <= j < k ==> a[j] != "daemon"@) && a[k]
                == "daemon"@ && strings_view(r@) == a.take(k) + a.subrange(k + 1, n as int);
            lemma_worker_command_prefix(a, k);
            assert(a.skip(k).drop_first() =~= a.subrange(k + 1, n as int));
        } else {
            lemma_worker_command_prefix(a, n as int);
            assert(a.skip(n as int) =~= Seq::<Seq<char>>::empty());
            assert(a.take(n as int) =~= a);
        }
    }
    r
}

/// The role of a worker from its command line: `client` if its first
/// argument after the program is `client`, else `server`.
pub open spec fn worker_role(child: Seq<Seq<char>>) -> DaemonRole {
    if child.len() > 1 && child[1] == "client"@ {
        DaemonRole::Client
    } else {
        DaemonRole::Server
    }
}

/// The worker's role from its command line.
pub fn role_of(child: &Vec<String>) -> (r: DaemonRole)
    ensures
        r == worker_role(strings_view(child@)),
{
    if child.len() > 1 && child[1] == "client".to_owned() {
        DaemonRole::Client
    } else {
        DaemonRole::Server
    }
}

/// The supervised worker is exactly the launched one, with the launched
/// role: the daemon's command line is the program, `daemon` and the
/// worker's arguments, and the restart loop drops `daemon` again.
pub proof fn lemma_restart_runs_launch(program: Seq<char>, launch_args: Seq<Seq<char>>, role: DaemonRole)
    requires
        program != "daemon"@,
        launch_args.len() > 0,
        launch_args[0] == crate::daemon::registry::role_name(role),
    ensures
        worker_command(seq![program] + (seq!["daemon"@] + launch_args)) == seq![program] + launch_args,
        worker_role(seq![program] + launch_args) == role,
{
    let tail = seq!["daemon"@] + launch_args;
    let full = seq![program] + tail;
    assert(full[0] == program);
    assert(full.drop_first() =~= tail);
    assert(tail[0] == "daemon"@);
    assert(tail.drop_first() =~= launch_args);
    assert(worker_command(tail) == launch_args);
    assert(worker_command(full) == seq![program] + worker_command(tail));
    reveal_strlit("server");
    reveal_strlit("client");
    let w = seq![program] + launch_args;
    assert(w.len() > 1);
    assert(w[1] == launch_args[0]);
    assert("server"@ != "client"@) by {
        assert("server"@[0] != "client"@[0]);
    }
    match role {
        DaemonRole::Server => {},
        DaemonRole::Client => {},
    }
}

/// The smallest restart delay (1 ms).
pub const MIN_BACKOFF_MS: u64 = 1;

/// The largest restart delay (5 minutes).
pub const MAX_BACKOFF_MS: u64 = 300_000;

/// A restart: how long to sleep before it, and the delay after that.
#[derive(Clone, Copy, Debug, PartialEq, Eq)]
pub struct Backoff {
    pub sleep_ms: u64,
    pub next_ms: u64,
}

/// The delay after `b`: doubled, capped at the largest delay.
pub open spec fn doubled(b: nat) -> nat {
    if 2 * b < MAX_BACKOFF_MS {
        2 * b
    } else {
        MAX_BACKOFF_MS as nat
    }
}

/// Decides the restart after a worker ended or could not start: a clean
/// exit resets the delay to the smallest; the restart sleeps the delay, and
/// the delay then doubles up to the largest.
pub fn restart_backoff(backoff_ms: u64, clean_exit: bool) -> (r: Backoff)
    requires
        backoff_ms <= u64::MAX / 2,
    ensures
        r.sleep_ms == (if clean_exit {
            MIN_BACKOFF_MS
        } else {
            backoff_ms
        }),
        r.next_ms == doubled(r.sleep_ms as nat),
{
    let b = if clean_exit {
        MIN_BACKOFF_MS
    } else {
        backoff_ms
    };
    let d = b * 2;
    let next = if d < MAX_BACKOFF_MS {
        d
    } else {
        MAX_BACKOFF_MS
    };
    Backoff { sleep_ms: b, next_ms: next }
}

/// The delay stays between the smallest and the largest.
pub proof fn lemma_backoff_bounded(backoff_ms: nat)
    requires
        MIN_BACKOFF_MS <= backoff_ms <= MAX_BACKOFF_MS,
    ensures
        MIN_BACKOFF_MS <= doubled(backoff_ms) <= MAX_BACKOFF_MS,
        backoff_ms <= doubled(backoff_ms),
{
}

/// The delay after `k` failures in a row from the smallest delay.
pub open spec fn delay_after_failures(k: nat) -> nat
    decreases k,
{
    if k == 0 {
        MIN_BACKOFF_MS as nat
    } else {
        doubled(delay_after_failures((k - 1) as nat))
    }
}

/// After `k` failures in a row from the smallest delay, the delay is
/// `min(2^k, 5 minutes)` milliseconds.
pub proof fn lemma_backoff_exponential(k: nat)
    ensures
        delay_after_failures(k) == (if vstd::arithmetic::power2::pow2(k) < MAX_BACKOFF_MS {
            vstd::arithmetic::power2::pow2(k)
        } else {
            MAX_BACKOFF_MS as nat
        }),
    decreases k,
{
    if k == 0 {
        vstd::arithmetic::power2::lemma2_to64();
    } else {
        lemma_backoff_exponential((k - 1) as nat);
        vstd::arithmetic::power2::lemma_pow2_unfold(k);
        vstd::arithmetic::power2::lemma_pow2_pos((k - 1) as nat);
    }
}

/// The delay in force before the next restart, after iterations whose
/// workers exited cleanly (`true`) or not (`false`), in order; it starts at
/// the smallest delay.
pub open spec fn delay_in_force(outcomes: Seq<bool>) -> nat
    decreases outcomes.len(), 0nat,
{
    if outcomes.len() == 0 {
        MIN_BACKOFF_MS as nat
    } else {
        doubled(restart_sleep(outcomes.drop_last(), outcomes.last()))
    }
}

/// How long the restart loop sleeps after an iteration with this outcome,
/// following the earlier ones: the smallest delay after a clean exit, else
/// the delay in force.
pub open spec fn restart_sleep(earlier: Seq<bool>, clean_exit: bool) -> nat
    decreases earlier.len(), 1nat,
{
    if clean_exit {
        MIN_BACKOFF_MS as nat
    } else {
        delay_in_force(earlier)
    }
}

/// The iteration the failures are counted from: the last one whose worker
/// exited cleanly, or the first iteration when none did.
pub open spec fn last_clean(outcomes: Seq<bool>) -> int
    decreases outcomes.len(),
{
    if outcomes.len() == 0 {
        0
    } else if outcomes.last() {
        outcomes.len() - 1
    } else {
        last_clean(outcomes.drop_last())
    }
}

proof fn lemma_delay_in_force(outcomes: Seq<bool>)
    ensures
        0 <= last_clean(outcomes) <= outcomes.len(),
        outcomes.len() > 0 ==> last_clean(outcomes) < outcomes.len(),
        delay_in_force(outcomes) == delay_after_failures((outcomes.len() - last_clean(outcomes)) as nat),
    decreases outcomes.len(),
{
    if outcomes.len() > 0 {
        let e = outcomes.drop_last();
        lemma_delay_in_force(e);
        if outcomes.last() {
            assert(delay_after_failures(1) == doubled(delay_after_failures(0)));
        } else {
            assert(delay_after_failures((outcomes.len() - last_clean(outcomes)) as nat) == doubled(
                delay_after_failures((e.len() - last_clean(e)) as nat),
            ));
        }
    }
}

/// One step of the restart loop as [`restart_backoff`] takes it: from the
/// delay in force after some iterations, the next iteration sleeps
/// [`restart_sleep`] and leaves the delay in force after it.
pub proof fn lemma_restart_step(earlier: Seq<bool>, clean_exit: bool)
    ensures
        restart_sleep(earlier, clean_exit) == (if clean_exit {
            MIN_BACKOFF_MS as nat
        } else {
            delay_in_force(earlier)
        }),
        delay_in_force(earlier.push(clean_exit)) == doubled(restart_sleep(earlier, clean_exit)),
{
    assert(earlier.push(clean_exit).drop_last() =~= earlier);
}

/// Across the restart loop: after iterations `0..=i` with these outcomes,
/// the loop sleeps `min(2^(i - c), 5 minutes)` milliseconds, where `c` is the
/// last iteration whose worker exited cleanly (0 when none did): the delay
/// starts at 1 ms, doubles on each failure up to 5 minutes, and a clean exit
/// resets it.
pub proof fn lemma_restart_delays(outcomes: Seq<bool>)
    requires
        outcomes.len() > 0,
    ensures
        ({
            let i = outcomes.len() - 1;
            let k = (i - last_clean(outcomes)) as nat;
            restart_sleep(outcomes.drop_last(), outcomes.last()) == if vstd::arithmetic::power2::pow2(k)
                < MAX_BACKOFF_MS {
                vstd::arithmetic::power2::pow2(k)
            } else {
                MAX_BACKOFF_MS as nat
            }
        }),
{
    let e = outcomes.drop_last();
    lemma_delay_in_force(e);
    lemma_delay_in_force(outcomes);
    let i = outcomes.len() - 1;
    let k = (i - last_clean(outcomes)) as nat;
    lemma_backoff_exponential(k);
    if outcomes.last() {
        assert(k == 0);
    } else {
        assert(last_clean(outcomes) == last_clean(e));
    }
}

/// Whether a worker's stderr line says it is ready: it contains
/// `listening on`.
pub fn worker_ready(line: &str) -> (r: bool)
    ensures
        r == contains(line@, "listening on"@),
{
    let l = chars_of(line);
    let p = chars_of("listening on");
    contains_chars(l.as_slice(), p.as_slice())
}

/// What the server and client print once they listen is recognised as
/// readiness by a daemon.
pub proof fn lemma_listening_messages_ready(
    listen: Seq<char>,
    tls: bool,
    config_path: Seq<char>,
    local: Seq<char>,
    url: Seq<char>,
)
    ensures
        contains(crate::server::server_listening_text(listen, tls), "listening on"@),
        contains(crate::server::config_listening_text(listen, tls, config_path), "listening on"@),
        contains(crate::client::client_listening_text(local, url), "listening on"@),
{
    reveal_strlit("Proxy server listening on ");
    reveal_strlit("Proxy client listening on ");
    reveal_strlit("listening on");
    let s = crate::server::server_listening_text(listen, tls);
    assert(s.subrange(13, 25) =~= "listening on"@);
    assert(crate::text::occurs_at(s, "listening on"@, 13));
    let f = crate::server::config_listening_text(listen, tls, config_path);
    assert(f.subrange(13, 25) =~= "listening on"@);
    assert(crate::text::occurs_at(f, "listening on"@, 13));
    let c = crate::client::client_listening_text(local, url);
    assert(c.subrange(13, 25) =~= "listening on"@);
    assert(crate::text::occurs_at(c, "listening on"@, 13));
}

/// The name of the `n`-th backup of an executable: `<exe>.old.<n>`.
pub fn backup_name(exe: &str, n: u64) -> (r: String)
    ensures
        r@ == exe@ + ".old."@ + decimal(n as nat),
{
    let d = decimal_string(n);
    join3(exe, ".old.", d.as_str())
}

/// Whether a directory entry is an old backup of the executable named
/// `file_name`: its name starts with `<file_name>.old.`.
pub fn is_backup_of(file_name: &str, entry_name: &str) -> (r: bool)
    ensures
        r == starts_with(entry_name@, file_name@ + ".old."@),
{
    let prefix = crate::text::join2(file_name, ".old.");
    let e = chars_of(entry_name);
    let p = chars_of(prefix.as_str());
    starts_with_chars(e.as_slice(), p.as_slice())
}

} // verus!
