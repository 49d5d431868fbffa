//! The server-only daemon: a supervisor that restarts the server, which
//! watches its stdin to notice the supervisor's death.

use vstd::prelude::*;
use super::{flag_pairs, opt_flag, strings_view};

verus! {

/// Each argument, with `daemon` turned into `server`.
pub open spec fn as_server_command(args: Seq<Seq<char>>) -> Seq<Seq<char>> {
    args.map_values(|a: Seq<char>| if a == "daemon"@ {
        "server"@
    } else {
        a
    })
}

/// The server's command line from the supervisor's: every `daemon`
/// argument becomes `server`.
pub fn server_command(args: &Vec<String>) -> (r: Vec<String>)
    ensures
        strings_view(r@) == as_server_command(strings_view(args@)),
{
    let ghost a = strings_view(args@);
    let mut r: Vec<String> = Vec::new();
    let n = args.len();
    let d = "daemon".to_owned();
    for i in 0..n
        invariant
            n == args@.len(),
            a == strings_view(args@),
            d@ == "daemon"@,
            strings_view(r@) == as_server_command(a.take(i as int)),
    {
        let ghost before = strings_view(r@);
        assert(a.take(i + 1) =~= a.take(i as int).push(a[i as int]));
        assert(a[i as int] == args@[i as int]@);
        assert(as_server_command(a.take(i + 1)) =~= as_server_command(a.take(i as int)).push(
            if a[i as int] == "daemon"@ { "server"@ } else { a[i as int] },
        ));
        if args[i] == d {
            r.push("server".to_owned());
        } else {
            r.push(args[i].clone());
        }
        assert(strings_view(r@) =~= as_server_command(a.take(i + 1)));
    }
    assert(a.take(n as int) =~= a);
    r
}

/// The supervisor's arguments: `daemon`, the listen address, the routes and
/// the default target if any.
pub open spec fn supervisor_args(listen: Seq<char>, route: Seq<Seq<char>>, default_target: Option<Seq<char>>) -> Seq<Seq<char>> {
    seq!["daemon"@, "--listen"@, listen] + flag_pairs("--route"@, route) + opt_flag(
        "--default-target"@,
        default_target,
    )
}

/// Prepares the supervisor's command-line arguments.
pub fn spawn(listen: String, route: Vec<String>, default_target: Option<String>) -> (r: Vec<String>)
    ensures
        strings_view(r@) == supervisor_args(
            listen@,
            strings_view(route@),
            crate::config::opt_str(default_target),
        ),
{
    let mut r: Vec<String> = Vec::new();
    super::push_str(&mut r, "daemon");
    super::push_str(&mut r, "--listen");
    super::push_str(&mut r, listen.as_str());
    super::push_flag_pairs(&mut r, "--route", &route);
    super::push_opt_flag(&mut r, "--default-target", &default_target);
    assert(strings_view(r@) =~= supervisor_args(
        listen@,
        strings_view(route@),
        crate::config::opt_str(default_target),
    ));
    r
}

} // verus!
