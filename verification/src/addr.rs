//! Socket addresses and the outcome of resolving address text.

use vstd::prelude::*;
use crate::paths::chars_eq;
use crate::text::chars_of;

verus! {

/// An IP address.
#[derive(Clone, Copy, Debug, PartialEq, Eq)]
pub enum IpAddress {
    V4([u8; 4]),
    V6([u16; 8]),
}

/// An IP address with a port.
#[derive(Clone, Copy, Debug, PartialEq, Eq)]
pub struct SocketAddress {
    pub ip: IpAddress,
    pub port: u16,
}

/// What resolving each address text gave: the first address it resolved to,
/// or the error's message. Address text that has no entry did not resolve.
#[derive(Clone, Debug)]
pub struct Resolutions {
    pub entries: Vec<(String, core::result::Result<SocketAddress, String>)>,
}

/// The view of one resolution outcome.
pub open spec fn outcome_view(r: core::result::Result<SocketAddress, String>) -> core::result::Result<SocketAddress, Seq<char>> {
    match r {
        Ok(a) => Ok(a),
        Err(m) => Err(m@),
    }
}

/// The message of an address that has no resolution entry.
pub open spec fn unresolved_message() -> Seq<char> {
    "could not resolve address"@
}

/// The outcome recorded for `addr`: that of its first entry.
pub open spec fn resolve_in(
    entries: Seq<(Seq<char>, core::result::Result<SocketAddress, Seq<char>>)>,
    addr: Seq<char>,
) -> core::result::Result<SocketAddress, Seq<char>>
    decreases entries.len(),
{
    if entries.len() == 0 {
        Err(unresolved_message())
    } else if entries[0].0 == addr {
        entries[0].1
    } else {
        resolve_in(entries.drop_first(), addr)
    }
}

impl View for Resolutions {
    type V = Seq<(Seq<char>, core::result::Result<SocketAddress, Seq<char>>)>;

    open spec fn view(&self) -> Self::V {
        self.entries@.map_values(
            |e: (String, core::result::Result<SocketAddress, String>)| (e.0@, outcome_view(e.1)),
        )
    }
}

impl Resolutions {
    /// No outcomes recorded yet.
    pub fn new() -> (r: Resolutions)
        ensures
            r@ == Seq::<(Seq<char>, core::result::Result<SocketAddress, Seq<char>>)>::empty(),
    {
        let r = Resolutions { entries: Vec::new() };
        assert(r@ =~= Seq::<(Seq<char>, core::result::Result<SocketAddress, Seq<char>>)>::empty());
        r
    }

    /// Records the outcome of resolving `addr`.
    pub fn record(&mut self, addr: &str, outcome: core::result::Result<SocketAddress, String>)
        ensures
            final(self)@ == old(self)@.push((addr@, outcome_view(outcome))),
    {
        let ghost before = self@;
        self.entries.push((addr.to_owned(), outcome));
        assert(self@ =~= before.push((addr@, outcome_view(outcome))));
    }

    /// The outcome recorded for `addr`.
    pub fn lookup(&self, addr: &str) -> (r: core::result::Result<SocketAddress, String>)
        ensures
            outcome_view(r) == resolve_in(self@, addr@),
    {
        let key = chars_of(addr);
        let n = self.entries.len();
        let ghost v = self@;
        assert(v.skip(0) =~= v);
        for i in 0..n
            invariant
                n == self.entries@.len(),
                v == self@,
                key@ == addr@,
                resolve_in(v, addr@) == resolve_in(v.skip(i as int), addr@),
        {
            let k = chars_of(self.entries[i].0.as_str());
            assert(v.skip(i as int).drop_first() =~= v.skip(i + 1));
            assert(v.skip(i as int)[0] == v[i as int]);
            if chars_eq(k.as_slice(), key.as_slice()) {
                return match &self.entries[i].1 {
                    Ok(a) => Ok(*a),
                    Err(m) => Err(m.clone()),
                };
            }
        }
        assert(v.skip(n as int) =~= Seq::<(Seq<char>, core::result::Result<SocketAddress, Seq<char>>)>::empty());
        Err("could not resolve address".to_owned())
    }
}

} // verus!
