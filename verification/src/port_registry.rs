//! Workers report the port they bound to the daemon registry, so that a
//! listing shows actual ports.

use vstd::prelude::*;
use crate::text::{decimal, parse_u32, parse_u32_exec};

verus! {

/// The part of a registry entry that port reporting reads and writes.
#[derive(Clone, Copy, Debug, PartialEq, Eq)]
pub struct PortRecord {
    pub id: u32,
    pub port: Option<u16>,
}

/// The daemon identifier given in the worker's environment, if it is a
/// `u32` in decimal.
pub fn parse_daemon_id(s: &str) -> (r: Option<u32>)
    ensures
        r == parse_u32(s@),
{
    parse_u32_exec(s)
}

/// The position of the first record of the daemon.
pub open spec fn first_record(rs: Seq<PortRecord>, id: u32, i: int) -> bool {
    &&& 0 <= i < rs.len()
    &&& rs[i].id == id
    &&& forall|j: int| 0 <= j < i ==> rs[j].id != id
}

/// Records the bound port for the daemon `id`: its first record gets the
/// port; without a record, nothing changes.
pub fn report_port(records: &mut Vec<PortRecord>, id: u32, port: u16)
    ensures
        forall|i: int| first_record(old(records)@, id, i) ==> final(records)@ == old(records)@.update(
            i,
            PortRecord { id, port: Some(port) },
        ),
        !(exists|i: int| first_record(old(records)@, id, i)) ==> final(records)@ == old(records)@,
{
    let n = records.len();
    for i in 0..n
        invariant
            n == records@.len(),
            records@ == old(records)@,
            forall|j: int| 0 <= j < i ==> records@[j].id != id,
    {
        if records[i].id == id {
            assert(first_record(old(records)@, id, i as int));
            records.set(i, PortRecord { id, port: Some(port) });
            proof {
                assert forall|k: int| first_record(old(records)@, id, k) implies k == i by {
                    if k < i {
                    } else if k > i {
                    }
                }
            }
            return;
        }
    }
}

/// The identifier a daemon hands its worker (written in decimal) reads back
/// as the same identifier.
pub proof fn lemma_daemon_id_roundtrip(id: u32)
    ensures
        parse_u32(decimal(id as nat)) == Some(id),
{
    crate::text::lemma_parse_decimal(id);
}

} // verus!
