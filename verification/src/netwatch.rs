//! What a launched process is connected to, out of a table of connections.
use crate::model::all;
use crate::table::{ascending, Table};
use crate::text::{cat, cat3, decimal, decimal_text};
use vstd::prelude::*;
use vstd::string::*;

verus! {

/// The state of a connection that has a peer.
pub const ESTABLISHED: u32 = 5;

/// One row of a table of connections: who owns it, its state, and its peer.
#[derive(Debug)]
pub struct Connection {
    pub pid: u32,
    pub state: u32,
    pub remote: String,
}

/// The peer of a connection over IPv4, from the two words of a table that hold it with
/// the first byte lowest.
pub open spec fn v4_peer_text(addr: u32, port: u32) -> Seq<char> {
    decimal((addr % 256) as nat) + "."@ + decimal((addr / 256 % 256) as nat) + "."@ + decimal(
        (addr / 65536 % 256) as nat,
    ) + "."@ + decimal((addr / 16777216) as nat) + ":"@ + decimal(
        (port % 256 * 256 + port / 256 % 256) as nat,
    )
}

/// The peer of a connection over IPv4.
pub fn v4_peer(addr: u32, port: u32) -> (r: String)
    ensures
        r@ == v4_peer_text(addr, port),
{
    let a = decimal_text((addr % 256) as u64);
    let b = decimal_text((addr / 256 % 256) as u64);
    let c = decimal_text((addr / 65536 % 256) as u64);
    let d = decimal_text((addr / 16777216) as u64);
    let p = decimal_text((port % 256 * 256 + port / 256 % 256) as u64);
    let mut s = cat3(a.as_str(), ".", b.as_str());
    s.append(".");
    s.append(c.as_str());
    s.append(".");
    s.append(d.as_str());
    s.append(cat(":", p.as_str()).as_str());
    assert(s@ =~= v4_peer_text(addr, port));
    s
}

/// Whether a row is a live connection of this process.
pub open spec fn is_egress(c: Connection, pid: u32) -> bool {
    c.pid == pid && c.state == ESTABLISHED
}

/// Whether these are the peers of every established connection of a process, each once and in
/// order.
pub open spec fn is_sample(table: Seq<Connection>, pid: u32, peers: Seq<Seq<char>>) -> bool {
    &&& ascending(peers)
    &&& forall|peer: Seq<char>| #[trigger]
        peers.contains(peer) <==> exists|i: int|
            0 <= i < table.len() && is_egress(#[trigger] table[i], pid) && table[i].remote@ == peer
}

/// The peers of every established connection of a process, each once and in order.
pub fn sample(pid: u32, table: &Vec<Connection>) -> (r: Vec<String>)
    ensures
        is_sample(table@, pid, all(r@)),
        ascending(all(r@)),
        forall|peer: Seq<char>| #[trigger]
            all(r@).contains(peer) <==> exists|i: int|
                0 <= i < table@.len() && is_egress(#[trigger] table@[i], pid) && table@[i].remote@
                    == peer,
{
    let mut seen: Table<bool> = Table::new();
    let mut i: usize = 0;
    while i < table.len()
        invariant
            i <= table@.len(),
            seen.wf(),
            forall|peer: Seq<char>| #[trigger]
                seen@.contains_key(peer) <==> exists|j: int|
                    0 <= j < i && is_egress(#[trigger] table@[j], pid) && table@[j].remote@ == peer,
        decreases table@.len() - i,
    {
        let row = &table[i];
        if row.pid == pid && row.state == ESTABLISHED {
            seen.insert(row.remote.as_str(), true);
        }
        i += 1;
    }
    proof {
        seen.keys_are_domain();
    }
    let r = seen.key_list();
    assert forall|peer: Seq<char>| #[trigger] all(r@).contains(peer) <==> exists|j: int|
        0 <= j < table@.len() && is_egress(#[trigger] table@[j], pid) && table@[j].remote@
            == peer by {
        assert(all(r@).contains(peer) <==> seen@.contains_key(peer));
    }
    r
}

} // verus!
