//! Which connections of the game to shadow: the bookkeeping behind the raw
//! sockets.

use vstd::prelude::*;

verus! {

/// Why waiting on the sockets gave no socket to read.
#[derive(Debug, Copy, Clone, PartialEq, Eq, Structural)]
pub enum SelectError {
    /// The socket library failed with this code.
    WinSock(i32),
    /// The time ran out.
    Timeout,
}

/// Combines two bytes into a 16-bit word, `a` being the low byte.
pub fn make_word(a: u8, b: u8) -> (w: u16)
    ensures
        w == a as int + 256 * (b as int),
{
    a as u16 + 256 * (b as u16)
}

/// An IPv4 address, first octet in the highest byte.
pub type Address = u32;

/// One established TCP connection as the system reports it.
#[derive(Debug, Copy, Clone, PartialEq, Eq, Structural)]
pub struct IpTableEntry {
    /// Local address and port.
    pub src_addr: Address,
    pub src_port: u16,
    /// Remote address and port.
    pub dst_addr: Address,
    pub dst_port: u16,
    /// The process that owns the connection.
    pub pid: u32,
}

/// What a refresh changes.
pub struct Refresh {
    /// Positions of the connections that are gone, the highest first. Each
    /// is taken out by moving the last connection into its place.
    pub removals: Vec<usize>,
    /// The connections to open, in the order of the table.
    pub additions: Vec<IpTableEntry>,
}

/// The remote addresses of the connections that are shadowed, in the order
/// of their sockets.
pub struct Connections {
    pub pid: u32,
    pub port: u16,
    /// The addresses of the local interfaces.
    pub addrs: Vec<Address>,
    pub ips: Vec<Address>,
}

/// Whether a connection is one to shadow: it belongs to the process, goes to
/// the port, and starts at a local interface.
pub open spec fn wanted(pid: u32, port: u16, addrs: Seq<Address>, e: IpTableEntry) -> bool {
    e.pid == pid && e.dst_port == port && addrs.contains(e.src_addr)
}

/// Whether the table has a wanted connection to the address.
pub open spec fn still_there(
    pid: u32,
    port: u16,
    addrs: Seq<Address>,
    table: Seq<IpTableEntry>,
    ip: Address,
) -> bool {
    exists|k: int| 0 <= k < table.len() && wanted(pid, port, addrs, #[trigger] table[k]) && table[k].dst_addr == ip
}

/// The wanted connections of the table to addresses that are not shadowed
/// yet, in the order of the table.
pub open spec fn additions_of(
    pid: u32,
    port: u16,
    addrs: Seq<Address>,
    ips: Seq<Address>,
    table: Seq<IpTableEntry>,
) -> Seq<IpTableEntry>
    decreases table.len(),
{
    if table.len() == 0 {
        Seq::empty()
    } else {
        let earlier = additions_of(pid, port, addrs, ips, table.drop_last());
        if wanted(pid, port, addrs, table.last()) && !ips.contains(table.last().dst_addr) {
            earlier.push(table.last())
        } else {
            earlier
        }
    }
}

/// The shadowed addresses after the connections that are gone were taken
/// out, each by moving the last address into its place, from position
/// `upto - 1` down to 0.
pub open spec fn pruned(
    pid: u32,
    port: u16,
    addrs: Seq<Address>,
    ips: Seq<Address>,
    table: Seq<IpTableEntry>,
    upto: int,
) -> Seq<Address>
    decreases ips.len() - upto,
{
    if upto >= ips.len() || upto < 0 {
        ips
    } else {
        let later = pruned(pid, port, addrs, ips, table, upto + 1);
        if still_there(pid, port, addrs, table, ips[upto]) {
            later
        } else {
            later.update(upto, later.last()).drop_last()
        }
    }
}

/// The positions that are taken out, the highest first.
pub open spec fn removals_of(
    pid: u32,
    port: u16,
    addrs: Seq<Address>,
    ips: Seq<Address>,
    table: Seq<IpTableEntry>,
    upto: int,
) -> Seq<usize>
    decreases ips.len() - upto,
{
    if upto >= ips.len() || upto < 0 {
        Seq::empty()
    } else {
        let later = removals_of(pid, port, addrs, ips, table, upto + 1);
        if still_there(pid, port, addrs, table, ips[upto]) {
            later
        } else {
            later.push(upto as usize)
        }
    }
}

impl Connections {
    /// No connection is shadowed yet.
    pub fn new(pid: u32, port: u16, addrs: Vec<Address>) -> (c: Self)
        ensures
            c.pid == pid,
            c.port == port,
            c.addrs == addrs,
            c.ips@ == Seq::<Address>::empty(),
    {
        Connections { pid, port, addrs, ips: Vec::new() }
    }

    /// Number of shadowed connections.
    pub fn len(&self) -> (n: usize)
        ensures
            n == self.ips@.len(),
    {
        self.ips.len()
    }

    fn is_wanted(&self, e: &IpTableEntry) -> (b: bool)
        ensures
            b == wanted(self.pid, self.port, self.addrs@, *e),
    {
        if e.pid != self.pid || e.dst_port != self.port {
            return false;
        }
        let mut i: usize = 0;
        while i < self.addrs.len()
            invariant
                0 <= i <= self.addrs@.len(),
                e.pid == self.pid,
                e.dst_port == self.port,
                forall|j: int| 0 <= j < i ==> self.addrs@[j] != e.src_addr,
            decreases self.addrs@.len() - i,
        {
            if self.addrs[i] == e.src_addr {
                return true;
            }
            i = i + 1;
        }
        false
    }

    fn is_still_there(&self, table: &Vec<IpTableEntry>, ip: Address) -> (b: bool)
        ensures
            b == still_there(self.pid, self.port, self.addrs@, table@, ip),
    {
        let mut k: usize = 0;
        while k < table.len()
            invariant
                0 <= k <= table@.len(),
                forall|j: int|
                    0 <= j < k ==> !(wanted(self.pid, self.port, self.addrs@, #[trigger] table@[j])
                        && table@[j].dst_addr == ip),
            decreases table@.len() - k,
        {
            if self.is_wanted(&table[k]) && table[k].dst_addr == ip {
                return true;
            }
            k = k + 1;
        }
        false
    }

    fn is_shadowed(ips: &Vec<Address>, count: usize, ip: Address) -> (b: bool)
        requires
            count <= ips@.len(),
        ensures
            b == ips@.take(count as int).contains(ip),
    {
        let mut i: usize = 0;
        while i < count
            invariant
                0 <= i <= count <= ips@.len(),
                forall|j: int| 0 <= j < i ==> ips@[j] != ip,
            decreases count - i,
        {
            if ips[i] == ip {
                assert(ips@.take(count as int)[i as int] == ip);
                return true;
            }
            i = i + 1;
        }
        false
    }

    /// Brings the shadowed connections in line with the table of the system:
    /// connections that the table no longer has are taken out, and the
    /// wanted connections to addresses not shadowed before are added at the
    /// end.
    pub fn refresh(&mut self, table: &Vec<IpTableEntry>) -> (plan: Refresh)
        ensures
            final(self).pid == old(self).pid,
            final(self).port == old(self).port,
            final(self).addrs == old(self).addrs,
            plan.removals@ == removals_of(old(self).pid, old(self).port, old(self).addrs@, old(self).ips@, table@, 0),
            plan.additions@ == additions_of(
                old(self).pid,
                old(self).port,
                old(self).addrs@,
                old(self).ips@,
                table@,
            ),
            final(self).ips@ == pruned(
                old(self).pid,
                old(self).port,
                old(self).addrs@,
                old(self).ips@,
                table@,
                0,
            ) + plan.additions@.map_values(|e: IpTableEntry| e.dst_addr),
    {
        let ghost before = self.ips@;
        let known = self.ips.len();
        // Which wanted connections are new?
        let mut additions: Vec<IpTableEntry> = Vec::new();
        let mut k: usize = 0;
        while k < table.len()
            invariant
                0 <= k <= table@.len(),
                self.ips@ == before,
                known == before.len(),
                self.pid == old(self).pid,
                self.port == old(self).port,
                self.addrs == old(self).addrs,
                additions@ == additions_of(
                    self.pid,
                    self.port,
                    self.addrs@,
                    before,
                    table@.take(k as int),
                ),
            decreases table@.len() - k,
        {
            let e = table[k];
            let fresh = self.is_wanted(&e) && !Self::is_shadowed(&self.ips, known, e.dst_addr);
            proof {
                assert(before.take(known as int) =~= before);
                assert(table@.take(k + 1).drop_last() =~= table@.take(k as int));
                assert(table@.take(k + 1).last() == e);
            }
            if fresh {
                additions.push(e);
            }
            k = k + 1;
        }
        assert(table@.take(table@.len() as int) =~= table@);
        // Which shadowed connections are gone? The highest positions go first.
        let mut removals: Vec<usize> = Vec::new();
        let mut i: usize = known;
        while i > 0
            invariant
                0 <= i <= known,
                known == before.len(),
                self.pid == old(self).pid,
                self.port == old(self).port,
                self.addrs == old(self).addrs,
                self.ips@ == pruned(self.pid, self.port, self.addrs@, before, table@, i as int),
                i <= self.ips@.len() <= known,
                forall|j: int| 0 <= j < i ==> self.ips@[j] == before[j],
                removals@ == removals_of(self.pid, self.port, self.addrs@, before, table@, i as int),
            decreases i,
        {
            i = i - 1;
            if !self.is_still_there(table, self.ips[i]) {
                self.ips.swap_remove(i);
                removals.push(i);
            }
        }
        let mut a: usize = 0;
        let ghost kept = self.ips@;
        while a < additions.len()
            invariant
                0 <= a <= additions@.len(),
                self.pid == old(self).pid,
                self.port == old(self).port,
                self.addrs == old(self).addrs,
                self.ips@ == kept + additions@.take(a as int).map_values(
                    |e: IpTableEntry| e.dst_addr,
                ),
            decreases additions@.len() - a,
        {
            self.ips.push(additions[a].dst_addr);
            proof {
                assert(additions@.take(a + 1) =~= additions@.take(a as int).push(additions@[a as int]));
                assert(additions@.take(a + 1).map_values(|e: IpTableEntry| e.dst_addr)
                    =~= additions@.take(a as int).map_values(|e: IpTableEntry| e.dst_addr).push(
                    additions@[a as int].dst_addr,
                ));
            }
            a = a + 1;
        }
        assert(additions@.take(additions@.len() as int) =~= additions@);
        Refresh { removals, additions }
    }
}

/// What is known of the shadowed addresses once the positions from `upto`
/// on were looked at: the positions before `upto` are untouched, and behind
/// them stand exactly the addresses from `upto` on that are still there.
proof fn lemma_pruned(
    pid: u32,
    port: u16,
    addrs: Seq<Address>,
    ips: Seq<Address>,
    table: Seq<IpTableEntry>,
    upto: int,
)
    requires
        0 <= upto <= ips.len(),
    ensures
        ({
            let r = pruned(pid, port, addrs, ips, table, upto);
            &&& upto <= r.len() <= ips.len()
            &&& forall|j: int| 0 <= j < upto ==> r[j] == ips[j]
            &&& forall|k: int|
                upto <= k < r.len() ==> exists|j: int|
                    upto <= j < ips.len() && ips[j] == #[trigger] r[k] && still_there(
                        pid,
                        port,
                        addrs,
                        table,
                        ips[j],
                    )
            &&& forall|j: int|
                upto <= j < ips.len() && still_there(pid, port, addrs, table, #[trigger] ips[j])
                    ==> exists|k: int| upto <= k < r.len() && r[k] == ips[j]
        }),
    decreases ips.len() - upto,
{
    if upto < ips.len() {
        lemma_pruned(pid, port, addrs, ips, table, upto + 1);
        let later = pruned(pid, port, addrs, ips, table, upto + 1);
        let r = pruned(pid, port, addrs, ips, table, upto);
        if still_there(pid, port, addrs, table, ips[upto]) {
            assert forall|k: int| upto <= k < r.len() implies exists|j: int|
                upto <= j < ips.len() && ips[j] == #[trigger] r[k] && still_there(
                    pid,
                    port,
                    addrs,
                    table,
                    ips[j],
                ) by {
                if k == upto {
                    assert(ips[upto] == r[k]);
                } else {
                    let j = choose|j: int|
                        upto + 1 <= j < ips.len() && ips[j] == later[k] && still_there(
                            pid,
                            port,
                            addrs,
                            table,
                            ips[j],
                        );
                    assert(ips[j] == r[k]);
                }
            }
            assert forall|j: int|
                upto <= j < ips.len() && still_there(
                    pid,
                    port,
                    addrs,
                    table,
                    #[trigger] ips[j],
                ) implies exists|k: int| upto <= k < r.len() && r[k] == ips[j] by {
                if j == upto {
                    assert(r[upto] == ips[j]);
                } else {
                    let k = choose|k: int| upto + 1 <= k < later.len() && later[k] == ips[j];
                    assert(r[k] == ips[j]);
                }
            }
        } else {
            let last = later.len() - 1;
            assert forall|k: int| upto <= k < r.len() implies exists|j: int|
                upto <= j < ips.len() && ips[j] == #[trigger] r[k] && still_there(
                    pid,
                    port,
                    addrs,
                    table,
                    ips[j],
                ) by {
                let from = if k == upto {
                    last
                } else {
                    k
                };
                assert(r[k] == later[from]);
                let j = choose|j: int|
                    upto + 1 <= j < ips.len() && ips[j] == later[from] && still_there(
                        pid,
                        port,
                        addrs,
                        table,
                        ips[j],
                    );
                assert(ips[j] == r[k]);
            }
            assert forall|j: int|
                upto <= j < ips.len() && still_there(
                    pid,
                    port,
                    addrs,
                    table,
                    #[trigger] ips[j],
                ) implies exists|k: int| upto <= k < r.len() && r[k] == ips[j] by {
                let k = choose|k: int| upto + 1 <= k < later.len() && later[k] == ips[j];
                if k == last {
                    assert(r[upto] == ips[j]);
                } else {
                    assert(r[k] == ips[j]);
                }
            }
        }
    }
}

/// After a refresh, an address that was shadowed before is shadowed still
/// exactly if the table has a wanted connection to it.
pub proof fn lemma_refresh_keeps_what_is_there(
    pid: u32,
    port: u16,
    addrs: Seq<Address>,
    ips: Seq<Address>,
    table: Seq<IpTableEntry>,
    ip: Address,
)
    ensures
        pruned(pid, port, addrs, ips, table, 0).contains(ip) <==> ips.contains(ip) && still_there(
            pid,
            port,
            addrs,
            table,
            ip,
        ),
{
    lemma_pruned(pid, port, addrs, ips, table, 0);
    let r = pruned(pid, port, addrs, ips, table, 0);
    if r.contains(ip) {
        let k = choose|k: int| 0 <= k < r.len() && r[k] == ip;
        let j = choose|j: int|
            0 <= j < ips.len() && ips[j] == r[k] && still_there(pid, port, addrs, table, ips[j]);
        assert(ips[j] == ip);
    }
    if ips.contains(ip) && still_there(pid, port, addrs, table, ip) {
        let j = choose|j: int| 0 <= j < ips.len() && ips[j] == ip;
        assert(still_there(pid, port, addrs, table, ips[j]));
        let k = choose|k: int| 0 <= k < r.len() && r[k] == ips[j];
        assert(r[k] == ip);
    }
}

} // verus!
