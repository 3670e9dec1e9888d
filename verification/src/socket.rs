//! Datagram transceiver model: plain-value socket addresses, the
//! normalization rules that turn raw non-blocking socket outcomes into the
//! uniform `{Some(datagram), None, error}` shape, and a deterministic
//! in-memory loopback network that simulates datagram delivery, the IPv6-only
//! binding rule and would-block conditions for tests of the layers above.

use vstd::prelude::*;

verus! {

/// A transport endpoint identifier, as plain values.
#[derive(Clone, Copy, Debug, PartialEq, Eq, Structural)]
pub enum SocketAddress {
    V4 { ip: u32, port: u16 },
    V6 { ip_hi: u64, ip_lo: u64, port: u16 },
}

impl SocketAddress {
    /// Whether this is an IPv6 address.
    pub open spec fn spec_is_v6(self) -> bool {
        self is V6
    }

    /// Whether this is an IPv6 address.
    pub fn is_v6(&self) -> (r: bool)
        ensures
            r == self.spec_is_v6(),
    {
        match self {
            SocketAddress::V6 { .. } => true,
            SocketAddress::V4 { .. } => false,
        }
    }

    /// Whether this is an IPv4-mapped IPv6 address (`::ffff:a.b.c.d`).
    pub open spec fn spec_is_v4_mapped(self) -> bool {
        match self {
            SocketAddress::V6 { ip_hi, ip_lo, .. } => ip_hi == 0 && ip_lo >> 32 == 0xffffu64,
            SocketAddress::V4 { .. } => false,
        }
    }

    /// Whether this is an IPv4-mapped IPv6 address (`::ffff:a.b.c.d`).
    pub fn is_v4_mapped(&self) -> (r: bool)
        ensures
            r == self.spec_is_v4_mapped(),
    {
        match self {
            SocketAddress::V6 { ip_hi, ip_lo, .. } => *ip_hi == 0 && (*ip_lo >> 32) == 0xffff,
            SocketAddress::V4 { .. } => false,
        }
    }
}

/// What a raw non-blocking receive reported: a datagram of `len` bytes from
/// `from`, or that the operation would block.
#[derive(Clone, Copy, Debug)]
pub enum RecvStatus {
    Datagram { len: usize, from: SocketAddress },
    Blocked,
}

/// What a raw non-blocking send reported: `len` bytes accepted, or that the
/// operation would block.
#[derive(Clone, Copy, Debug)]
pub enum SendStatus {
    Sent { len: usize },
    Blocked,
}

/// Normalizes a raw receive outcome: a datagram is reported only when it has
/// at least one byte; a zero-length datagram and a would-block condition both
/// mean "nothing of interest arrived" and yield `None`.
pub fn normalize_recv(st: RecvStatus) -> (r: Option<(usize, SocketAddress)>)
    ensures
        match st {
            RecvStatus::Datagram { len, from } => if len > 0 {
                r == Some((len, from))
            } else {
                r is None
            },
            RecvStatus::Blocked => r is None,
        },
{
    match st {
        RecvStatus::Datagram { len, from } => {
            if len > 0 {
                Some((len, from))
            } else {
                None
            }
        },
        RecvStatus::Blocked => None,
    }
}

/// Normalizes a raw send outcome: a would-block condition means "accepted
/// zero bytes, retry later", never an error.
pub fn normalize_send(st: SendStatus) -> (r: usize)
    ensures
        match st {
            SendStatus::Sent { len } => r == len,
            SendStatus::Blocked => r == 0,
        },
{
    match st {
        SendStatus::Sent { len } => len,
        SendStatus::Blocked => 0,
    }
}

/// Failure of endpoint construction: the requested address is already bound.
#[derive(Clone, Copy, Debug, PartialEq, Eq, Structural)]
pub struct Error;

/// One datagram in flight: its sender and its payload.
pub struct Datagram {
    pub from: SocketAddress,
    pub payload: Vec<u8>,
}

/// One bound endpoint: its address, the IPv6-only flag the binding rule set
/// for it, and its queue of pending inbound datagrams.
pub struct Endpoint {
    pub addr: SocketAddress,
    pub only_v6: bool,
    pub inbox: Vec<Datagram>,
}

/// Whether an endpoint accepts a datagram addressed to `dest`: the
/// destination must be its bound address, and an IPv6-only endpoint rejects
/// traffic addressed in IPv4-mapped form.
pub open spec fn accepts(ep: Endpoint, dest: SocketAddress) -> bool {
    ep.addr == dest && !(ep.only_v6 && dest.spec_is_v4_mapped())
}

/// Whether two endpoint states carry the same binding (address and
/// IPv6-only flag).
pub open spec fn same_binding(a: Endpoint, b: Endpoint) -> bool {
    a.addr == b.addr && a.only_v6 == b.only_v6
}

/// Whether `after` is `before` with one datagram from `from` carrying
/// `payload` appended.
pub open spec fn delivered(
    before: Seq<Datagram>,
    after: Seq<Datagram>,
    from: SocketAddress,
    payload: Seq<u8>,
) -> bool {
    &&& after.len() == before.len() + 1
    &&& after.drop_last() == before
    &&& after.last().from == from
    &&& after.last().payload@ == payload
}

/// Whether some endpoint in `eps` is bound to `addr`.
pub open spec fn bound(eps: Seq<Endpoint>, addr: SocketAddress) -> bool {
    exists|i: int| 0 <= i < eps.len() && (#[trigger] eps[i]).addr == addr
}

/// The effect of one send of `payload` from endpoint `sender` to `dest`:
/// every endpoint that accepts the destination — by address uniqueness there
/// is at most one — has the datagram appended to its inbox and keeps its
/// binding; every other endpoint is untouched.
pub open spec fn send_effect(
    before: Seq<Endpoint>,
    after: Seq<Endpoint>,
    sender: int,
    payload: Seq<u8>,
    dest: SocketAddress,
) -> bool {
    &&& after.len() == before.len()
    &&& forall|j: int|
        0 <= j < before.len() && !accepts(#[trigger] before[j], dest) ==> after[j] == before[j]
    &&& forall|j: int|
        0 <= j < before.len() && accepts(#[trigger] before[j], dest) ==> same_binding(
            after[j],
            before[j],
        ) && delivered(before[j].inbox@, after[j].inbox@, before[sender].addr, payload)
}

/// A deterministic in-memory network of datagram endpoints. It simulates
/// delivery, the IPv6-only binding rule and would-block conditions, so the
/// protocol layers above the transceiver can be exercised without real
/// sockets. Each bound endpoint is named by the handle that `bind` returned.
pub struct LoopbackNetwork {
    endpoints: Vec<Endpoint>,
    congested: bool,
}

impl LoopbackNetwork {
    /// The bound endpoints, by handle.
    pub closed spec fn eps(self) -> Seq<Endpoint> {
        self.endpoints@
    }

    /// Whether sends currently would block.
    pub closed spec fn spec_congested(self) -> bool {
        self.congested
    }

    /// Well-formedness: bound addresses are unique, and each endpoint's
    /// IPv6-only flag is set exactly when its address is IPv6.
    pub open spec fn wf(self) -> bool {
        &&& forall|i: int, j: int|
            0 <= i < j < self.eps().len() ==> (#[trigger] self.eps()[i]).addr != (
            #[trigger] self.eps()[j]).addr
        &&& forall|i: int|
            0 <= i < self.eps().len() ==> (#[trigger] self.eps()[i]).only_v6 == self.eps()[i].addr.spec_is_v6()
    }

    /// An empty network: no endpoints, sends do not block.
    pub fn new() -> (r: Self)
        ensures
            r.wf(),
            r.eps().len() == 0,
            !r.spec_congested(),
    {
        LoopbackNetwork { endpoints: Vec::new(), congested: false }
    }

    /// Makes every following send report a would-block condition (`c` true),
    /// or lets sends go through again (`c` false).
    pub fn set_congested(&mut self, c: bool)
        ensures
            final(self).spec_congested() == c,
            final(self).eps() == old(self).eps(),
    {
        self.congested = c;
    }

    /// Binds a new endpoint to `addr` and returns its handle. Per the
    /// binding rule, an IPv6 address is bound IPv6-only — no dual-stack
    /// fallback. Fails, changing nothing, exactly when the address is
    /// already bound.
    pub fn bind(&mut self, addr: SocketAddress) -> (r: Result<usize, Error>)
        requires
            old(self).wf(),
        ensures
            final(self).wf(),
            bound(old(self).eps(), addr) ==> r == Err::<usize, Error>(Error) && *final(self)
                == *old(self),
            !bound(old(self).eps(), addr) ==> {
                &&& r == Ok::<usize, Error>((old(self).eps().len() as usize))
                &&& final(self).eps().len() == old(self).eps().len() + 1
                &&& final(self).eps().drop_last() == old(self).eps()
                &&& final(self).eps().last().addr == addr
                &&& final(self).eps().last().only_v6 == addr.spec_is_v6()
                &&& final(self).eps().last().inbox@.len() == 0
                &&& final(self).spec_congested() == old(self).spec_congested()
            },
    {
        let n = self.endpoints.len();
        let mut i: usize = 0;
        while i < n
            invariant
                self.endpoints == old(self).endpoints,
                self.congested == old(self).congested,
                old(self).wf(),
                n == self.endpoints.len(),
                i <= n,
                forall|k: int| 0 <= k < i ==> (#[trigger] self.eps()[k]).addr != addr,
            decreases n - i,
        {
            if self.endpoints[i].addr == addr {
                return Err(Error);
            }
            i += 1;
        }
        let only_v6 = addr.is_v6();
        self.endpoints.push(Endpoint { addr, only_v6, inbox: Vec::new() });
        Ok(n)
    }

    /// The address that endpoint `h` is bound to. Querying a handle that
    /// `bind` never returned is a programmer error, excluded by the
    /// precondition.
    pub fn local_address(&self, h: usize) -> (r: SocketAddress)
        requires
            h < self.eps().len(),
        ensures
            r == self.eps()[h as int].addr,
    {
        self.endpoints[h].addr
    }

    /// Non-blocking send of `buf` from endpoint `h` to `dest`. Under
    /// congestion it accepts zero bytes — retry later, never a failure.
    /// Otherwise the whole buffer is accepted: it is delivered to the
    /// endpoint bound to `dest` that accepts it, and silently dropped when
    /// there is none — an unreachable destination is not a send error.
    pub fn try_send(&mut self, h: usize, buf: &Vec<u8>, dest: SocketAddress) -> (r: usize)
        requires
            old(self).wf(),
            h < old(self).eps().len(),
        ensures
            final(self).wf(),
            final(self).spec_congested() == old(self).spec_congested(),
            old(self).spec_congested() ==> r == 0 && *final(self) == *old(self),
            !old(self).spec_congested() ==> r == buf@.len() && send_effect(
                old(self).eps(),
                final(self).eps(),
                h as int,
                buf@,
                dest,
            ),
    {
        if self.congested {
            return 0;
        }
        let from = self.endpoints[h].addr;
        let n = self.endpoints.len();
        let mut i: usize = 0;
        while i < n
            invariant
                self.endpoints == old(self).endpoints,
                self.congested == old(self).congested,
                old(self).wf(),
                !old(self).congested,
                h < old(self).eps().len(),
                from == old(self).eps()[h as int].addr,
                n == self.endpoints.len(),
                i <= n,
                forall|k: int| 0 <= k < i ==> !accepts(#[trigger] self.eps()[k], dest),
            decreases n - i,
        {
            let hit = self.endpoints[i].addr == dest && !(self.endpoints[i].only_v6
                && dest.is_v4_mapped());
            if hit {
                let ghost before: Seq<Endpoint> = self.endpoints@;
                let payload = copy_bytes(buf);
                let ep = &mut self.endpoints[i];
                ep.inbox.push(Datagram { from, payload });
                proof {
                    assert(self.eps()[i as int].inbox@.drop_last() =~= before[i as int].inbox@);
                    assert forall|j: int|
                        0 <= j < before.len() && j != i implies self.eps()[j] == before[j] by {}
                    assert forall|j: int|
                        0 <= j < before.len() && accepts(#[trigger] before[j], dest) implies j
                        == i by {
                        if j < i {
                            assert(!accepts(before[j], dest));
                        }
                        if j > i {
                            assert(before[j].addr != before[i as int].addr);
                        }
                    }
                }
                return buf.len();
            }
            i += 1;
        }
        buf.len()
    }

    /// Non-blocking receive on endpoint `h` into `buf`. Returns
    /// `Some((n, source))` when a pending datagram of `n > 0` bytes was read
    /// — truncated to the length of `buf` — with its first `n` bytes written
    /// over the front of `buf`. Returns `None` when nothing is pending or
    /// the pending datagram is zero-length; both mean "nothing of interest
    /// arrived", and the zero-length datagram is still consumed.
    pub fn try_recv(&mut self, h: usize, buf: &mut Vec<u8>) -> (r: Option<(usize, SocketAddress)>)
        requires
            old(self).wf(),
            h < old(self).eps().len(),
        ensures
            final(self).wf(),
            final(self).spec_congested() == old(self).spec_congested(),
            final(self).eps().len() == old(self).eps().len(),
            forall|j: int|
                0 <= j < old(self).eps().len() && j != h ==> final(self).eps()[j] == (
                #[trigger] old(self).eps()[j]),
            same_binding(final(self).eps()[h as int], old(self).eps()[h as int]),
            old(self).eps()[h as int].inbox@.len() == 0 ==> r is None && *final(self) == *old(
                self,
            ) && final(buf)@ == old(buf)@,
            old(self).eps()[h as int].inbox@.len() > 0 ==> {
                let d = old(self).eps()[h as int].inbox@[0];
                let n = vstd::math::min(d.payload@.len() as int, old(buf)@.len() as int);
                &&& final(self).eps()[h as int].inbox@ == old(self).eps()[h as int].inbox@.drop_first()
                &&& d.payload@.len() == 0 ==> r is None && final(buf)@ == old(buf)@
                &&& d.payload@.len() > 0 ==> r == Some((n as usize, d.from)) && final(buf)@
                    == d.payload@.take(n) + old(buf)@.skip(n)
            },
    {
        let inbox_len = self.endpoints[h].inbox.len();
        if inbox_len == 0 {
            return None;
        }
        let ghost before: Seq<Endpoint> = self.endpoints@;
        let ep = &mut self.endpoints[h];
        let d = ep.inbox.remove(0);
        if d.payload.len() == 0 {
            return None;
        }
        let n = if d.payload.len() < buf.len() {
            d.payload.len()
        } else {
            buf.len()
        };
        let mut out: Vec<u8> = Vec::new();
        let mut i: usize = 0;
        while i < n
            invariant
                i <= n,
                n <= d.payload@.len(),
                out@ =~= d.payload@.take(i as int),
            decreases n - i,
        {
            out.push(d.payload[i]);
            i += 1;
        }
        let buf_len = buf.len();
        let mut j: usize = n;
        while j < buf_len
            invariant
                n <= j <= buf_len,
                buf_len == buf@.len(),
                n <= buf_len,
                out@ =~= d.payload@.take(n as int) + buf@.subrange(n as int, j as int),
            decreases buf_len - j,
        {
            out.push(buf[j]);
            j += 1;
        }
        proof {
            assert(out@ =~= d.payload@.take(n as int) + buf@.skip(n as int));
        }
        *buf = out;
        Some((n, d.from))
    }
}

/// Law: a send whose destination no endpoint accepts delivers nothing — the
/// network is exactly as it was. In particular an endpoint whose inbox was
/// empty still has an empty inbox, so receiving on the sender after sending
/// to an address with no listener keeps returning `None`, however often it
/// is tried.
pub proof fn lemma_send_without_listener_changes_nothing(
    before: Seq<Endpoint>,
    after: Seq<Endpoint>,
    sender: int,
    payload: Seq<u8>,
    dest: SocketAddress,
)
    requires
        send_effect(before, after, sender, payload, dest),
        forall|j: int| 0 <= j < before.len() ==> !accepts(#[trigger] before[j], dest),
    ensures
        after =~= before,
{
}

/// Law: the IPv6-only binding rule — an endpoint bound IPv6-only never has a
/// datagram addressed in IPv4-mapped form delivered to it; a send of such a
/// datagram leaves the endpoint exactly as it was.
pub proof fn lemma_v6_only_rejects_v4_mapped(
    before: Seq<Endpoint>,
    after: Seq<Endpoint>,
    sender: int,
    payload: Seq<u8>,
    dest: SocketAddress,
    j: int,
)
    requires
        send_effect(before, after, sender, payload, dest),
        0 <= j < before.len(),
        before[j].only_v6,
        dest.spec_is_v4_mapped(),
    ensures
        after[j] == before[j],
{
}

/// Copies a byte buffer.
fn copy_bytes(src: &Vec<u8>) -> (r: Vec<u8>)
    ensures
        r@ == src@,
{
    let mut r: Vec<u8> = Vec::new();
    let len = src.len();
    let mut i: usize = 0;
    while i < len
        invariant
            i <= len,
            len == src@.len(),
            r@ =~= src@.take(i as int),
        decreases len - i,
    {
        r.push(src[i]);
        i += 1;
    }
    proof {
        assert(r@ =~= src@);
    }
    r
}

} // verus!
