//! What the server does with voice: it remembers every client that sent a
//! data packet, queues the audio it received, and hands each queued piece of
//! audio to every known client except the one it came from.
use vstd::prelude::*;

use crate::config::Endpoint;
use crate::error::{PacketError, PulseError};
use crate::packet::{kind_name, recv, spec_decode, spec_encode, Packet, PacketKind, PacketView};

verus! {

/// Distribution rounds per second.
pub const TICK_RATE: u64 = 128;

/// The pause between two distribution rounds at `tick_rate` rounds per
/// second, in nanoseconds.
pub fn tick_interval_nanos(tick_rate: u64) -> (r: u64)
    requires
        tick_rate > 0,
    ensures
        r == 1_000_000_000u64 / tick_rate,
{
    1_000_000_000 / tick_rate
}

/// Audio received from a client, waiting to be passed on.
pub struct Update {
    pub data: Vec<u8>,
    pub from: Endpoint,
}

/// Bytes to send to one client.
pub struct Outgoing {
    pub to: Endpoint,
    pub bytes: Vec<u8>,
}

impl View for Outgoing {
    type V = (Endpoint, Seq<u8>);

    open spec fn view(&self) -> (Endpoint, Seq<u8>) {
        (self.to, self.bytes@)
    }
}

/// The clients a server knows, in the order they first spoke, and the audio
/// waiting to be passed on.
pub struct Relay {
    clients: Vec<Endpoint>,
    pending: Vec<Update>,
}

/// A relay as mathematical values.
pub struct RelayView {
    pub clients: Seq<Endpoint>,
    pub pending: Seq<(Seq<u8>, Endpoint)>,
}

impl View for Relay {
    type V = RelayView;

    closed spec fn view(&self) -> RelayView {
        RelayView {
            clients: self.clients@,
            pending: self.pending@.map_values(|u: Update| (u.data@, u.from)),
        }
    }
}

/// The clients after `c` spoke: `c` is added at the end unless it is known.
pub open spec fn registered(clients: Seq<Endpoint>, c: Endpoint) -> Seq<Endpoint> {
    if clients.contains(c) {
        clients
    } else {
        clients.push(c)
    }
}

/// The sends that pass `bytes` from `from` on: one to each of `clients`
/// other than `from`, in the order of `clients`.
pub open spec fn deliveries(clients: Seq<Endpoint>, from: Endpoint, bytes: Seq<u8>) -> Seq<
    (Endpoint, Seq<u8>),
>
    decreases clients.len(),
{
    if clients.len() == 0 {
        Seq::empty()
    } else {
        let earlier = deliveries(clients.drop_last(), from, bytes);
        if clients.last() != from {
            earlier.push((clients.last(), bytes))
        } else {
            earlier
        }
    }
}

/// All the sends for the queued audio, update after update.
pub open spec fn fanout(clients: Seq<Endpoint>, pending: Seq<(Seq<u8>, Endpoint)>) -> Seq<
    (Endpoint, Seq<u8>),
>
    decreases pending.len(),
{
    if pending.len() == 0 {
        Seq::empty()
    } else {
        let u = pending.last();
        fanout(clients, pending.drop_last()) + deliveries(
            clients,
            u.1,
            spec_encode(PacketView::Data(u.0)),
        )
    }
}

/// The clients that stay when the ones in `failed` are dropped, in order.
pub open spec fn remaining(clients: Seq<Endpoint>, failed: Seq<Endpoint>) -> Seq<Endpoint>
    decreases clients.len(),
{
    if clients.len() == 0 {
        Seq::empty()
    } else {
        let earlier = remaining(clients.drop_last(), failed);
        if failed.contains(clients.last()) {
            earlier
        } else {
            earlier.push(clients.last())
        }
    }
}

/// A client that speaks is known afterwards, and clients stay distinct.
pub proof fn lemma_registered_no_duplicates(clients: Seq<Endpoint>, c: Endpoint)
    requires
        clients.no_duplicates(),
    ensures
        registered(clients, c).no_duplicates(),
        registered(clients, c).contains(c),
{
    if !clients.contains(c) {
        let r = clients.push(c);
        assert(r[clients.len() as int] == c);
        assert forall|i: int, j: int| 0 <= i < r.len() && 0 <= j < r.len() && i != j implies r[i]
            != r[j] by {
            if i < clients.len() && j < clients.len() {
            } else if i < clients.len() {
                assert(clients.contains(r[i]));
            } else {
                assert(clients.contains(r[j]));
            }
        }
    }
}

/// Audio reaches exactly the known clients other than its sender: a send to
/// `to` with bytes `b` is among the deliveries iff `to` is a known client,
/// `to` is not the sender, and `b` are the bytes passed on.
pub proof fn lemma_deliveries_members(
    clients: Seq<Endpoint>,
    from: Endpoint,
    bytes: Seq<u8>,
    to: Endpoint,
    b: Seq<u8>,
)
    ensures
        deliveries(clients, from, bytes).contains((to, b)) <==> (clients.contains(to) && to
            != from && b == bytes),
    decreases clients.len(),
{
    if clients.len() > 0 {
        let init = clients.drop_last();
        lemma_deliveries_members(init, from, bytes, to, b);
        let earlier = deliveries(init, from, bytes);
        assert(clients =~= init.push(clients.last()));
        if clients.contains(to) && !init.contains(to) {
            let i = choose|i: int| 0 <= i < clients.len() && clients[i] == to;
            if i < init.len() {
                assert(init[i] == to);
            }
        }
        if init.contains(to) {
            let i = choose|i: int| 0 <= i < init.len() && init[i] == to;
            assert(clients[i] == to);
        }
        if clients.last() != from {
            let r = earlier.push((clients.last(), bytes));
            assert(r[earlier.len() as int] == (clients.last(), bytes));
            if r.contains((to, b)) && !earlier.contains((to, b)) {
                let i = choose|i: int| 0 <= i < r.len() && r[i] == (to, b);
                if i < earlier.len() {
                    assert(earlier[i] == (to, b));
                }
            }
            if earlier.contains((to, b)) {
                let i = choose|i: int| 0 <= i < earlier.len() && earlier[i] == (to, b);
                assert(r[i] == (to, b));
            }
        }
    }
}

/// Registering a speaker keeps every known client in its place and adds
/// the speaker at the end if it was unknown: afterwards the known clients
/// are exactly the earlier ones and the speaker.
pub proof fn lemma_registered_members(clients: Seq<Endpoint>, c: Endpoint, x: Endpoint)
    ensures
        registered(clients, c).contains(x) <==> (clients.contains(x) || x == c),
        registered(clients, c).len() >= clients.len(),
        registered(clients, c).take(clients.len() as int) == clients,
{
    let r = registered(clients, c);
    if !clients.contains(c) {
        assert(r[clients.len() as int] == c);
        if clients.contains(x) {
            let i = choose|i: int| 0 <= i < clients.len() && clients[i] == x;
            assert(r[i] == x);
        }
        if r.contains(x) && x != c {
            let i = choose|i: int| 0 <= i < r.len() && r[i] == x;
            assert(clients[i] == x);
        }
    }
    assert(r.take(clients.len() as int) =~= clients);
}

/// Concatenation holds what either part holds.
proof fn lemma_concat_contains<T>(a: Seq<T>, b: Seq<T>, x: T)
    ensures
        (a + b).contains(x) <==> (a.contains(x) || b.contains(x)),
{
    let s = a + b;
    if s.contains(x) {
        let i = choose|i: int| 0 <= i < s.len() && s[i] == x;
        if i < a.len() {
            assert(a[i] == x);
        } else {
            assert(b[i - a.len()] == x);
        }
    }
    if a.contains(x) {
        let i = choose|i: int| 0 <= i < a.len() && a[i] == x;
        assert(s[i] == x);
    }
    if b.contains(x) {
        let i = choose|i: int| 0 <= i < b.len() && b[i] == x;
        assert(s[a.len() + i] == x);
    }
}

/// Holds of every client other than `from`.
pub open spec fn other_than(from: Endpoint) -> spec_fn(Endpoint) -> bool {
    |c: Endpoint| c != from
}

/// Pairs a client with `bytes`.
pub open spec fn paired_with(bytes: Seq<u8>) -> spec_fn(Endpoint) -> (Endpoint, Seq<u8>) {
    |c: Endpoint| (c, bytes)
}

/// The sends for one piece of audio are the known clients other than its
/// sender, kept in their order, each paired with the bytes.
pub proof fn lemma_deliveries_filter(clients: Seq<Endpoint>, from: Endpoint, bytes: Seq<u8>)
    ensures
        deliveries(clients, from, bytes) == clients.filter(other_than(from)).map_values(
            paired_with(bytes),
        ),
    decreases clients.len(),
{
    let f = other_than(from);
    let g = paired_with(bytes);
    if clients.len() == 0 {
        reveal_with_fuel(Seq::<Endpoint>::filter, 1);
        assert(clients.filter(f) =~= Seq::<Endpoint>::empty());
        assert(clients.filter(f).map_values(g) =~= Seq::<(Endpoint, Seq<u8>)>::empty());
    } else {
        lemma_deliveries_filter(clients.drop_last(), from, bytes);
        reveal_with_fuel(Seq::<Endpoint>::filter, 1);
        let rest = clients.drop_last().filter(f);
        assert(clients.filter(f) == (if f(clients.last()) {
            rest.push(clients.last())
        } else {
            rest
        }));
        if f(clients.last()) {
            assert(rest.push(clients.last()).map_values(g) =~= rest.map_values(g).push(
                (clients.last(), bytes),
            ));
        }
    }
}

/// Passing on one more queued piece of audio adds, after the earlier sends,
/// one send of its data packet to each known client other than its sender.
pub proof fn lemma_fanout_push(
    clients: Seq<Endpoint>,
    pending: Seq<(Seq<u8>, Endpoint)>,
    u: (Seq<u8>, Endpoint),
)
    ensures
        fanout(clients, pending.push(u)) == fanout(clients, pending) + clients.filter(
            other_than(u.1),
        ).map_values(paired_with(spec_encode(PacketView::Data(u.0)))),
{
    let p2 = pending.push(u);
    assert(p2.drop_last() =~= pending);
    assert(p2.last() == u);
    let bytes = spec_encode(PacketView::Data(u.0));
    assert(fanout(clients, p2) == fanout(clients, pending) + deliveries(clients, u.1, bytes));
    lemma_deliveries_filter(clients, u.1, bytes);
}

/// Every queued piece of audio goes to every known client other than its
/// sender, and nothing else is sent: a send to `to` with bytes `b` is among
/// the sends iff some queued piece came from a client other than `to`, `to`
/// is known, and `b` is that piece's data packet.
pub proof fn lemma_fanout_members(
    clients: Seq<Endpoint>,
    pending: Seq<(Seq<u8>, Endpoint)>,
    to: Endpoint,
    b: Seq<u8>,
)
    ensures
        fanout(clients, pending).contains((to, b)) <==> exists|k: int|
            0 <= k < pending.len() && clients.contains(to) && to != #[trigger] pending[k].1 && b
                == spec_encode(PacketView::Data(pending[k].0)),
    decreases pending.len(),
{
    if pending.len() > 0 {
        let init = pending.drop_last();
        let u = pending.last();
        let bytes = spec_encode(PacketView::Data(u.0));
        lemma_fanout_members(clients, init, to, b);
        lemma_deliveries_members(clients, u.1, bytes, to, b);
        lemma_concat_contains(fanout(clients, init), deliveries(clients, u.1, bytes), (to, b));
        if fanout(clients, pending).contains((to, b)) {
            if fanout(clients, init).contains((to, b)) {
                let k = choose|k: int|
                    0 <= k < init.len() && clients.contains(to) && to != #[trigger] init[k].1 && b
                        == spec_encode(PacketView::Data(init[k].0));
                assert(pending[k] == init[k]);
            } else {
                assert(pending[pending.len() - 1] == u);
            }
        }
        if exists|k: int|
            0 <= k < pending.len() && clients.contains(to) && to != #[trigger] pending[k].1 && b
                == spec_encode(PacketView::Data(pending[k].0)) {
            let k = choose|k: int|
                0 <= k < pending.len() && clients.contains(to) && to != #[trigger] pending[k].1 && b
                    == spec_encode(PacketView::Data(pending[k].0));
            if k < init.len() {
                assert(init[k] == pending[k]);
            }
        }
    }
}

/// No client gets the same piece of audio twice.
pub proof fn lemma_deliveries_no_duplicates(clients: Seq<Endpoint>, from: Endpoint, bytes: Seq<u8>)
    requires
        clients.no_duplicates(),
    ensures
        deliveries(clients, from, bytes).no_duplicates(),
    decreases clients.len(),
{
    if clients.len() > 0 {
        let init = clients.drop_last();
        assert(init.no_duplicates());
        lemma_deliveries_no_duplicates(init, from, bytes);
        let earlier = deliveries(init, from, bytes);
        if clients.last() != from {
            lemma_deliveries_members(init, from, bytes, clients.last(), bytes);
            if init.contains(clients.last()) {
                let i = choose|i: int| 0 <= i < init.len() && init[i] == clients.last();
                assert(clients[i] == clients[clients.len() - 1]);
            }
            let r = earlier.push((clients.last(), bytes));
            assert forall|i: int, j: int| 0 <= i < r.len() && 0 <= j < r.len() && i != j implies r[i]
                != r[j] by {
                if i < earlier.len() && j < earlier.len() {
                } else if i < earlier.len() {
                    assert(earlier.contains(r[i]));
                } else {
                    assert(earlier.contains(r[j]));
                }
            }
        }
    }
}

/// What `remaining` keeps: the clients not in `failed`.
pub proof fn lemma_remaining_members(clients: Seq<Endpoint>, failed: Seq<Endpoint>, c: Endpoint)
    ensures
        remaining(clients, failed).contains(c) <==> (clients.contains(c) && !failed.contains(c)),
    decreases clients.len(),
{
    if clients.len() > 0 {
        let init = clients.drop_last();
        lemma_remaining_members(init, failed, c);
        let earlier = remaining(init, failed);
        assert(clients =~= init.push(clients.last()));
        if clients.contains(c) && !init.contains(c) {
            let i = choose|i: int| 0 <= i < clients.len() && clients[i] == c;
            if i < init.len() {
                assert(init[i] == c);
            }
        }
        if init.contains(c) {
            let i = choose|i: int| 0 <= i < init.len() && init[i] == c;
            assert(clients[i] == c);
        }
        if !failed.contains(clients.last()) {
            let r = earlier.push(clients.last());
            assert(r[earlier.len() as int] == clients.last());
            if r.contains(c) && !earlier.contains(c) {
                let i = choose|i: int| 0 <= i < r.len() && r[i] == c;
                if i < earlier.len() {
                    assert(earlier[i] == c);
                }
            }
            if earlier.contains(c) {
                let i = choose|i: int| 0 <= i < earlier.len() && earlier[i] == c;
                assert(r[i] == c);
            }
        }
    }
}

/// `remaining` keeps clients distinct.
pub proof fn lemma_remaining_no_duplicates(clients: Seq<Endpoint>, failed: Seq<Endpoint>)
    requires
        clients.no_duplicates(),
    ensures
        remaining(clients, failed).no_duplicates(),
    decreases clients.len(),
{
    if clients.len() > 0 {
        let init = clients.drop_last();
        assert(init.no_duplicates());
        lemma_remaining_no_duplicates(init, failed);
        let earlier = remaining(init, failed);
        if !failed.contains(clients.last()) {
            lemma_remaining_members(init, failed, clients.last());
            if init.contains(clients.last()) {
                let i = choose|i: int| 0 <= i < init.len() && init[i] == clients.last();
                assert(clients[i] == clients[clients.len() - 1]);
            }
            let r = earlier.push(clients.last());
            assert forall|i: int, j: int| 0 <= i < r.len() && 0 <= j < r.len() && i != j implies r[i]
                != r[j] by {
                if i < earlier.len() && j < earlier.len() {
                } else if i < earlier.len() {
                    assert(earlier.contains(r[i]));
                } else {
                    assert(earlier.contains(r[j]));
                }
            }
        }
    }
}

impl Relay {
    /// The relay keeps each client once.
    pub closed spec fn wf(&self) -> bool {
        self.clients@.no_duplicates()
    }

    /// A relay that knows no client and holds no audio.
    pub fn new() -> (r: Relay)
        ensures
            r.wf(),
            r@.clients == Seq::<Endpoint>::empty(),
            r@.pending == Seq::<(Seq<u8>, Endpoint)>::empty(),
    {
        let r = Relay { clients: Vec::new(), pending: Vec::new() };
        assert(r@.pending =~= Seq::<(Seq<u8>, Endpoint)>::empty());
        r
    }

    /// The clients, in the order they first spoke.
    pub fn clients(&self) -> (r: &[Endpoint])
        ensures
            r@ == self@.clients,
    {
        self.clients.as_slice()
    }

    /// Takes a datagram from `from`. A data packet makes `from` a known
    /// client and queues its audio; anything else is refused with the error
    /// that reading it gave, and changes nothing.
    pub fn on_datagram(&mut self, bytes: &[u8], from: Endpoint) -> (r: Result<(), PulseError>)
        requires
            old(self).wf(),
        ensures
            final(self).wf(),
            match spec_decode(bytes@) {
                Ok(PacketView::Data(d)) => {
                    &&& r is Ok
                    &&& final(self)@.clients == registered(old(self)@.clients, from)
                    &&& final(self)@.clients.contains(from)
                    &&& forall|c: Endpoint| #[trigger]
                        old(self)@.clients.contains(c) ==> final(self)@.clients.contains(c)
                    &&& final(self)@.pending == old(self)@.pending.push((d, from))
                },
                Ok(PacketView::Ping) => {
                    &&& r matches Err(PulseError::Packet(PacketError::Unexpected { lhs, rhs }))
                    &&& lhs@ == kind_name(PacketKind { data: true, ping: false })
                    &&& rhs@ == kind_name(PacketKind { data: false, ping: true })
                    &&& final(self)@ == old(self)@
                },
                Err(e) => {
                    &&& r matches Err(PulseError::Json(f)) && f == e
                    &&& final(self)@ == old(self)@
                },
            },
    {
        match recv(bytes, PacketKind::data_only()) {
            Ok(Packet::Data(data)) => {
                proof {
                    lemma_registered_no_duplicates(self.clients@, from);
                    assert forall|c: Endpoint| #[trigger]
                        old(self)@.clients.contains(c) implies registered(old(self)@.clients, from).contains(c) by {
                        lemma_registered_members(old(self)@.clients, from, c);
                    }
                }
                if !slice_contains(self.clients.as_slice(), from) {
                    self.clients.push(from);
                }
                let ghost before = self.pending@;
                self.pending.push(Update { data, from });
                proof {
                    assert(self.pending@.map_values(|u: Update| (u.data@, u.from)) =~= before.map_values(
                        |u: Update| (u.data@, u.from),
                    ).push((data@, from)));
                }
                Ok(())
            },
            Ok(Packet::Ping) => {
                proof {
                    assert(false);
                }
                Ok(())
            },
            Err(e) => Err(e),
        }
    }

    /// Takes the queued audio out and returns the sends that pass it on:
    /// each piece, as a data packet, to every known client except its sender.
    pub fn dispatch(&mut self) -> (out: Vec<Outgoing>)
        requires
            old(self).wf(),
        ensures
            final(self).wf(),
            final(self)@.clients == old(self)@.clients,
            final(self)@.pending == Seq::<(Seq<u8>, Endpoint)>::empty(),
            out@.map_values(|o: Outgoing| o@) == fanout(old(self)@.clients, old(self)@.pending),
    {
        let ghost clients = self.clients@;
        let ghost pending = self@.pending;
        let mut out: Vec<Outgoing> = Vec::new();
        let n = self.pending.len();
        let mut i: usize = 0;
        while i < n
            invariant
                n == self.pending.len(),
                i <= n,
                clients == self.clients@,
                pending == self@.pending,
                pending == self.pending@.map_values(|u: Update| (u.data@, u.from)),
                out@.map_values(|o: Outgoing| o@) == fanout(clients, pending.take(i as int)),
            decreases n - i,
        {
            let from = self.pending[i].from;
            let packet = Packet::Data(self.pending[i].data.clone());
            let bytes = packet.encode();
            let ghost before = out@.map_values(|o: Outgoing| o@);
            let m = self.clients.len();
            let mut j: usize = 0;
            while j < m
                invariant
                    m == self.clients.len(),
                    j <= m,
                    clients == self.clients@,
                    out@.map_values(|o: Outgoing| o@) == before + deliveries(
                        clients.take(j as int),
                        from,
                        bytes@,
                    ),
                decreases m - j,
            {
                let to = self.clients[j];
                let ghost prev = out@;
                assert(clients.take(j + 1).drop_last() =~= clients.take(j as int));
                if to != from {
                    out.push(Outgoing { to, bytes: bytes.clone() });
                    assert(out@.map_values(|o: Outgoing| o@) =~= prev.map_values(|o: Outgoing| o@).push(
                        (to, bytes@),
                    ));
                }
                j = j + 1;
            }
            assert(clients.take(m as int) =~= clients);
            assert(pending.take(i + 1).drop_last() =~= pending.take(i as int));
            assert(pending[i as int] == (self.pending@[i as int].data@, from));
            i = i + 1;
        }
        assert(pending.take(n as int) =~= pending);
        self.pending = Vec::new();
        assert(self@.pending =~= Seq::<(Seq<u8>, Endpoint)>::empty());
        out
    }

    /// Forgets the clients in `failed`; the others stay, in order.
    pub fn disconnect(&mut self, failed: &[Endpoint])
        requires
            old(self).wf(),
        ensures
            final(self).wf(),
            final(self)@.clients == remaining(old(self)@.clients, failed@),
            final(self)@.pending == old(self)@.pending,
    {
        let ghost clients = self.clients@;
        let mut kept: Vec<Endpoint> = Vec::new();
        let n = self.clients.len();
        let mut i: usize = 0;
        while i < n
            invariant
                n == self.clients.len(),
                i <= n,
                clients == self.clients@,
                kept@ == remaining(clients.take(i as int), failed@),
            decreases n - i,
        {
            let c = self.clients[i];
            assert(clients.take(i + 1).drop_last() =~= clients.take(i as int));
            if !slice_contains(failed, c) {
                kept.push(c);
            }
            i = i + 1;
        }
        assert(clients.take(n as int) =~= clients);
        proof {
            lemma_remaining_no_duplicates(clients, failed@);
        }
        self.clients = kept;
    }
}

fn slice_contains(s: &[Endpoint], c: Endpoint) -> (r: bool)
    ensures
        r == s@.contains(c),
{
    let mut i: usize = 0;
    while i < s.len()
        invariant
            i <= s.len(),
            forall|k: int| 0 <= k < i ==> s@[k] != c,
        decreases s.len() - i,
    {
        if s[i] == c {
            return true;
        }
        i = i + 1;
    }
    false
}

} // verus!
