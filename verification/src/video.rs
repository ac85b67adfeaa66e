//! The video fan-out logic: nonce generation, the UDP handshake decision,
//! the per-client branch bookkeeping, and the element names and properties
//! used when a branch is spliced into the running media graph.

use vstd::prelude::*;
use rand::Rng;
use crate::json::lit_bytes;
use crate::netfmt::{endpoint_bytes, ipv4_bytes, ipv6_bytes, push_endpoint, push_ipv4, push_ipv6};
use crate::numfmt::{dec_nat, push_dec_u64};
use crate::types::{Endpoint, IpAddress, Message, MessageContent, MessageSource};

verus! {

/// An ASCII letter or digit.
pub open spec fn is_alnum_byte(b: u8) -> bool {
    (0x30 <= b <= 0x39) || (0x41 <= b <= 0x5a) || (0x61 <= b <= 0x7a)
}

/// Relies on rand's Alphanumeric distribution: every sampled byte is an
/// ASCII letter or digit. Nothing else is assumed of the values.
#[verifier::external_body]
fn sample_nonce_bytes() -> (r: Vec<u8>)
    ensures
        r@.len() == 32,
        forall|i: int| 0 <= i < 32 ==> is_alnum_byte(r@[i]),
{
    rand::thread_rng().sample_iter(&rand::distributions::Alphanumeric).take(32).collect()
}

/// Draws a fresh 32-byte alphanumeric nonce and builds the video offer that
/// advertises it to the one client the handshake is for.
pub fn make_video_offer(for_client: Endpoint, rtp_address: Endpoint) -> (r: (Message, Vec<u8>))
    ensures
        r.1@.len() == 32,
        forall|i: int| 0 <= i < 32 ==> is_alnum_byte(r.1@[i]),
        r.0.source == MessageSource::VideoServer,
        r.0.content matches MessageContent::VideoOffer {
            nonce,
            for_client: fc,
            rtp_address: ra,
        } && nonce@ == r.1@ && fc == for_client && ra == rtp_address,
{
    let nonce = sample_nonce_bytes();
    let copy = crate::types::clone_bytes(&nonce);
    let msg = Message {
        content: MessageContent::VideoOffer { nonce: copy, for_client, rtp_address },
        source: MessageSource::VideoServer,
    };
    (msg, nonce)
}

/// What a received handshake datagram means: a datagram from the wrong IP is
/// ignored and the handshake stays pending; from the right IP, the exact
/// nonce completes the handshake and anything else aborts it.
#[derive(Clone, Copy, PartialEq, Eq, Structural, Debug)]
pub enum HandshakeVerdict {
    Ignore,
    Accept,
    Reject,
}

/// The handshake decision as a function of the expected nonce, the client's
/// IP, and the datagram with its sender.
pub open spec fn handshake_decision(
    nonce: Seq<u8>,
    client_ip: IpAddress,
    sender_ip: IpAddress,
    datagram: Seq<u8>,
) -> HandshakeVerdict {
    if sender_ip != client_ip {
        HandshakeVerdict::Ignore
    } else if datagram == nonce {
        HandshakeVerdict::Accept
    } else {
        HandshakeVerdict::Reject
    }
}

/// Whether two byte strings hold the same bytes.
fn bytes_eq(a: &[u8], b: &[u8]) -> (r: bool)
    ensures
        r == (a@ == b@),
{
    if a.len() != b.len() {
        proof {
            assert(a@.len() != b@.len());
        }
        return false;
    }
    let n = a.len();
    let mut i: usize = 0;
    while i < n
        invariant
            i <= n,
            n == a@.len(),
            n == b@.len(),
            forall|j: int| 0 <= j < i ==> a@[j] == b@[j],
        decreases n - i,
    {
        if a[i] != b[i] {
            return false;
        }
        i = i + 1;
    }
    proof {
        assert(a@ =~= b@);
    }
    true
}

/// Judges one handshake datagram.
pub fn handshake_verdict(
    nonce: &[u8],
    client_ip: IpAddress,
    sender_ip: IpAddress,
    datagram: &[u8],
) -> (v: HandshakeVerdict)
    ensures
        v == handshake_decision(nonce@, client_ip, sender_ip, datagram@),
{
    if !(sender_ip == client_ip) {
        HandshakeVerdict::Ignore
    } else if bytes_eq(datagram, nonce) {
        HandshakeVerdict::Accept
    } else {
        HandshakeVerdict::Reject
    }
}

/// Where a client's branch stands: a handshake under way, or streaming.
/// A client with no entry has no branch.
#[derive(Clone, Copy, PartialEq, Eq, Structural, Debug)]
pub enum BranchPhase {
    HandshakePending,
    Streaming,
}

/// One client's branch record.
pub struct Branch {
    pub address: Endpoint,
    pub phase: BranchPhase,
}

/// The per-client branch bookkeeping of the video component.
pub struct BranchTable {
    branches: Vec<Branch>,
}

impl BranchTable {
    /// The branch records, in order of arrival.
    pub closed spec fn branches(self) -> Seq<Branch> {
        self.branches@
    }

    /// Whether a client has a branch record.
    pub open spec fn contains_address(self, a: Endpoint) -> bool {
        exists|i: int| 0 <= i < self.branches().len() && self.branches()[i].address == a
    }

    /// The phase of a client's branch, if it has one.
    pub open spec fn phase_of(self, a: Endpoint) -> Option<BranchPhase> {
        if exists|i: int| 0 <= i < self.branches().len() && self.branches()[i].address == a {
            Some(
                self.branches()[choose|i: int|
                    0 <= i < self.branches().len() && self.branches()[i].address == a].phase,
            )
        } else {
            None
        }
    }

    /// No two records share an address.
    pub open spec fn wf(self) -> bool {
        forall|i: int, j: int|
            0 <= i < j < self.branches().len() ==> self.branches()[i].address != self.branches()[j].address
    }

    /// An empty table.
    pub fn new() -> (t: BranchTable)
        ensures
            t.wf(),
            t.branches().len() == 0,
    {
        BranchTable { branches: Vec::new() }
    }

    fn find(&self, a: Endpoint) -> (r: Option<usize>)
        ensures
            match r {
                Some(i) => i < self.branches().len() && self.branches()[i as int].address == a,
                None => !self.contains_address(a),
            },
    {
        let n = self.branches.len();
        let mut i: usize = 0;
        while i < n
            invariant
                i <= n,
                n == self.branches().len(),
                forall|j: int| 0 <= j < i ==> self.branches()[j].address != a,
            decreases n - i,
        {
            if self.branches[i].address == a {
                return Some(i);
            }
            i = i + 1;
        }
        None
    }

    /// A connected client starts a handshake; a client that already has a
    /// record keeps it unchanged.
    pub fn client_connected(&mut self, a: Endpoint) -> (started: bool)
        requires
            old(self).wf(),
        ensures
            final(self).wf(),
            started == !old(self).contains_address(a),
            final(self).phase_of(a) == (if started {
                Some(BranchPhase::HandshakePending)
            } else {
                old(self).phase_of(a)
            }),
            forall|b: Endpoint| b != a ==> final(self).phase_of(b) == old(self).phase_of(b),
    {
        let found = self.find(a);
        match found {
            Some(_) => false,
            None => {
                self.branches.push(Branch { address: a, phase: BranchPhase::HandshakePending });
                proof {
                    lemma_phase_after_push(*old(self), *self, a);
                }
                true
            },
        }
    }

    /// A completed handshake moves the client's branch to streaming; nothing
    /// happens for a client without a pending handshake.
    pub fn handshake_accepted(&mut self, a: Endpoint) -> (streaming: bool)
        requires
            old(self).wf(),
        ensures
            final(self).wf(),
            streaming == (old(self).phase_of(a) == Some(BranchPhase::HandshakePending)),
            old(self).contains_address(a) ==> final(self).phase_of(a) == Some(
                BranchPhase::Streaming,
            ),
            !old(self).contains_address(a) ==> final(self).phase_of(a) is None,
            forall|b: Endpoint| b != a ==> final(self).phase_of(b) == old(self).phase_of(b),
    {
        let found = self.find(a);
        match found {
            Some(i) => {
                let was_pending = match self.branches[i].phase {
                    BranchPhase::HandshakePending => true,
                    BranchPhase::Streaming => false,
                };
                let entry = &mut self.branches[i];
                entry.phase = BranchPhase::Streaming;
                proof {
                    lemma_phase_after_update(*old(self), *self, a, i as int);
                }
                was_pending
            },
            None => false,
        }
    }

    /// A disconnected client's record is dropped; detaching a client with no
    /// record changes nothing.
    pub fn client_disconnected(&mut self, a: Endpoint) -> (had_branch: bool)
        requires
            old(self).wf(),
        ensures
            final(self).wf(),
            had_branch == old(self).contains_address(a),
            final(self).phase_of(a) is None,
            forall|b: Endpoint| b != a ==> final(self).phase_of(b) == old(self).phase_of(b),
    {
        let found = self.find(a);
        match found {
            Some(i) => {
                self.branches.remove(i);
                proof {
                    lemma_phase_after_remove(*old(self), *self, a, i as int);
                }
                true
            },
            None => false,
        }
    }
}

proof fn lemma_phase_unique(t: BranchTable, a: Endpoint, i: int)
    requires
        t.wf(),
        0 <= i < t.branches().len(),
        t.branches()[i].address == a,
    ensures
        t.phase_of(a) == Some(t.branches()[i].phase),
{
    let w = choose|k: int| 0 <= k < t.branches().len() && t.branches()[k].address == a;
    if w != i {
        assert(t.branches()[w].address != t.branches()[i].address);
    }
}

proof fn lemma_phase_after_push(pre: BranchTable, post: BranchTable, a: Endpoint)
    requires
        pre.wf(),
        !pre.contains_address(a),
        post.branches() == pre.branches().push(Branch { address: a, phase: BranchPhase::HandshakePending }),
    ensures
        post.wf(),
        post.phase_of(a) == Some(BranchPhase::HandshakePending),
        forall|b: Endpoint| b != a ==> post.phase_of(b) == pre.phase_of(b),
{
    let n = pre.branches().len() as int;
    assert forall|i: int, j: int|
        0 <= i < j < post.branches().len() implies post.branches()[i].address
        != post.branches()[j].address by {
        if j < n {
            assert(pre.branches()[i].address != pre.branches()[j].address);
        }
    }
    lemma_phase_unique(post, a, n);
    assert forall|b: Endpoint| b != a implies post.phase_of(b) == pre.phase_of(b) by {
        if pre.contains_address(b) {
            let i = choose|i: int|
                0 <= i < pre.branches().len() && pre.branches()[i].address == b;
            lemma_phase_unique(pre, b, i);
            lemma_phase_unique(post, b, i);
        } else {
            assert(!post.contains_address(b));
        }
    }
}

proof fn lemma_phase_after_update(pre: BranchTable, post: BranchTable, a: Endpoint, i: int)
    requires
        pre.wf(),
        0 <= i < pre.branches().len(),
        pre.branches()[i].address == a,
        post.branches() == pre.branches().update(
            i,
            Branch { address: a, phase: BranchPhase::Streaming },
        ),
    ensures
        post.wf(),
        post.phase_of(a) == Some(BranchPhase::Streaming),
        pre.phase_of(a) == Some(pre.branches()[i].phase),
        forall|b: Endpoint| b != a ==> post.phase_of(b) == pre.phase_of(b),
{
    assert forall|p: int, q: int|
        0 <= p < q < post.branches().len() implies post.branches()[p].address
        != post.branches()[q].address by {
        assert(pre.branches()[p].address != pre.branches()[q].address);
    }
    lemma_phase_unique(post, a, i);
    lemma_phase_unique(pre, a, i);
    assert forall|b: Endpoint| b != a implies post.phase_of(b) == pre.phase_of(b) by {
        if pre.contains_address(b) {
            let k = choose|k: int|
                0 <= k < pre.branches().len() && pre.branches()[k].address == b;
            lemma_phase_unique(pre, b, k);
            lemma_phase_unique(post, b, k);
        } else {
            assert(!post.contains_address(b));
        }
    }
}

proof fn lemma_phase_after_remove(pre: BranchTable, post: BranchTable, a: Endpoint, i: int)
    requires
        pre.wf(),
        0 <= i < pre.branches().len(),
        pre.branches()[i].address == a,
        post.branches() == pre.branches().remove(i),
    ensures
        post.wf(),
        post.phase_of(a) is None,
        forall|b: Endpoint| b != a ==> post.phase_of(b) == pre.phase_of(b),
{
    assert forall|p: int, q: int|
        0 <= p < q < post.branches().len() implies post.branches()[p].address
        != post.branches()[q].address by {
        let p0 = if p < i {
            p
        } else {
            p + 1
        };
        let q0 = if q < i {
            q
        } else {
            q + 1
        };
        assert(pre.branches()[p0].address != pre.branches()[q0].address);
    }
    assert forall|k: int|
        0 <= k < post.branches().len() implies post.branches()[k].address != a by {
        let k0 = if k < i {
            k
        } else {
            k + 1
        };
        assert(post.branches()[k] == pre.branches()[k0]);
        if k0 != i {
            assert(pre.branches()[k0].address != pre.branches()[i].address);
        }
    }
    assert forall|b: Endpoint| b != a implies post.phase_of(b) == pre.phase_of(b) by {
        if pre.contains_address(b) {
            let k = choose|k: int|
                0 <= k < pre.branches().len() && pre.branches()[k].address == b;
            lemma_phase_unique(pre, b, k);
            let k1 = if k < i {
                k
            } else {
                k - 1
            };
            assert(post.branches()[k1] == pre.branches()[k]);
            lemma_phase_unique(post, b, k1);
        } else {
            assert(!post.contains_address(b));
        }
    }
}

/// The name of the queue element of a client's branch.
pub open spec fn queue_name_bytes(a: Endpoint) -> Seq<u8> {
    lit_bytes("queue_") + endpoint_bytes(a)
}

/// The name of the sink element of a client's branch.
pub open spec fn sink_name_bytes(a: Endpoint) -> Seq<u8> {
    lit_bytes("sink_") + endpoint_bytes(a)
}

/// Builds the queue element name for a client.
pub fn client_queue_name(a: &Endpoint) -> (r: Vec<u8>)
    ensures
        r@ == queue_name_bytes(*a),
{
    proof {
        reveal_strlit("queue_");
    }
    let mut out: Vec<u8> = Vec::new();
    crate::json::push_lit(&mut out, "queue_");
    push_endpoint(&mut out, a);
    assert(out@ =~= queue_name_bytes(*a));
    out
}

/// Builds the sink element name for a client.
pub fn client_sink_name(a: &Endpoint) -> (r: Vec<u8>)
    ensures
        r@ == sink_name_bytes(*a),
{
    proof {
        reveal_strlit("sink_");
    }
    let mut out: Vec<u8> = Vec::new();
    crate::json::push_lit(&mut out, "sink_");
    push_endpoint(&mut out, a);
    assert(out@ =~= sink_name_bytes(*a));
    out
}

/// The text of a bare IP address, without port or brackets.
pub open spec fn ip_bytes(ip: IpAddress) -> Seq<u8> {
    match ip {
        IpAddress::V4(v) => ipv4_bytes(v),
        IpAddress::V6(v) => ipv6_bytes(v),
    }
}

fn push_ip(out: &mut Vec<u8>, ip: IpAddress)
    ensures
        final(out)@ == old(out)@ + ip_bytes(ip),
{
    match ip {
        IpAddress::V4(v) => push_ipv4(out, v),
        IpAddress::V6(v) => push_ipv6(out, v),
    }
}

/// Everything needed to splice one client's branch into the media graph:
/// the element names and the sink's properties as text.
pub struct AttachPlan {
    pub queue_name: Vec<u8>,
    pub sink_name: Vec<u8>,
    pub bind_address: Vec<u8>,
    pub bind_port: Vec<u8>,
    pub host: Vec<u8>,
    pub port: Vec<u8>,
}

/// Lays out the branch for a finished handshake: the sink binds the server
/// side of the handshake socket and sends to the client's datagram source.
pub fn attach_plan(server: &Endpoint, client: &Endpoint) -> (p: AttachPlan)
    ensures
        p.queue_name@ == queue_name_bytes(*client),
        p.sink_name@ == sink_name_bytes(*client),
        p.bind_address@ == ip_bytes(server.ip),
        p.bind_port@ == dec_nat(server.port as nat),
        p.host@ == ip_bytes(client.ip),
        p.port@ == dec_nat(client.port as nat),
{
    let mut bind_address: Vec<u8> = Vec::new();
    push_ip(&mut bind_address, server.ip);
    let mut bind_port: Vec<u8> = Vec::new();
    push_dec_u64(&mut bind_port, server.port as u64);
    let mut host: Vec<u8> = Vec::new();
    push_ip(&mut host, client.ip);
    let mut port: Vec<u8> = Vec::new();
    push_dec_u64(&mut port, client.port as u64);
    AttachPlan {
        queue_name: client_queue_name(client),
        sink_name: client_sink_name(client),
        bind_address,
        bind_port,
        host,
        port,
    }
}

/// Whether `n` occurs in `h` starting at `i`.
pub open spec fn occurs_at(h: Seq<u8>, n: Seq<u8>, i: int) -> bool {
    0 <= i && i + n.len() <= h.len() && h.subrange(i, i + n.len()) == n
}

/// Whether `n` occurs anywhere in `h`.
pub open spec fn contains_seq(h: Seq<u8>, n: Seq<u8>) -> bool {
    exists|i: int| occurs_at(h, n, i)
}

fn occurs_at_exec(h: &[u8], n: &[u8], i: usize) -> (r: bool)
    requires
        i + n@.len() <= h@.len(),
    ensures
        r == occurs_at(h@, n@, i as int),
{
    let hl = h.len();
    let m = n.len();
    let mut k: usize = 0;
    while k < m
        invariant
            k <= m,
            m == n@.len(),
            hl == h@.len(),
            i + m <= hl,
            forall|j: int| 0 <= j < k ==> h@[i + j] == n@[j],
        decreases m - k,
    {
        if h[i + k] != n[k] {
            proof {
                assert(h@.subrange(i as int, i + m)[k as int] != n@[k as int]);
            }
            return false;
        }
        k = k + 1;
    }
    proof {
        assert(h@.subrange(i as int, i + m) =~= n@);
    }
    true
}

/// Whether the byte string `n` occurs anywhere in `h`.
pub fn contains_bytes(h: &[u8], n: &[u8]) -> (r: bool)
    ensures
        r == contains_seq(h@, n@),
{
    let hl = h.len();
    let nl = n.len();
    if nl > hl {
        return false;
    }
    if nl == 0 {
        proof {
            assert(h@.subrange(0, 0) =~= n@);
            assert(occurs_at(h@, n@, 0));
        }
        return true;
    }
    let last = hl - nl;
    let mut i: usize = 0;
    while i <= last
        invariant
            i <= last + 1,
            last == hl - nl,
            hl == h@.len(),
            nl == n@.len(),
            1 <= nl <= hl,
            forall|j: int| 0 <= j < i ==> !occurs_at(h@, n@, j),
        decreases last + 1 - i,
    {
        if occurs_at_exec(h, n, i) {
            return true;
        }
        i = i + 1;
    }
    proof {
        assert forall|j: int| !occurs_at(h@, n@, j) by {
            if 0 <= j <= last {
                assert(!occurs_at(h@, n@, j));
            }
        }
    }
    false
}

/// The line a udev property dump holds for a device attribute and its value.
pub open spec fn property_pattern(prop: Seq<u8>, value: Seq<u8>) -> Seq<u8> {
    lit_bytes("ATTRS{") + prop + lit_bytes("}==\"") + value + lit_bytes("\"")
}

/// Builds the attribute pattern looked for in a udev property dump.
pub fn build_property_pattern(prop: &[u8], value: &[u8]) -> (r: Vec<u8>)
    ensures
        r@ == property_pattern(prop@, value@),
{
    proof {
        reveal_strlit("ATTRS{");
        reveal_strlit("}==\"");
        reveal_strlit("\"");
    }
    let mut out: Vec<u8> = Vec::new();
    crate::json::push_lit(&mut out, "ATTRS{");
    out.extend_from_slice(prop);
    crate::json::push_lit(&mut out, "}==\"");
    out.extend_from_slice(value);
    crate::json::push_lit(&mut out, "\"");
    assert(out@ =~= property_pattern(prop@, value@));
    out
}

/// Whether a device's udev property dump shows every required attribute with
/// its required value. A camera is chosen only when this holds of it.
pub fn camera_matches(info: &[u8], properties: &Vec<(Vec<u8>, Vec<u8>)>) -> (r: bool)
    ensures
        r == forall|k: int|
            0 <= k < properties@.len() ==> contains_seq(
                info@,
                property_pattern(
                    (#[trigger] properties@[k]).0@,
                    properties@[k].1@,
                ),
            ),
{
    let n = properties.len();
    let mut k: usize = 0;
    while k < n
        invariant
            k <= n,
            n == properties@.len(),
            forall|j: int|
                0 <= j < k ==> contains_seq(
                    info@,
                    property_pattern((#[trigger] properties@[j]).0@, properties@[j].1@),
                ),
        decreases n - k,
    {
        let pattern = build_property_pattern(
            properties[k].0.as_slice(),
            properties[k].1.as_slice(),
        );
        if !contains_bytes(info, pattern.as_slice()) {
            return false;
        }
        k = k + 1;
    }
    true
}

/// The full launch description of the shared pipeline: the configured
/// encoder feeding a tee the per-client branches hang off.
pub open spec fn launch_bytes(encoder: Seq<u8>) -> Seq<u8> {
    encoder + lit_bytes(" ! tee name=tee allow-not-linked=true")
}

/// Builds the pipeline launch description.
pub fn launch_description(encoder: &[u8]) -> (r: Vec<u8>)
    ensures
        r@ == launch_bytes(encoder@),
{
    proof {
        reveal_strlit(" ! tee name=tee allow-not-linked=true");
    }
    let mut out: Vec<u8> = Vec::new();
    out.extend_from_slice(encoder);
    crate::json::push_lit(&mut out, " ! tee name=tee allow-not-linked=true");
    assert(out@ =~= launch_bytes(encoder@));
    out
}

} // verus!
