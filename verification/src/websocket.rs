//! The broadcast hub and the per-connection session protocol.
//!
//! `WsManager` owns the registry of live session handles and plans the
//! fan-out of every configuration update; `ConfigWs` is the state machine of
//! one client connection, from registration on start through command handling
//! to deregistration on stop. The surrounding program performs the actual
//! sends; everything decided here — who is registered, who receives which
//! broadcast, and the exact text of every outbound frame — is stated in the
//! contracts below.

use vstd::prelude::*;
use vstd::string::StringExecFns;
use crate::appstate::AppState;
use crate::config::{config_json, Config};

verus! {

/// A broadcast message carrying one configuration value from the poller to
/// the hub and on to each session.
#[derive(Debug)]
pub struct GenericWsMessage {
    pub config: Config,
}

/// The JSON text of a whole broadcast message: one object with the single
/// field `config`.
pub open spec fn message_json(m: GenericWsMessage) -> Seq<char> {
    "{\"config\":"@ + config_json(m.config) + "}"@
}

impl GenericWsMessage {
    /// Serializes the whole message as one compact JSON object.
    pub fn as_text(&self) -> (r: String)
        ensures
            r@ == message_json(*self),
    {
        let mut r = String::new();
        r.append("{\"config\":");
        let body = self.config.to_json();
        r.append(body.as_str());
        r.append("}");
        proof {
            assert(r@ =~= message_json(*self));
        }
        r
    }
}

impl Clone for GenericWsMessage {
    /// A clone carries exactly the same configuration.
    fn clone(&self) -> (r: Self)
        ensures
            r == *self,
    {
        GenericWsMessage { config: self.config.clone() }
    }
}

/// Registration request: the handle of a newly connected session.
pub struct Connect {
    pub addr: u64,
}

/// Deregistration request: the handle of a session that is stopping.
pub struct Disconnect {
    pub addr: u64,
}

/// One planned delivery of a broadcast: which session handle is to receive
/// which message.
pub struct Delivery {
    pub addr: u64,
    pub msg: GenericWsMessage,
}

/// The handles a sequence of planned deliveries is addressed to, in order.
pub open spec fn delivery_addrs(ds: Seq<Delivery>) -> Seq<u64> {
    ds.map_values(|d: Delivery| d.addr)
}

/// The broadcast hub: owns the set of live session handles.
pub struct WsManager {
    sessions: Vec<u64>,
}

impl WsManager {
    /// The set of currently registered session handles.
    pub closed spec fn live(&self) -> Set<u64> {
        self.sessions@.to_set()
    }

    /// The registry holds each handle at most once.
    pub closed spec fn wf(&self) -> bool {
        self.sessions@.no_duplicates()
    }

    /// A hub with no registered sessions.
    pub fn new() -> (m: WsManager)
        ensures
            m.wf(),
            m.live() == Set::<u64>::empty(),
    {
        let m = WsManager { sessions: Vec::new() };
        proof {
            assert(m.live() =~= Set::<u64>::empty());
        }
        m
    }

    /// Whether a handle is currently registered.
    pub fn is_registered(&self, addr: u64) -> (b: bool)
        ensures
            b == self.live().contains(addr),
    {
        let n = self.sessions.len();
        let mut i: usize = 0;
        while i < n
            invariant
                i <= n,
                n == self.sessions@.len(),
                forall|j: int| 0 <= j < i ==> self.sessions@[j] != addr,
            decreases n - i,
        {
            if self.sessions[i] == addr {
                assert(self.sessions@.contains(addr));
                return true;
            }
            i += 1;
        }
        assert(!self.sessions@.contains(addr));
        false
    }

    /// The number of live sessions.
    pub fn session_count(&self) -> (n: usize)
        requires
            self.wf(),
        ensures
            n == self.live().len(),
    {
        proof {
            self.sessions@.unique_seq_to_set();
        }
        self.sessions.len()
    }

    /// Adds the connecting session's handle to the live set. Registering an
    /// already-present handle is a no-op, never an error.
    pub fn register(&mut self, msg: Connect)
        requires
            old(self).wf(),
        ensures
            final(self).wf(),
            final(self).live() == old(self).live().insert(msg.addr),
    {
        let addr = msg.addr;
        if self.is_registered(addr) {
            proof {
                assert(old(self).live().insert(addr) =~= old(self).live());
            }
        } else {
            let ghost before = self.sessions@;
            self.sessions.push(addr);
            proof {
                assert(forall|j: int|
                    0 <= j < before.len() ==> self.sessions@[j] == before[j] && before.contains(
                        before[j],
                    ));
                assert(self.sessions@.no_duplicates());
                assert forall|x: u64| self.sessions@.to_set().contains(x)
                    <==> before.to_set().insert(addr).contains(x) by {
                    if self.sessions@.contains(x) {
                        let k = choose|k: int|
                            0 <= k < self.sessions@.len() && self.sessions@[k] == x;
                        if k < before.len() {
                            assert(before[k] == x);
                        }
                    }
                    if before.contains(x) {
                        let k = choose|k: int| 0 <= k < before.len() && before[k] == x;
                        assert(self.sessions@[k] == x);
                    }
                    if x == addr {
                        assert(self.sessions@.last() == addr);
                    }
                }
                assert(final(self).live() =~= old(self).live().insert(addr));
            }
        }
    }

    /// Removes the stopping session's handle from the live set. Removing an
    /// absent handle is a no-op, never an error.
    pub fn deregister(&mut self, msg: Disconnect)
        requires
            old(self).wf(),
        ensures
            final(self).wf(),
            final(self).live() == old(self).live().remove(msg.addr),
    {
        let addr = msg.addr;
        let n = self.sessions.len();
        let mut i: usize = 0;
        while i < n
            invariant
                i <= n,
                n == self.sessions@.len(),
                *self == *old(self),
                addr == msg.addr,
                self.sessions@.no_duplicates(),
                forall|j: int| 0 <= j < i ==> self.sessions@[j] != addr,
            decreases n - i,
        {
            if self.sessions[i] == addr {
                let ghost pre = self.sessions@;
                proof {
                    lemma_remove_at(pre, i as int);
                }
                self.sessions.remove(i);
                proof {
                    assert(self.sessions@ == pre.remove(i as int));
                    assert(self.sessions@.to_set() == pre.to_set().remove(addr));
                }
                return ;
            }
            i += 1;
        }
        proof {
            assert(!self.sessions@.contains(addr));
            assert(old(self).live().remove(addr) =~= old(self).live());
        }
    }

    /// Takes one consistent snapshot of the live set and plans one delivery
    /// of the message to each registered handle: every live handle appears
    /// exactly once among the targets, and no other handle does.
    pub fn broadcast(&self, msg: &GenericWsMessage) -> (deliveries: Vec<Delivery>)
        requires
            self.wf(),
        ensures
            delivery_addrs(deliveries@).no_duplicates(),
            delivery_addrs(deliveries@).to_set() == self.live(),
            forall|i: int| 0 <= i < deliveries@.len() ==> deliveries@[i].msg == *msg,
    {
        let n = self.sessions.len();
        let mut deliveries: Vec<Delivery> = Vec::new();
        let mut i: usize = 0;
        while i < n
            invariant
                i <= n,
                n == self.sessions@.len(),
                deliveries@.len() == i,
                forall|j: int| 0 <= j < i ==> deliveries@[j].addr == self.sessions@[j],
                forall|j: int| 0 <= j < i ==> deliveries@[j].msg == *msg,
            decreases n - i,
        {
            deliveries.push(Delivery { addr: self.sessions[i], msg: msg.clone() });
            i += 1;
        }
        proof {
            assert(delivery_addrs(deliveries@) =~= self.sessions@);
        }
        deliveries
    }
}

impl Default for WsManager {
    /// The default hub is empty.
    fn default() -> (m: WsManager)
        ensures
            m.wf(),
            m.live() == Set::<u64>::empty(),
    {
        WsManager::new()
    }
}

/// Whether two strings hold the same characters.
fn str_eq(a: &str, b: &str) -> (r: bool)
    ensures
        r == (a@ == b@),
{
    let na = a.unicode_len();
    let nb = b.unicode_len();
    if na != nb {
        return false;
    }
    let mut i: usize = 0;
    while i < na
        invariant
            i <= na,
            na == a@.len(),
            nb == b@.len(),
            na == nb,
            forall|j: int| 0 <= j < i ==> a@[j] == b@[j],
        decreases na - i,
    {
        if a.get_char(i) != b.get_char(i) {
            return false;
        }
        i += 1;
    }
    proof {
        assert(a@ =~= b@);
    }
    true
}

/// The fixed marker sent to a client when no configuration has ever been
/// fetched.
pub open spec fn unavailable_message() -> Seq<char> {
    "{\"error\": \"Configuration not available.\"}"@
}

/// The text a session sends for one snapshot of the shared slot: the JSON of
/// the configuration, or the unavailable marker if the slot is empty.
pub open spec fn snapshot_message(c: Option<Config>) -> Seq<char> {
    match c {
        Some(cfg) => config_json(cfg),
        None => unavailable_message(),
    }
}

/// The lifecycle of one client session.
pub enum SessionState {
    Starting,
    Active,
    Stopping,
    Stopped,
}

/// One client connection's session: registers itself with the hub on start,
/// answers the recognized client command, relays broadcasts, and deregisters
/// on stop.
pub struct ConfigWs {
    /// This session's handle in the hub's registry.
    pub addr: u64,
    /// Where the session stands in its lifecycle.
    pub state: SessionState,
}

impl ConfigWs {
    /// A fresh session for one newly accepted connection, not yet registered.
    pub fn new(addr: u64) -> (s: ConfigWs)
        ensures
            s.addr == addr,
            s.state is Starting,
    {
        ConfigWs { addr, state: SessionState::Starting }
    }

    /// The text answering one read of the shared slot: the current
    /// configuration as JSON, or the unavailable marker.
    pub fn send_current_config(&self, shared: &AppState) -> (t: String)
        ensures
            t@ == snapshot_message(shared.config),
    {
        match &shared.config {
            Some(c) => c.to_json(),
            None => String::from_str("{\"error\": \"Configuration not available.\"}"),
        }
    }

    /// Session start: registers with the hub first, then takes the snapshot
    /// for the initial send. Registering before reading means a broadcast
    /// racing with the start is never missed, at worst duplicated.
    pub fn started(&mut self, hub: &mut WsManager, shared: &AppState) -> (first: String)
        requires
            old(self).state is Starting,
            old(hub).wf(),
        ensures
            final(self).addr == old(self).addr,
            final(self).state is Active,
            final(hub).wf(),
            final(hub).live() == old(hub).live().insert(old(self).addr),
            first@ == snapshot_message(shared.config),
    {
        hub.register(Connect { addr: self.addr });
        self.state = SessionState::Active;
        self.send_current_config(shared)
    }

    /// One inbound text frame from the client: the recognized command is
    /// answered with the current snapshot, and exactly that command is; any
    /// other text produces no outbound frame.
    pub fn handle_text(&self, text: &str, shared: &AppState) -> (reply: Option<String>)
        requires
            self.state is Active,
        ensures
            (reply is Some) == (text@ == "get_config"@),
            reply matches Some(t) ==> t@ == snapshot_message(shared.config),
    {
        if str_eq(text, "get_config") {
            Some(self.send_current_config(shared))
        } else {
            None
        }
    }

    /// One broadcast delivered by the hub: the configuration it carries is
    /// forwarded to the client verbatim, as JSON.
    pub fn handle_broadcast(&self, msg: &GenericWsMessage) -> (text: String)
        requires
            self.state is Active,
        ensures
            text@ == config_json(msg.config),
    {
        msg.config.to_json()
    }

    /// Session shutdown begins: deregisters from the hub, so that no later
    /// broadcast is delivered to this session.
    pub fn stopping(&mut self, hub: &mut WsManager)
        requires
            old(self).state is Active,
            old(hub).wf(),
        ensures
            final(self).addr == old(self).addr,
            final(self).state is Stopping,
            final(hub).wf(),
            final(hub).live() == old(hub).live().remove(old(self).addr),
    {
        hub.deregister(Disconnect { addr: self.addr });
        self.state = SessionState::Stopping;
    }

    /// Session shutdown completes.
    pub fn stopped(&mut self)
        requires
            old(self).state is Stopping,
        ensures
            final(self).addr == old(self).addr,
            final(self).state is Stopped,
    {
        self.state = SessionState::Stopped;
    }
}

/// Which handles actually received a broadcast, given the outcome of each
/// planned delivery's send (true means the send reached its client).
pub open spec fn delivered_addrs(ds: Seq<Delivery>, ok: Seq<bool>) -> Set<u64> {
    Set::new(
        |h: u64| exists|i: int| 0 <= i < ds.len() && i < ok.len() && ds[i].addr == h && ok[i],
    )
}

/// Performs the fan-out of one broadcast plan, given each send's outcome:
/// every planned send is attempted, and the handles whose sends succeeded are
/// returned. A failed send to one handle never keeps another handle's send
/// from being attempted.
pub fn deliver_broadcast(deliveries: &Vec<Delivery>, ok: &Vec<bool>) -> (done: Vec<u64>)
    requires
        ok@.len() == deliveries@.len(),
        delivery_addrs(deliveries@).no_duplicates(),
    ensures
        done@.to_set() == delivered_addrs(deliveries@, ok@),
        forall|j: int|
            0 <= j < deliveries@.len() ==> (done@.contains(deliveries@[j].addr) == ok@[j]),
{
    let n = deliveries.len();
    let mut done: Vec<u64> = Vec::new();
    let mut i: usize = 0;
    while i < n
        invariant
            i <= n,
            n == deliveries@.len(),
            ok@.len() == n,
            forall|x: u64|
                done@.contains(x) <==> exists|j: int|
                    0 <= j < i && deliveries@[j].addr == x && ok@[j],
        decreases n - i,
    {
        let ghost before = done@;
        if ok[i] {
            done.push(deliveries[i].addr);
        }
        proof {
            assert forall|x: u64| done@.contains(x) implies exists|j: int|
                0 <= j < i + 1 && deliveries@[j].addr == x && ok@[j] by {
                let k = choose|k: int| 0 <= k < done@.len() && done@[k] == x;
                if k < before.len() {
                    assert(before[k] == x);
                    assert(before.contains(x));
                } else {
                    assert(x == deliveries@[i as int].addr && ok@[i as int]);
                }
            }
            assert forall|x: u64|
                (exists|j: int| 0 <= j < i + 1 && deliveries@[j].addr == x && ok@[j]) implies done@.contains(
                x,
            ) by {
                let j = choose|j: int| 0 <= j < i + 1 && deliveries@[j].addr == x && ok@[j];
                if j < i {
                    assert(before.contains(x));
                    let k = choose|k: int| 0 <= k < before.len() && before[k] == x;
                    assert(done@[k] == x);
                } else {
                    assert(done@.last() == x);
                }
            }
        }
        i += 1;
    }
    proof {
        assert(done@.to_set() =~= delivered_addrs(deliveries@, ok@));
        assert forall|j: int| 0 <= j < deliveries@.len() implies (done@.contains(
            deliveries@[j].addr,
        ) == ok@[j]) by {
            if done@.contains(deliveries@[j].addr) {
                let j2 = choose|j2: int|
                    0 <= j2 < n && deliveries@[j2].addr == deliveries@[j].addr && ok@[j2];
                assert(delivery_addrs(deliveries@)[j2] == delivery_addrs(deliveries@)[j]);
                assert(j2 == j);
            }
        }
    }
    done
}

/// Initial sync: the first message a newly connected client receives shows
/// the most recently written configuration, or the unavailable marker if none
/// has ever been written.
pub proof fn lemma_initial_sync(c: Option<Config>)
    ensures
        c matches Some(cfg) ==> snapshot_message(c) == config_json(cfg),
        c is None ==> snapshot_message(c) == unavailable_message(),
{
}

/// Broadcast completeness: every handle registered at the moment of the
/// broadcast snapshot is among the planned delivery targets, addressed with
/// the broadcast message itself.
pub proof fn lemma_broadcast_completeness(
    m: WsManager,
    deliveries: Seq<Delivery>,
    msg: GenericWsMessage,
    h: u64,
)
    requires
        delivery_addrs(deliveries).to_set() == m.live(),
        forall|i: int| 0 <= i < deliveries.len() ==> deliveries[i].msg == msg,
        m.live().contains(h),
    ensures
        exists|i: int|
            0 <= i < deliveries.len() && deliveries[i].addr == h && deliveries[i].msg == msg,
{
    assert(delivery_addrs(deliveries).contains(h));
    let i = choose|i: int|
        0 <= i < delivery_addrs(deliveries).len() && delivery_addrs(deliveries)[i] == h;
    assert(deliveries[i].addr == h);
}

/// Isolation: whether one handle receives a broadcast depends only on the
/// outcome of its own send; failed or slow sends to other handles in the same
/// broadcast cannot take its delivery away.
pub proof fn lemma_delivery_isolation(ds: Seq<Delivery>, ok1: Seq<bool>, ok2: Seq<bool>, i: int)
    requires
        ok1.len() == ds.len(),
        ok2.len() == ds.len(),
        0 <= i < ds.len(),
        ok1[i] == ok2[i],
        delivery_addrs(ds).no_duplicates(),
    ensures
        delivered_addrs(ds, ok1).contains(ds[i].addr) == delivered_addrs(ds, ok2).contains(
            ds[i].addr,
        ),
{
    lemma_delivered_iff(ds, ok1, i);
    lemma_delivered_iff(ds, ok2, i);
}

/// A handle's delivery stands exactly when its own send succeeded.
proof fn lemma_delivered_iff(ds: Seq<Delivery>, ok: Seq<bool>, i: int)
    requires
        ok.len() == ds.len(),
        0 <= i < ds.len(),
        delivery_addrs(ds).no_duplicates(),
    ensures
        delivered_addrs(ds, ok).contains(ds[i].addr) == ok[i],
{
    if delivered_addrs(ds, ok).contains(ds[i].addr) {
        let j = choose|j: int| 0 <= j < ds.len() && ds[j].addr == ds[i].addr && ok[j];
        assert(delivery_addrs(ds)[j] == delivery_addrs(ds)[i]);
        assert(j == i);
    }
    if ok[i] {
        assert(0 <= i < ds.len() && ds[i].addr == ds[i].addr && ok[i]);
    }
}

/// Idempotent registration: registering a handle a second time leaves the
/// live set, and hence its size, exactly as after the first registration.
pub proof fn lemma_register_idempotent(s: Set<u64>, h: u64)
    ensures
        s.insert(h).insert(h) == s.insert(h),
        s.insert(h).insert(h).len() == s.insert(h).len(),
{
    assert(s.insert(h).insert(h) =~= s.insert(h));
}

/// Idempotent deregistration: removing an absent handle is a no-op.
pub proof fn lemma_deregister_absent(s: Set<u64>, h: u64)
    requires
        !s.contains(h),
    ensures
        s.remove(h) == s,
{
    assert(s.remove(h) =~= s);
}

/// No stale leak: once a session has deregistered, no delivery of a later
/// broadcast snapshot is addressed to its handle.
pub proof fn lemma_no_stale_leak(before: Set<u64>, m: WsManager, deliveries: Seq<Delivery>, h: u64)
    requires
        m.live() == before.remove(h),
        delivery_addrs(deliveries).to_set() == m.live(),
    ensures
        forall|i: int| 0 <= i < deliveries.len() ==> deliveries[i].addr != h,
{
    assert forall|i: int| 0 <= i < deliveries.len() implies deliveries[i].addr != h by {
        if deliveries[i].addr == h {
            assert(delivery_addrs(deliveries)[i] == h);
            assert(delivery_addrs(deliveries).to_set().contains(h));
        }
    }
}

/// Removing the element at one index of a duplicate-free sequence removes
/// exactly that element from the set of its elements.
proof fn lemma_remove_at(s: Seq<u64>, i: int)
    requires
        s.no_duplicates(),
        0 <= i < s.len(),
    ensures
        s.remove(i).no_duplicates(),
        s.remove(i).to_set() == s.to_set().remove(s[i]),
{
    let t = s.remove(i);
    s.remove_ensures(i);
    assert forall|p: int, q: int| 0 <= p < t.len() && 0 <= q < t.len() && p != q implies t[p]
        != t[q] by {
        let p0 = if p < i {
            p
        } else {
            p + 1
        };
        let q0 = if q < i {
            q
        } else {
            q + 1
        };
        assert(t[p] == s[p0] && t[q] == s[q0]);
    }
    assert forall|x: u64| t.to_set().contains(x) <==> s.to_set().remove(s[i]).contains(x) by {
        if t.contains(x) {
            let k = choose|k: int| 0 <= k < t.len() && t[k] == x;
            let k0 = if k < i {
                k
            } else {
                k + 1
            };
            assert(s[k0] == x);
            assert(s.contains(x));
            assert(x != s[i]);
        }
        if s.contains(x) && x != s[i] {
            let k0 = choose|k0: int| 0 <= k0 < s.len() && s[k0] == x;
            if k0 < i {
                assert(t[k0] == x);
            } else {
                assert(t[k0 - 1] == x);
            }
            assert(t.contains(x));
        }
    }
    assert(t.to_set() =~= s.to_set().remove(s[i]));
}

} // verus!
