//! The uplink's memory of the server address: it is looked up once and then
//! reused on every later tick.
use vstd::prelude::*;

verus! {

/// Port of the collector on the server.
pub const SERVER_PORT: u16 = 80;

/// Time between two uplink ticks, in milliseconds.
pub const SEND_INTERVAL_MS: u64 = 1000;

/// Time after which an idle connection to the server gives up, in seconds.
pub const SOCKET_TIMEOUT_S: u64 = 5;

/// What a DNS query for the server's A record came back with.
pub enum DnsReply<'a, A> {
    /// The query succeeded with these addresses (possibly none).
    Addresses(&'a [A]),
    /// The query failed.
    Failed,
}

/// What became of one DNS reply, for the log.
#[derive(Clone, Copy, Debug, PartialEq, Eq)]
pub enum LookupOutcome {
    /// The reply held addresses; the first one is remembered unless an
    /// address already was.
    Resolved,
    /// The query succeeded without an address; the tick is skipped.
    NoAddress,
    /// The query failed; the tick is skipped.
    Failed,
}

/// The remembered address after a DNS reply, starting from `cached`: an
/// address once remembered stays; until then, the first address of a
/// successful reply with addresses is remembered, and any other reply leaves
/// nothing remembered.
pub open spec fn after_reply<A>(cached: Option<A>, reply: DnsReply<'_, A>) -> Option<A> {
    match cached {
        Some(a) => Some(a),
        None => match reply {
            DnsReply::Addresses(v) => if v@.len() > 0 {
                Some(v@[0])
            } else {
                None
            },
            DnsReply::Failed => None,
        },
    }
}

/// The remembered address after a run of DNS replies, taken in order.
pub open spec fn after_replies<A>(cached: Option<A>, replies: Seq<DnsReply<'_, A>>) -> Option<A>
    decreases replies.len(),
{
    if replies.len() == 0 {
        cached
    } else {
        after_replies(after_reply(cached, replies[0]), replies.drop_first())
    }
}

/// Once an address is remembered, no later reply changes it: it is the
/// address of every later tick, and no lookup is due again.
pub proof fn resolved_address_is_kept<A>(cached: Option<A>, later: Seq<DnsReply<'_, A>>)
    requires
        cached is Some,
    ensures
        after_replies(cached, later) == cached,
    decreases later.len(),
{
    if later.len() > 0 {
        resolved_address_is_kept(after_reply(cached, later[0]), later.drop_first());
    }
}

/// The server is resolved once and reused: after the first successful reply
/// with addresses, the first of its addresses stays remembered whatever
/// replies come later, so every later tick posts to it and none looks it up.
pub proof fn first_resolution_is_reused<A>(v: &[A], later: Seq<DnsReply<'_, A>>)
    requires
        v@.len() > 0,
    ensures
        after_reply(None, DnsReply::Addresses(v)) == Some(v@[0]),
        after_replies(after_reply(None, DnsReply::Addresses(v)), later) == Some(v@[0]),
{
    resolved_address_is_kept(Some(v@[0]), later);
}

/// The remembered server address, if one was found.
pub struct ServerCache<A> {
    cached: Option<A>,
}

impl<A> View for ServerCache<A> {
    type V = Option<A>;

    /// The remembered address.
    closed spec fn view(&self) -> Option<A> {
        self.cached
    }
}

impl<A: Copy> ServerCache<A> {

    /// A cache that remembers nothing yet.
    pub fn new() -> (r: Self)
        ensures
            r@ is None,
    {
        ServerCache { cached: None }
    }

    /// A lookup is due exactly when no address is remembered.
    pub fn needs_lookup(&self) -> (r: bool)
        ensures
            r == (self@ is None),
    {
        self.cached.is_none()
    }

    /// The address to post to on this tick, if any.
    pub fn server(&self) -> (r: Option<A>)
        ensures
            r == self@,
    {
        self.cached
    }

    /// Takes in a DNS reply: while nothing is remembered, the first address of
    /// a successful reply with addresses is remembered; an address already
    /// remembered is kept. The outcome tells what the reply held.
    pub fn record_lookup(&mut self, reply: DnsReply<'_, A>) -> (r: LookupOutcome)
        ensures
            final(self)@ == after_reply(old(self)@, reply),
            r == match reply {
                DnsReply::Addresses(v) => if v@.len() > 0 {
                    LookupOutcome::Resolved
                } else {
                    LookupOutcome::NoAddress
                },
                DnsReply::Failed => LookupOutcome::Failed,
            },
    {
        match reply {
            DnsReply::Addresses(v) => {
                if v.len() > 0 {
                    if self.cached.is_none() {
                        self.cached = Some(v[0]);
                    }
                    LookupOutcome::Resolved
                } else {
                    LookupOutcome::NoAddress
                }
            },
            DnsReply::Failed => LookupOutcome::Failed,
        }
    }
}

} // verus!
