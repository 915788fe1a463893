//! Wi-Fi station bookkeeping: the network stack's random seed, waiting for
//! the link and an address, and reconnecting after a drop.
use vstd::prelude::*;

verus! {

/// Poll period while waiting for the link or an address, in milliseconds.
pub const LINK_POLL_MS: u64 = 500;

/// Pause before trying to connect again, in milliseconds.
pub const RECONNECT_DELAY_MS: u64 = 5000;

/// The 64-bit seed of the network stack from two 32-bit random words:
/// `low | (high << 32)`.
pub fn network_seed(low: u32, high: u32) -> (r: u64)
    ensures
        r == high as nat * 0x1_0000_0000 + low as nat,
{
    let lo = low as u64;
    let hi = high as u64;
    let r = lo | (hi << 32u64);
    assert(r == hi * 0x1_0000_0000 + lo) by (bit_vector)
        requires
            lo <= 0xffff_ffff,
            hi <= 0xffff_ffff,
            r == lo | (hi << 32u64),
    ;
    r
}

/// The seed keeps both random words: its low 32 bits are `low` and its high
/// 32 bits are `high`, so different pairs of words give different seeds.
pub proof fn seed_keeps_both_words(low: u32, high: u32)
    ensures
        (high as nat * 0x1_0000_0000 + low as nat) % 0x1_0000_0000 == low,
        (high as nat * 0x1_0000_0000 + low as nat) / 0x1_0000_0000 == high,
{
    let h = high as int;
    let l = low as int;
    assert((h * 0x1_0000_0000 + l) % 0x1_0000_0000 == l && (h * 0x1_0000_0000 + l) / 0x1_0000_0000
        == h) by (nonlinear_arith)
        requires
            0 <= l < 0x1_0000_0000,
            0 <= h,
    ;
}

/// How far waiting for a usable connection has come.
#[derive(Clone, Copy, Debug, PartialEq, Eq)]
pub enum LinkPhase {
    /// The Wi-Fi link is not up yet.
    AwaitLink,
    /// The link is up; no IPv4 address has been configured yet.
    AwaitAddress,
    /// The link is up and an address is configured.
    Ready,
}

/// What to ask the network stack in a phase of the wait.
#[derive(Clone, Copy, Debug, PartialEq, Eq)]
pub enum LinkQuery {
    /// Ask whether the Wi-Fi link is up.
    LinkUp,
    /// Ask for the IPv4 configuration.
    Address,
}

/// The question of each phase: the link while it is down, the address once
/// the link is up, and none when ready.
pub open spec fn query_of(phase: LinkPhase) -> Option<LinkQuery> {
    match phase {
        LinkPhase::AwaitLink => Some(LinkQuery::LinkUp),
        LinkPhase::AwaitAddress => Some(LinkQuery::Address),
        LinkPhase::Ready => None,
    }
}

/// The next phase, and whether to sleep before asking again, when the
/// question of `phase` was answered `yes`: a yes moves on at once, a no
/// waits and asks the same question again.
pub open spec fn next_link_phase(phase: LinkPhase, yes: bool) -> (LinkPhase, bool) {
    match phase {
        LinkPhase::AwaitLink => if yes {
            (LinkPhase::AwaitAddress, false)
        } else {
            (LinkPhase::AwaitLink, true)
        },
        LinkPhase::AwaitAddress => if yes {
            (LinkPhase::Ready, false)
        } else {
            (LinkPhase::AwaitAddress, true)
        },
        LinkPhase::Ready => (LinkPhase::Ready, false),
    }
}

/// What to ask the stack next, or nothing once the connection is ready.
pub fn link_query(phase: LinkPhase) -> (r: Option<LinkQuery>)
    ensures
        r == query_of(phase),
{
    match phase {
        LinkPhase::AwaitLink => Some(LinkQuery::LinkUp),
        LinkPhase::AwaitAddress => Some(LinkQuery::Address),
        LinkPhase::Ready => None,
    }
}

/// One step of waiting for a connection, given the answer to the question of
/// the current phase (`link_query`): the next phase, and whether to sleep
/// before asking again. Once the link is up the address is asked for right
/// away, without a pause.
pub fn link_step(phase: LinkPhase, yes: bool) -> (r: (LinkPhase, bool))
    ensures
        r == next_link_phase(phase, yes),
{
    match phase {
        LinkPhase::AwaitLink => {
            if yes {
                (LinkPhase::AwaitAddress, false)
            } else {
                (LinkPhase::AwaitLink, true)
            }
        },
        LinkPhase::AwaitAddress => {
            if yes {
                (LinkPhase::Ready, false)
            } else {
                (LinkPhase::AwaitAddress, true)
            }
        },
        LinkPhase::Ready => (LinkPhase::Ready, false),
    }
}

/// The address is asked for only after the link was reported up: the wait
/// starts by asking for the link, it leaves that phase only on a yes, and the
/// address is the question of no other phase than the one that follows.
pub proof fn address_polled_only_after_link_up(yes: bool)
    ensures
        query_of(LinkPhase::AwaitLink) == Some(LinkQuery::LinkUp),
        next_link_phase(LinkPhase::AwaitLink, yes).0 != LinkPhase::AwaitLink <==> yes,
        next_link_phase(LinkPhase::AwaitLink, yes).0 != LinkPhase::Ready,
        forall|p: LinkPhase| query_of(p) == Some(LinkQuery::Address) ==> p == LinkPhase::AwaitAddress,
{
}

/// A question answered no is asked again only after the poll period; a yes
/// is followed at once by the next question. Ready is never left.
pub proof fn sleep_only_after_a_no(phase: LinkPhase, yes: bool)
    ensures
        phase != LinkPhase::Ready ==> next_link_phase(phase, yes).1 == !yes,
        next_link_phase(LinkPhase::Ready, yes) == (LinkPhase::Ready, false),
        !yes ==> next_link_phase(phase, yes).0 == phase,
{
}

/// What the connection task does after an attempt to associate.
#[derive(Clone, Copy, Debug, PartialEq, Eq)]
pub enum AfterConnect {
    /// Connected: wait until the link drops, then pause and try again.
    AwaitDisconnect,
    /// The attempt failed: pause and try again.
    RetryLater,
}

/// After a successful attempt the task waits for the drop; after a failed one
/// it goes straight to the pause before the next attempt.
pub fn after_connect(connected: bool) -> (r: AfterConnect)
    ensures
        connected ==> r == AfterConnect::AwaitDisconnect,
        !connected ==> r == AfterConnect::RetryLater,
{
    if connected {
        AfterConnect::AwaitDisconnect
    } else {
        AfterConnect::RetryLater
    }
}

} // verus!
