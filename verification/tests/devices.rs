use iot_sensors::buzzer::buzzer_on;
use iot_sensors::firmware::PanicAction;
use iot_sensors::ultrasonic::{distance_cm, distance_cm_u32, echo_step, EchoPhase, EchoStep};
use iot_sensors::uplink::{DnsReply, LookupOutcome, ServerCache};
use iot_sensors::wifi::{
    after_connect, link_query, link_step, network_seed, AfterConnect, LinkPhase, LinkQuery,
};

#[test]
fn distance_formula() {
    assert_eq!(distance_cm(0), 0);
    assert_eq!(distance_cm(1000), 17);
    assert_eq!(distance_cm(1749), 29);
    assert_eq!(distance_cm(1750), 30);
    assert_eq!(distance_cm(30_000), 514);
}

#[test]
fn distance_u32_wraps_like_a_cast() {
    assert_eq!(distance_cm_u32(1000), 17);
    assert_eq!(distance_cm(250_435_411_138), 4_294_967_301);
    assert_eq!(distance_cm_u32(250_435_411_138), 5);
}

#[test]
fn buzzer_threshold() {
    assert!(buzzer_on(0));
    assert!(buzzer_on(29));
    assert!(!buzzer_on(30));
    assert!(!buzzer_on(400));
}

#[test]
fn alarm_iff_short_echo_on_values() {
    assert!(buzzer_on(distance_cm(1749)));
    assert!(!buzzer_on(distance_cm(1750)));
    assert!(buzzer_on(distance_cm_u32(1) as u64));
    assert!(!buzzer_on(distance_cm_u32(1750) as u64));
}

#[test]
fn longer_echo_is_not_nearer() {
    let mut last = 0;
    for p in (0..40_000u64).step_by(7) {
        let d = distance_cm(p);
        assert!(d >= last);
        last = d;
    }
}

#[test]
fn echo_waiting_for_rise() {
    assert_eq!(echo_step(EchoPhase::AwaitRise, false, 0), EchoStep::Keep);
    assert_eq!(echo_step(EchoPhase::AwaitRise, false, 30_000), EchoStep::Keep);
    assert_eq!(echo_step(EchoPhase::AwaitRise, false, 30_001), EchoStep::NoEcho);
    assert_eq!(echo_step(EchoPhase::AwaitRise, true, 30_001), EchoStep::Rose);
    assert_eq!(echo_step(EchoPhase::AwaitRise, true, 5), EchoStep::Rose);
}

#[test]
fn echo_timing_the_pulse() {
    assert_eq!(echo_step(EchoPhase::AwaitFall, true, 100), EchoStep::Keep);
    assert_eq!(echo_step(EchoPhase::AwaitFall, true, 30_000), EchoStep::Keep);
    assert_eq!(echo_step(EchoPhase::AwaitFall, true, 30_001), EchoStep::Fell);
    assert_eq!(echo_step(EchoPhase::AwaitFall, false, 100), EchoStep::Fell);
}

#[test]
fn seed_from_two_words() {
    assert_eq!(network_seed(1, 2), 0x2_0000_0001);
    assert_eq!(network_seed(0xffff_ffff, 0), 0xffff_ffff);
    assert_eq!(network_seed(0, 0xffff_ffff), 0xffff_ffff_0000_0000);
    assert_eq!(network_seed(0xdead_beef, 0x1234_5678), 0x1234_5678_dead_beef);
}

#[test]
fn seed_keeps_both_words_on_values() {
    let s = network_seed(0xabcd_0123, 0x0f0f_f0f0);
    assert_eq!(s as u32, 0xabcd_0123);
    assert_eq!((s >> 32) as u32, 0x0f0f_f0f0);
}

#[test]
fn waiting_for_link_then_address() {
    assert_eq!(link_step(LinkPhase::AwaitLink, false), (LinkPhase::AwaitLink, true));
    assert_eq!(link_step(LinkPhase::AwaitLink, true), (LinkPhase::AwaitAddress, false));
    assert_eq!(link_step(LinkPhase::AwaitAddress, false), (LinkPhase::AwaitAddress, true));
    assert_eq!(link_step(LinkPhase::AwaitAddress, true), (LinkPhase::Ready, false));
    assert_eq!(link_step(LinkPhase::Ready, false), (LinkPhase::Ready, false));
}

#[test]
fn address_asked_only_after_link_up() {
    assert_eq!(link_query(LinkPhase::AwaitLink), Some(LinkQuery::LinkUp));
    assert_eq!(link_query(LinkPhase::AwaitAddress), Some(LinkQuery::Address));
    assert_eq!(link_query(LinkPhase::Ready), None);
    let mut phase = LinkPhase::AwaitLink;
    let mut asked = Vec::new();
    let link_answers = [false, false, true];
    let address_answers = [false, true];
    let (mut li, mut ai) = (0, 0);
    while let Some(q) = link_query(phase) {
        asked.push(q);
        let yes = match q {
            LinkQuery::LinkUp => {
                li += 1;
                link_answers[li - 1]
            }
            LinkQuery::Address => {
                ai += 1;
                address_answers[ai - 1]
            }
        };
        phase = link_step(phase, yes).0;
    }
    assert_eq!(
        asked,
        vec![
            LinkQuery::LinkUp,
            LinkQuery::LinkUp,
            LinkQuery::LinkUp,
            LinkQuery::Address,
            LinkQuery::Address
        ]
    );
}

#[test]
fn reconnect_decision() {
    assert_eq!(after_connect(true), AfterConnect::AwaitDisconnect);
    assert_eq!(after_connect(false), AfterConnect::RetryLater);
}

#[test]
fn server_is_resolved_once() {
    let mut c: ServerCache<[u8; 4]> = ServerCache::new();
    assert!(c.needs_lookup());
    assert_eq!(c.server(), None);
    assert_eq!(c.record_lookup(DnsReply::Failed), LookupOutcome::Failed);
    assert!(c.needs_lookup());
    assert_eq!(c.record_lookup(DnsReply::Addresses(&[])), LookupOutcome::NoAddress);
    assert!(c.needs_lookup());
    assert_eq!(
        c.record_lookup(DnsReply::Addresses(&[[10, 0, 0, 7], [10, 0, 0, 8]])),
        LookupOutcome::Resolved
    );
    assert!(!c.needs_lookup());
    assert_eq!(c.server(), Some([10, 0, 0, 7]));
    assert_eq!(c.record_lookup(DnsReply::Failed), LookupOutcome::Failed);
    assert_eq!(c.server(), Some([10, 0, 0, 7]));
    assert_eq!(c.record_lookup(DnsReply::Addresses(&[[10, 0, 0, 9]])), LookupOutcome::Resolved);
    assert_eq!(c.server(), Some([10, 0, 0, 7]));
    assert!(!c.needs_lookup());
}

#[test]
fn panic_halts() {
    assert_eq!(iot_sensors::firmware::panic(), PanicAction::Halt);
}
