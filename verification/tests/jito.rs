use orbshred::clock::Instant;
use orbshred::registry::SourceId;
use orbshred::sources::addr::port_from_addr;
use orbshred::sources::jito::{
    active_modes, after_connection, bearer, before_connection, bs58_pubkey, challenge_request,
    challenge_text, direct_setup, entry_step, heartbeat_wait, keypair_from_bytes, parse_keypair,
    plan_refresh, proto_ts_to_datetime, refreshed_tokens, signed_request, token_pair,
    tokens_request, AuthError, EntryMessage, EntryStep, HeartbeatAction, HeartbeatEvent,
    HeartbeatLoop, JitoConfig, KeypairError, ProtoTimestamp, RefreshPlan, Role, StreamStep, Token,
    TokenPair,
};
use orbshred::sources::kernel_ts::realtime_ns_now;
use orbshred::utc::{is_expressible, UtcTime};

/// A keypair whose seed and public key belong together.
const KEYPAIR: [u8; 64] = [
    157, 97, 177, 157, 239, 253, 90, 96, 186, 132, 74, 244, 146, 236, 44, 196, 68, 73, 197, 105,
    123, 50, 105, 25, 112, 59, 172, 3, 28, 174, 127, 96, 215, 90, 152, 1, 130, 177, 10, 183, 213,
    75, 254, 211, 201, 100, 7, 58, 14, 225, 114, 243, 218, 166, 35, 37, 175, 2, 26, 104, 247, 7,
    81, 26,
];

const PUBKEY_B58: &str = "FVen3X669xLzsi6N2V91DoiyzHzg1uAgqiT8jZ9nS96Z";

fn config() -> JitoConfig {
    JitoConfig {
        block_engine_url: String::new(),
        auth_keypair_path: String::new(),
        udp_bind_addr: String::new(),
        public_ip: String::new(),
        desired_regions: vec![],
        proxy_udp_addr: String::new(),
        proxy_grpc_addr: String::new(),
        pin_cpu: None,
    }
}

fn at(secs: i64) -> UtcTime {
    UtcTime::from_timestamp(secs, 0).unwrap()
}

fn tokens(access_expires: i64, refresh_expires: i64) -> TokenPair {
    TokenPair {
        access_token: "access".to_string(),
        access_expires_at: at(access_expires),
        refresh_token: "refresh".to_string(),
        refresh_expires_at: at(refresh_expires),
    }
}

fn token(value: &str, seconds: i64, nanos: i32) -> Token {
    Token { value: value.to_string(), expires_at_utc: Some(ProtoTimestamp { seconds, nanos }) }
}

#[test]
fn ports_follow_the_last_colon() {
    assert_eq!(port_from_addr("0.0.0.0:8001"), 8001);
    assert_eq!(port_from_addr("[::1]:9000"), 9000);
    assert_eq!(port_from_addr("9000"), 9000);
    assert_eq!(port_from_addr("host:+77"), 77);
    assert_eq!(port_from_addr("host:-5"), -5);
    assert_eq!(port_from_addr("a:007"), 7);
    assert_eq!(port_from_addr("h\u{e9}:9223372036854775807"), i64::MAX);
    assert_eq!(port_from_addr("h:-9223372036854775808"), i64::MIN);
}

#[test]
fn addresses_without_a_port_get_the_default() {
    for addr in [
        "", ":", "host", "host:", "host:+", "host:-", "host: 80", "host:80 ", "host:8x", "8001:x",
        "h:9223372036854775808", "h:-9223372036854775809", "h:--1", "h:\u{661}",
        "h:99999999999999999999999999999999999999999999999999",
    ] {
        assert_eq!(port_from_addr(addr), 20000, "{}", addr);
    }
}

#[test]
fn ports_agree_with_the_standard_parser() {
    for text in ["1", "-1", "+1", "00", "-0", "1_0", "1e3", "0x10", "-", "12345678901234567890"] {
        let expected: i64 = text.parse().ok().unwrap_or(20000);
        assert_eq!(port_from_addr(text), expected, "{}", text);
    }
}

#[test]
fn modes_are_switched_by_their_addresses() {
    let modes = active_modes(&config());
    assert!(!modes.direct && !modes.proxy_udp && !modes.proxy_grpc);
    let mut c = config();
    c.block_engine_url = "https://engine".to_string();
    c.proxy_grpc_addr = "http://proxy".to_string();
    let modes = active_modes(&c);
    assert!(modes.direct && !modes.proxy_udp && modes.proxy_grpc);
    c.proxy_udp_addr = "0.0.0.0:1".to_string();
    assert!(active_modes(&c).proxy_udp);
}

#[test]
fn direct_mode_announces_the_bound_port() {
    let mut c = config();
    c.public_ip = "203.0.113.9".to_string();
    let setup = direct_setup(&c);
    assert!(!setup.listen);
    assert_eq!(setup.socket.port, 20000);
    c.udp_bind_addr = "0.0.0.0:20005".to_string();
    let setup = direct_setup(&c);
    assert!(setup.listen);
    assert_eq!(setup.socket.ip, "203.0.113.9");
    assert_eq!(setup.socket.port, 20005);
}

#[test]
fn keypairs_are_json_arrays_of_64_bytes() {
    let numbers: Vec<String> = KEYPAIR.iter().map(|byte| format!("{}", byte)).collect();
    let text = format!("[{}]\n", numbers.join(", "));
    match parse_keypair(&text) {
        Ok(keypair) => assert_eq!(keypair, KEYPAIR),
        Err(_) => panic!("refused"),
    }
    assert!(matches!(parse_keypair("[1,2,3]"), Err(KeypairError::WrongLength(3))));
    assert!(matches!(parse_keypair("[]"), Err(KeypairError::WrongLength(0))));
    assert!(matches!(parse_keypair("[1,2,256]"), Err(KeypairError::Malformed(_))));
    assert!(matches!(parse_keypair("[1,-2]"), Err(KeypairError::Malformed(_))));
    assert!(matches!(parse_keypair("{}"), Err(KeypairError::Malformed(_))));
    assert!(matches!(parse_keypair(""), Err(KeypairError::Malformed(_))));
    assert_eq!(keypair_from_bytes(&KEYPAIR.to_vec()), Ok(KEYPAIR));
    assert_eq!(keypair_from_bytes(&vec![0u8; 65]), Err(65));
}

#[test]
fn public_key_is_the_second_half() {
    assert_eq!(bs58_pubkey(&KEYPAIR), PUBKEY_B58);
    assert_eq!(bs58_pubkey(&[0u8; 64]), "1".repeat(32));
    let request = challenge_request(&KEYPAIR);
    assert_eq!(request.role, Role::ShredstreamSubscriber);
    assert_eq!(request.pubkey, KEYPAIR[32..64].to_vec());
}

#[test]
fn challenge_is_joined_with_a_hyphen() {
    assert_eq!(challenge_text("abc", "def"), "abc-def");
    assert_eq!(challenge_text("", ""), "-");
}

#[test]
fn challenge_is_signed_with_the_secret_half() {
    let request = tokens_request(&KEYPAIR, "chal-42\u{e9}");
    assert_eq!(request.challenge, format!("{}-chal-42\u{e9}", PUBKEY_B58));
    assert_eq!(request.client_pubkey, KEYPAIR[32..64].to_vec());
    let expected: [u8; 64] = [
        189, 253, 14, 36, 131, 59, 103, 3, 48, 16, 174, 210, 185, 235, 71, 224, 182, 141, 243, 11,
        7, 118, 173, 52, 13, 253, 207, 201, 159, 163, 168, 125, 223, 69, 184, 235, 131, 88, 122,
        149, 247, 73, 206, 173, 205, 253, 118, 116, 240, 119, 43, 35, 27, 229, 112, 185, 106, 184,
        212, 182, 137, 1, 226, 5,
    ];
    assert_eq!(request.signed_challenge, expected.to_vec());
    let pubkey: [u8; 32] = KEYPAIR[32..64].try_into().unwrap();
    let verifier = ed25519_dalek::VerifyingKey::from_bytes(&pubkey).unwrap();
    let signature = ed25519_dalek::Signature::from_bytes(&expected);
    assert!(verifier.verify_strict(request.challenge.as_bytes(), &signature).is_ok());
}

#[test]
fn signed_requests_carry_what_they_are_given() {
    let request = signed_request(&KEYPAIR, "text".to_string(), [7u8; 64]);
    assert_eq!(request.challenge, "text");
    assert_eq!(request.client_pubkey, KEYPAIR[32..64].to_vec());
    assert_eq!(request.signed_challenge, vec![7u8; 64]);
}

#[test]
fn timestamps_out_of_range_become_the_epoch() {
    let moment = |seconds, nanos| {
        proto_ts_to_datetime(Some(ProtoTimestamp { seconds, nanos })).timestamp()
    };
    assert_eq!(moment(1_700_000_000, 5), (1_700_000_000, 5));
    assert_eq!(moment(-1, 999_999_999), (-1, 999_999_999));
    assert_eq!(moment(59, 1_999_999_999), (59, 1_999_999_999));
    assert_eq!(moment(-1, 1_500_000_000), (-1, 1_500_000_000));
    assert_eq!(moment(58, 1_000_000_000), (0, 0));
    assert_eq!(moment(59, 2_000_000_000), (0, 0));
    assert_eq!(moment(7, -1), (0, 0));
    assert_eq!(moment(8_210_266_876_799, 0), (8_210_266_876_799, 0));
    assert_eq!(moment(8_210_266_876_800, 0), (0, 0));
    assert_eq!(moment(-8_334_601_228_800, 0), (-8_334_601_228_800, 0));
    assert_eq!(moment(-8_334_601_228_801, 0), (0, 0));
    assert_eq!(moment(i64::MAX, 0), (0, 0));
    assert_eq!(moment(i64::MIN, 0), (0, 0));
    assert_eq!(proto_ts_to_datetime(None).timestamp(), (0, 0));
    assert_eq!(UtcTime::epoch().timestamp(), (0, 0));
    assert!(UtcTime::from_timestamp(0, 1_000_000_000).is_none());
}

#[test]
fn expiry_is_less_than_a_minute_away() {
    let later = at(1_000);
    assert!(!later.is_within(60, &at(940)));
    assert!(later.is_within(60, &UtcTime::from_timestamp(940, 1).unwrap()));
    assert!(later.is_within(60, &at(2_000)));
    assert!(!later.is_within(60, &at(0)));
}

#[test]
fn system_clocks_outside_civil_time_are_told() {
    let last = 8_210_266_876_799_999_999_999i128;
    assert!(is_expressible(0));
    assert!(!is_expressible(-1));
    assert!(is_expressible(last));
    assert!(!is_expressible(last + 1));
    assert!(is_expressible(realtime_ns_now()));
    assert!(UtcTime::at_reading(-1).is_none());
    assert!(UtcTime::at_reading(last + 1).is_none());
    assert_eq!(UtcTime::at_reading(0).unwrap().timestamp(), (0, 0));
    assert_eq!(UtcTime::at_reading(61_000_000_009).unwrap().timestamp(), (61, 9));
    let end = UtcTime::at_reading(last).unwrap();
    assert_eq!(end.timestamp(), (8_210_266_876_799, 999_999_999));
}

#[test]
fn the_present_is_after_the_epoch() {
    let before = realtime_ns_now() / 1_000_000_000;
    let (secs, nanos) = UtcTime::now().unwrap().timestamp();
    let after = realtime_ns_now() / 1_000_000_000;
    assert!(before <= secs as i128 && secs as i128 <= after);
    assert!(nanos < 1_000_000_000);
}

#[test]
fn leap_seconds_count() {
    let leap = UtcTime::from_timestamp(59, 1_500_000_000).unwrap();
    assert!(!leap.is_within(60, &at(0)));
    assert!(leap.is_within(61, &at(0)));
    assert!(at(119).is_within(60, &leap));
    assert!(!at(119).is_within(59, &leap));
    assert!(!at(120).is_within(60, &leap));
    assert!(leap.is_within(0, &at(100)));
}

#[test]
fn both_tokens_are_needed() {
    match token_pair(Some(token("a", 100, 1)), Some(token("r", 200, -1))) {
        Ok(pair) => {
            assert_eq!(pair.access_token, "a");
            assert_eq!(pair.access_expires_at.timestamp(), (100, 1));
            assert_eq!(pair.refresh_token, "r");
            assert_eq!(pair.refresh_expires_at.timestamp(), (0, 0));
        }
        Err(_) => panic!("refused"),
    }
    assert!(matches!(token_pair(None, None), Err(AuthError::MissingAccessToken)));
    assert!(matches!(
        token_pair(Some(token("a", 1, 0)), None),
        Err(AuthError::MissingRefreshToken)
    ));
}

#[test]
fn refresh_keeps_the_refresh_token() {
    let held = tokens(100, 500);
    match refreshed_tokens(&held, Some(token("new", 900, 0))) {
        Ok(pair) => {
            assert_eq!(pair.access_token, "new");
            assert_eq!(pair.access_expires_at.timestamp(), (900, 0));
            assert_eq!(pair.refresh_token, "refresh");
            assert_eq!(pair.refresh_expires_at.timestamp(), (500, 0));
        }
        Err(_) => panic!("refused"),
    }
    assert!(matches!(refreshed_tokens(&held, None), Err(AuthError::MissingAccessToken)));
}

#[test]
fn an_expiring_refresh_token_means_authenticating_anew() {
    let held = tokens(100, 500);
    assert!(matches!(plan_refresh(&held, &at(441)), RefreshPlan::Reauthenticate));
    match plan_refresh(&held, &at(440)) {
        RefreshPlan::RefreshAccess(value) => assert_eq!(value, "refresh"),
        RefreshPlan::Reauthenticate => panic!("too early"),
    }
}

#[test]
fn heartbeats_wait_half_the_time_to_live() {
    assert_eq!(heartbeat_wait(Some(30_000)), 15_000);
    assert_eq!(heartbeat_wait(Some(1_003)), 501);
    assert_eq!(heartbeat_wait(Some(999)), 500);
    assert_eq!(heartbeat_wait(Some(0)), 500);
    assert_eq!(heartbeat_wait(Some(u32::MAX)), 2_147_483_647);
    assert_eq!(heartbeat_wait(None), 500);
    assert_eq!(bearer("tok"), "Bearer tok");
}

#[test]
fn heartbeat_loop_renews_beats_and_waits() {
    let mut beat = HeartbeatLoop { tokens: tokens(100, 500) };
    let round = HeartbeatEvent::Round { cancelled: false };
    assert!(matches!(beat.next(round), HeartbeatAction::ReadTime));
    match beat.next(HeartbeatEvent::TimeRead(at(40))) {
        HeartbeatAction::Beat(text) => assert_eq!(text, "Bearer access"),
        _ => panic!("no heartbeat"),
    }
    match beat.next(HeartbeatEvent::Answered(Some(4_000))) {
        HeartbeatAction::Wait(millis) => assert_eq!(millis, 2_000),
        _ => panic!("no wait"),
    }
    assert!(matches!(beat.next(HeartbeatEvent::TimeRead(at(41))), HeartbeatAction::Renew));
    // A failed renewal goes on with the tokens at hand.
    match beat.next(HeartbeatEvent::Renewed(None)) {
        HeartbeatAction::Beat(text) => assert_eq!(text, "Bearer access"),
        _ => panic!("no heartbeat"),
    }
    let mut fresh = tokens(1_000, 2_000);
    fresh.access_token = "fresh".to_string();
    match beat.next(HeartbeatEvent::Renewed(Some(fresh))) {
        HeartbeatAction::Beat(text) => assert_eq!(text, "Bearer fresh"),
        _ => panic!("no heartbeat"),
    }
    assert_eq!(beat.tokens.access_expires_at.timestamp(), (1_000, 0));
    assert!(matches!(beat.next(HeartbeatEvent::Interrupted), HeartbeatAction::Stop));
    let round = HeartbeatEvent::Round { cancelled: true };
    assert!(matches!(beat.next(round), HeartbeatAction::Stop));
}

#[test]
fn entries_become_slot_events() {
    let now = Instant { nanos: 3 };
    match entry_step(SourceId(4), EntryMessage::Entry { slot: 99 }, now) {
        EntryStep::Send(event) => {
            assert_eq!(event.source, SourceId(4));
            assert_eq!(event.slot, 99);
            assert_eq!(event.received_at, now);
        }
        _ => panic!("no event"),
    }
    assert!(matches!(entry_step(SourceId(4), EntryMessage::Failed, now), EntryStep::Fail));
    assert!(matches!(entry_step(SourceId(4), EntryMessage::Ended, now), EntryStep::Finish));
}

#[test]
fn failed_streams_are_retried_until_cancelled() {
    assert_eq!(before_connection(false), StreamStep::Connect);
    assert_eq!(before_connection(true), StreamStep::Stop);
    assert_eq!(after_connection(true), StreamStep::RetryAfter(2_000));
    assert_eq!(after_connection(false), StreamStep::Stop);
}
