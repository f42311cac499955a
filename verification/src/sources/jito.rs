//! Jito ShredStream integration. Three independent sub-modes:
//!
//! **Direct block engine** (`block_engine_url` + `auth_keypair_path`):
//!   Authenticates with Jito's block engine using an Ed25519 keypair, sends periodic
//!   heartbeats, and receives raw UDP shreds on `udp_bind_addr`.
//!
//! **Proxy UDP** (`proxy_udp_addr`):
//!   Listens for raw shreds forwarded by an already-running proxy.
//!
//! **Proxy gRPC entries** (`proxy_grpc_addr`):
//!   Subscribes to a proxy's entries, which give slot-level events.
//!
//! What is here decides what to send and what to make of the answers.
use ed25519_dalek::Signer;
use vstd::prelude::*;

use crate::clock::Instant;
use crate::registry::{SlotEvent, SourceId};
use crate::sources::addr;
use crate::utc;
use crate::utc::UtcTime;

verus! {

/// Configuration of the integration; an empty string switches its sub-mode off.
pub struct JitoConfig {
    pub block_engine_url: String,
    pub auth_keypair_path: String,
    pub udp_bind_addr: String,
    pub public_ip: String,
    pub desired_regions: Vec<String>,
    pub proxy_udp_addr: String,
    pub proxy_grpc_addr: String,
    pub pin_cpu: Option<usize>,
}

/// The sub-modes to start.
#[derive(Clone, Copy, Debug, PartialEq, Eq, Structural)]
pub struct JitoModes {
    pub direct: bool,
    pub proxy_udp: bool,
    pub proxy_grpc: bool,
}

/// Works out which sub-modes a configuration asks for.
pub fn active_modes(config: &JitoConfig) -> (modes: JitoModes)
    ensures
        modes.direct == (config.block_engine_url@.len() > 0),
        modes.proxy_udp == (config.proxy_udp_addr@.len() > 0),
        modes.proxy_grpc == (config.proxy_grpc_addr@.len() > 0),
{
    JitoModes {
        direct: !config.block_engine_url.as_str().is_empty(),
        proxy_udp: !config.proxy_udp_addr.as_str().is_empty(),
        proxy_grpc: !config.proxy_grpc_addr.as_str().is_empty(),
    }
}

/// Where the block engine is to send shreds.
#[derive(Debug)]
pub struct Socket {
    pub ip: String,
    pub port: i64,
}

/// What the direct mode does besides its heartbeats.
pub struct DirectSetup {
    /// Whether to listen for shreds; without an address to bind they are sent but
    /// not captured.
    pub listen: bool,
    /// The socket to announce.
    pub socket: Socket,
}

/// Works out the setup of the direct mode: the announced port is that of the bind
/// address.
pub fn direct_setup(config: &JitoConfig) -> (setup: DirectSetup)
    ensures
        setup.listen == (config.udp_bind_addr@.len() > 0),
        setup.socket.ip@ == config.public_ip@,
        setup.socket.port == addr::port_of(config.udp_bind_addr@),
{
    DirectSetup {
        listen: !config.udp_bind_addr.as_str().is_empty(),
        socket: Socket {
            ip: config.public_ip.clone(),
            port: addr::port_from_addr(config.udp_bind_addr.as_str()),
        },
    }
}

// ── Keypair ─────────────────────────────────────────────────────────────────

/// The public half of a keypair.
pub open spec fn public_key(keypair: Seq<u8>) -> Seq<u8> {
    keypair.subrange(32, 64)
}

/// The secret half of a keypair: the Ed25519 seed.
pub open spec fn secret_seed(keypair: Seq<u8>) -> Seq<u8> {
    keypair.subrange(0, 32)
}

/// A `serde_json` error.
#[verifier::external_type_specification]
#[verifier::external_body]
pub struct ExJsonError(serde_json::Error);

/// The bytes of the JSON array that `text` holds, as `serde_json::from_str` reads it
/// into a vector of bytes; none where that fails.
pub uninterp spec fn json_byte_array(text: Seq<char>) -> Option<Seq<u8>>;

/// `serde_json::from_str` into a vector of bytes.
#[verifier::external_body]
fn json_bytes(text: &str) -> (bytes: Result<Vec<u8>, serde_json::Error>)
    ensures
        match bytes {
            Ok(read) => json_byte_array(text@) == Some(read@),
            Err(_) => json_byte_array(text@) is None,
        },
{
    serde_json::from_str(text)
}

/// Why a keypair file was refused.
pub enum KeypairError {
    /// It is no JSON array of bytes.
    Malformed(serde_json::Error),
    /// It has this many bytes instead of 64.
    WrongLength(usize),
}

/// A keypair of exactly 64 bytes; otherwise how many there are.
pub fn keypair_from_bytes(bytes: &Vec<u8>) -> (keypair: Result<[u8; 64], usize>)
    ensures
        match keypair {
            Ok(array) => bytes@.len() == 64 && array@ == bytes@,
            Err(len) => bytes@.len() != 64 && len == bytes@.len(),
        },
{
    if bytes.len() != 64 {
        return Err(bytes.len());
    }
    let mut array: [u8; 64] = [0u8;64];
    let mut i: usize = 0;
    while i < 64
        invariant
            i <= 64,
            bytes@.len() == 64,
            forall|j: int| 0 <= j < i ==> #[trigger] array@[j] == bytes@[j],
        decreases 64 - i,
    {
        array[i] = bytes[i];
        i = i + 1;
    }
    assert(array@ =~= bytes@);
    Ok(array)
}

/// Reads a Solana keypair from the text of a JSON file (array of 64 bytes). Bytes
/// 0..32 are the Ed25519 secret seed, 32..64 the public key.
pub fn parse_keypair(text: &str) -> (keypair: Result<[u8; 64], KeypairError>)
    ensures
        match keypair {
            Ok(array) => json_byte_array(text@) == Some(array@),
            Err(KeypairError::Malformed(_)) => json_byte_array(text@) is None,
            Err(KeypairError::WrongLength(len)) => json_byte_array(text@) matches Some(bytes)
                && bytes.len() != 64 && len == bytes.len(),
        },
{
    match json_bytes(text) {
        Ok(bytes) => match keypair_from_bytes(&bytes) {
            Ok(array) => Ok(array),
            Err(len) => Err(KeypairError::WrongLength(len)),
        },
        Err(error) => Err(KeypairError::Malformed(error)),
    }
}

/// The Base58 text of `bytes`, as `bs58::encode` gives it.
pub uninterp spec fn bs58_text(bytes: Seq<u8>) -> Seq<char>;

/// `bs58::encode` with the default alphabet, into a string.
#[verifier::external_body]
fn bs58_encode(bytes: &[u8]) -> (text: String)
    ensures
        text@ == bs58_text(bytes@),
{
    bs58::encode(bytes).into_string()
}

/// Base58 encodes the public key portion of a keypair.
pub fn bs58_pubkey(keypair: &[u8; 64]) -> (text: String)
    ensures
        text@ == bs58_text(public_key(keypair@)),
{
    bs58_encode(&keypair.as_slice()[32..64])
}

// ── Authentication ──────────────────────────────────────────────────────────

/// The Ed25519 signature of `message` under the key with seed `seed`, as
/// `ed25519_dalek` computes it.
pub uninterp spec fn ed25519_signature(seed: Seq<u8>, message: Seq<u8>) -> Seq<u8>;

/// `ed25519_dalek::SigningKey::sign` with the key that `SigningKey::from_bytes` makes
/// of `seed`, as the bytes of the signature.
#[verifier::external_body]
fn ed25519_sign(seed: &[u8], message: &[u8]) -> (signature: [u8; 64])
    requires
        seed@.len() == 32,
    ensures
        signature@ == ed25519_signature(seed@, message@),
{
    let seed: &[u8; 32] = seed.try_into().unwrap();
    ed25519_dalek::SigningKey::from_bytes(seed).sign(message).to_bytes()
}

/// The role in which a client authenticates.
#[derive(Clone, Copy, Debug, PartialEq, Eq, Structural)]
pub enum Role {
    ShredstreamSubscriber,
}

/// Request for an authentication challenge.
pub struct ChallengeRequest {
    pub role: Role,
    pub pubkey: Vec<u8>,
}

/// Makes the request for a challenge: it names the role and the public key.
pub fn challenge_request(keypair: &[u8; 64]) -> (request: ChallengeRequest)
    ensures
        request.role == Role::ShredstreamSubscriber,
        request.pubkey@ == public_key(keypair@),
{
    ChallengeRequest {
        role: Role::ShredstreamSubscriber,
        pubkey: vstd::slice::slice_to_vec(&keypair.as_slice()[32..64]),
    }
}

/// The text to sign: the Base58 public key and the server's challenge, with a hyphen
/// between.
pub open spec fn full_challenge(pubkey_b58: Seq<char>, server_challenge: Seq<char>) -> Seq<char> {
    pubkey_b58 + seq!['-'] + server_challenge
}

/// Puts the text to sign together.
pub fn challenge_text(pubkey_b58: &str, server_challenge: &str) -> (text: String)
    ensures
        text@ == full_challenge(pubkey_b58@, server_challenge@),
{
    proof {
        reveal_strlit("-");
    }
    let mut text: String = pubkey_b58.to_owned();
    text.append("-");
    text.append(server_challenge);
    assert("-"@ =~= seq!['-']);
    text
}

/// Request for tokens in exchange for a signed challenge.
pub struct TokensRequest {
    /// The full challenge text that was signed.
    pub challenge: String,
    pub client_pubkey: Vec<u8>,
    pub signed_challenge: Vec<u8>,
}

/// Makes the request for tokens out of a signature of the challenge.
pub fn signed_request(keypair: &[u8; 64], challenge: String, signature: [u8; 64]) -> (request:
    TokensRequest)
    ensures
        request.challenge@ == challenge@,
        request.client_pubkey@ == public_key(keypair@),
        request.signed_challenge@ == signature@,
{
    TokensRequest {
        challenge,
        client_pubkey: vstd::slice::slice_to_vec(&keypair.as_slice()[32..64]),
        signed_challenge: vstd::slice::slice_to_vec(signature.as_slice()),
    }
}

/// Answers the server's challenge: signs the UTF-8 bytes of the full challenge text
/// with the secret half of the keypair.
pub fn tokens_request(keypair: &[u8; 64], server_challenge: &str) -> (request: TokensRequest)
    ensures
        ({
            let text = full_challenge(bs58_text(public_key(keypair@)), server_challenge@);
            &&& request.challenge@ == text
            &&& request.client_pubkey@ == public_key(keypair@)
            &&& request.signed_challenge@ == ed25519_signature(
                secret_seed(keypair@),
                vstd::utf8::encode_utf8(text),
            )
        }),
{
    let pubkey_b58: String = bs58_pubkey(keypair);
    let challenge: String = challenge_text(pubkey_b58.as_str(), server_challenge);
    let signature: [u8; 64] = ed25519_sign(
        &keypair.as_slice()[0..32],
        challenge.as_str().as_bytes(),
    );
    signed_request(keypair, challenge, signature)
}

/// A protobuf timestamp: seconds since the unix epoch and nanoseconds.
#[derive(Clone, Copy, Debug, PartialEq, Eq, Structural)]
pub struct ProtoTimestamp {
    pub seconds: i64,
    pub nanos: i32,
}

/// `moment` is the one that `ts` stands for: the one with its seconds and
/// nanoseconds, and the unix epoch where `ts` is missing or no moment has them.
pub open spec fn stands_for(ts: Option<ProtoTimestamp>, moment: UtcTime) -> bool {
    match ts {
        Some(at) if at.nanos >= 0 && utc::valid_utc(at.seconds, at.nanos as u32) => {
            moment.seconds() == at.seconds && moment.subsec_nanos() == at.nanos
        },
        _ => moment.seconds() == 0 && moment.subsec_nanos() == 0,
    }
}

/// The moment that a timestamp stands for; the unix epoch where it is missing or
/// stands for none.
pub fn proto_ts_to_datetime(ts: Option<ProtoTimestamp>) -> (moment: UtcTime)
    ensures
        stands_for(ts, moment),
{
    match ts {
        Some(at) => {
            let nanos: u32 = #[verifier::truncate] (at.nanos as u32);
            proof {
                let given = at.nanos;
                assert(given < 0 ==> given as u32 >= 0x8000_0000) by (bit_vector);
            }
            match UtcTime::from_timestamp(at.seconds, nanos) {
                Some(moment) => moment,
                None => UtcTime::epoch(),
            }
        },
        None => UtcTime::epoch(),
    }
}

/// A token as the server sends it.
pub struct Token {
    pub value: String,
    pub expires_at_utc: Option<ProtoTimestamp>,
}

/// The tokens in use, with their expiries.
pub struct TokenPair {
    pub access_token: String,
    pub access_expires_at: UtcTime,
    pub refresh_token: String,
    pub refresh_expires_at: UtcTime,
}

/// What an answer of the authentication service lacks.
#[derive(Clone, Copy, Debug, PartialEq, Eq, Structural)]
pub enum AuthError {
    MissingAccessToken,
    MissingRefreshToken,
}

/// Takes the tokens out of the answer to a [`TokensRequest`].
pub fn token_pair(access: Option<Token>, refresh: Option<Token>) -> (tokens: Result<
    TokenPair,
    AuthError,
>)
    ensures
        match tokens {
            Ok(pair) => {
                &&& access matches Some(given)
                &&& pair.access_token@ == given.value@
                &&& stands_for(given.expires_at_utc, pair.access_expires_at)
                &&& refresh matches Some(renewal)
                &&& pair.refresh_token@ == renewal.value@
                &&& stands_for(renewal.expires_at_utc, pair.refresh_expires_at)
            },
            Err(AuthError::MissingAccessToken) => access is None,
            Err(AuthError::MissingRefreshToken) => access is Some && refresh is None,
        },
{
    match access {
        Some(access) => match refresh {
            Some(refresh) => Ok(
                TokenPair {
                    access_expires_at: proto_ts_to_datetime(access.expires_at_utc),
                    access_token: access.value,
                    refresh_expires_at: proto_ts_to_datetime(refresh.expires_at_utc),
                    refresh_token: refresh.value,
                },
            ),
            None => Err(AuthError::MissingRefreshToken),
        },
        None => Err(AuthError::MissingAccessToken),
    }
}

/// A token that expires within this many seconds is renewed.
pub const EXPIRY_MARGIN_SECS: u32 = 60;

/// A token that expires at `expires_at` is due for renewal at `now`: less than
/// [`EXPIRY_MARGIN_SECS`] seconds are left.
pub open spec fn is_expiring(expires_at: UtcTime, now: UtcTime) -> bool {
    expires_at.nanos_since(now) < EXPIRY_MARGIN_SECS * 1_000_000_000
}

/// How to come by a new access token.
pub enum RefreshPlan {
    /// The refresh token is expiring too: authenticate from scratch.
    Reauthenticate,
    /// Exchange this refresh token.
    RefreshAccess(String),
}

/// Decides how to renew the access token at `now`.
pub fn plan_refresh(tokens: &TokenPair, now: &UtcTime) -> (plan: RefreshPlan)
    ensures
        match plan {
            RefreshPlan::Reauthenticate => is_expiring(tokens.refresh_expires_at, *now),
            RefreshPlan::RefreshAccess(token) => !is_expiring(tokens.refresh_expires_at, *now)
                && token@ == tokens.refresh_token@,
        },
{
    if tokens.refresh_expires_at.is_within(EXPIRY_MARGIN_SECS, now) {
        RefreshPlan::Reauthenticate
    } else {
        RefreshPlan::RefreshAccess(tokens.refresh_token.clone())
    }
}

/// Takes the new access token out of the answer to a refresh; the refresh token stays.
pub fn refreshed_tokens(tokens: &TokenPair, access: Option<Token>) -> (renewed: Result<
    TokenPair,
    AuthError,
>)
    ensures
        match renewed {
            Ok(pair) => {
                &&& access matches Some(given)
                &&& pair.access_token@ == given.value@
                &&& stands_for(given.expires_at_utc, pair.access_expires_at)
                &&& pair.refresh_token@ == tokens.refresh_token@
                &&& pair.refresh_expires_at == tokens.refresh_expires_at
            },
            Err(error) => access is None && error == AuthError::MissingAccessToken,
        },
{
    match access {
        Some(access) => Ok(
            TokenPair {
                access_expires_at: proto_ts_to_datetime(access.expires_at_utc),
                access_token: access.value,
                refresh_token: tokens.refresh_token.clone(),
                refresh_expires_at: tokens.refresh_expires_at,
            },
        ),
        None => Err(AuthError::MissingAccessToken),
    }
}

// ── Heartbeats ──────────────────────────────────────────────────────────────

/// Time to live assumed after a heartbeat that failed, in milliseconds.
pub const FAILED_TTL_MILLIS: u64 = 1000;

/// Shortest wait between heartbeats, in milliseconds.
pub const MIN_WAIT_MILLIS: u64 = 500;

/// The wait after a heartbeat that was answered with the time to live `ttl_millis`, or
/// not at all: half the time to live, but no less than [`MIN_WAIT_MILLIS`].
pub open spec fn wait_after(ttl_millis: Option<u32>) -> u64 {
    let ttl = match ttl_millis {
        Some(given) => given as u64,
        None => FAILED_TTL_MILLIS,
    };
    if ttl / 2 < MIN_WAIT_MILLIS {
        MIN_WAIT_MILLIS
    } else {
        ttl / 2
    }
}

/// How long to wait before the next heartbeat, in milliseconds.
pub fn heartbeat_wait(ttl_millis: Option<u32>) -> (wait: u64)
    ensures
        wait == wait_after(ttl_millis),
{
    let ttl: u64 = match ttl_millis {
        Some(given) => given as u64,
        None => FAILED_TTL_MILLIS,
    };
    if ttl / 2 < MIN_WAIT_MILLIS {
        MIN_WAIT_MILLIS
    } else {
        ttl / 2
    }
}

/// The authorization of a request with `token`.
pub open spec fn bearer_text(token: Seq<char>) -> Seq<char> {
    seq!['B', 'e', 'a', 'r', 'e', 'r', ' '] + token
}

/// Makes the authorization of a request.
pub fn bearer(token: &str) -> (text: String)
    ensures
        text@ == bearer_text(token@),
{
    proof {
        reveal_strlit("Bearer ");
    }
    let mut text: String = "Bearer ".to_owned();
    text.append(token);
    assert("Bearer "@ =~= seq!['B', 'e', 'a', 'r', 'e', 'r', ' ']);
    text
}

/// What has happened in the heartbeat loop.
pub enum HeartbeatEvent {
    /// A round begins.
    Round { cancelled: bool },
    /// The time was read for this round.
    TimeRead(UtcTime),
    /// The renewal of the access token ended, with new tokens if it succeeded.
    Renewed(Option<TokenPair>),
    /// The heartbeat was answered with a time to live in milliseconds, or failed.
    Answered(Option<u32>),
    /// The loop was cancelled while it waited.
    Interrupted,
}

/// What the heartbeat loop does next.
pub enum HeartbeatAction {
    /// Leave the loop.
    Stop,
    /// Read the time.
    ReadTime,
    /// Renew the access token (see [`plan_refresh`]).
    Renew,
    /// Send a heartbeat with this authorization.
    Beat(String),
    /// Wait this many milliseconds, then begin the next round.
    Wait(u64),
}

/// State of the heartbeat loop.
pub struct HeartbeatLoop {
    pub tokens: TokenPair,
}

impl HeartbeatLoop {
    /// Decides what follows on an event: a round ends at once when cancelled, renews
    /// an expiring access token before its heartbeat, and sends the heartbeat with
    /// the tokens at hand also where the renewal failed.
    pub fn next(&mut self, event: HeartbeatEvent) -> (action: HeartbeatAction)
        ensures
            final(self).tokens == (match event {
                HeartbeatEvent::Renewed(Some(tokens)) => tokens,
                _ => old(self).tokens,
            }),
            match event {
                HeartbeatEvent::Round { cancelled } => if cancelled {
                    action is Stop
                } else {
                    action is ReadTime
                },
                HeartbeatEvent::TimeRead(now) => if is_expiring(old(self).tokens.access_expires_at, now) {
                    action is Renew
                } else {
                    action matches HeartbeatAction::Beat(text) && text@ == bearer_text(
                        old(self).tokens.access_token@,
                    )
                },
                HeartbeatEvent::Renewed(tokens) => action matches HeartbeatAction::Beat(text)
                    && text@ == bearer_text(final(self).tokens.access_token@),
                HeartbeatEvent::Answered(ttl_millis) => action matches HeartbeatAction::Wait(wait)
                    && wait == wait_after(ttl_millis),
                HeartbeatEvent::Interrupted => action is Stop,
            },
    {
        match event {
            HeartbeatEvent::Round { cancelled } => {
                if cancelled {
                    HeartbeatAction::Stop
                } else {
                    HeartbeatAction::ReadTime
                }
            },
            HeartbeatEvent::TimeRead(now) => {
                if self.tokens.access_expires_at.is_within(EXPIRY_MARGIN_SECS, &now) {
                    HeartbeatAction::Renew
                } else {
                    HeartbeatAction::Beat(bearer(self.tokens.access_token.as_str()))
                }
            },
            HeartbeatEvent::Renewed(renewed) => {
                if let Some(tokens) = renewed {
                    self.tokens = tokens;
                }
                HeartbeatAction::Beat(bearer(self.tokens.access_token.as_str()))
            },
            HeartbeatEvent::Answered(ttl_millis) => HeartbeatAction::Wait(
                heartbeat_wait(ttl_millis),
            ),
            HeartbeatEvent::Interrupted => HeartbeatAction::Stop,
        }
    }
}

/// However the server answers, heartbeats are at least [`MIN_WAIT_MILLIS`] apart, and
/// with a time to live of at least twice that the next one comes before it runs out.
pub proof fn law_heartbeat_comes_in_time(ttl_millis: Option<u32>)
    ensures
        wait_after(ttl_millis) >= MIN_WAIT_MILLIS,
        ttl_millis matches Some(ttl) ==> (ttl >= 2 * MIN_WAIT_MILLIS ==> wait_after(ttl_millis)
            < ttl),
{
}

/// A token that is expiring stays so as time goes on, between moments outside leap
/// seconds.
pub proof fn law_expiry_is_final(expires_at: UtcTime, now: UtcTime, later: UtcTime)
    requires
        expires_at.subsec_nanos() < 1_000_000_000,
        now.subsec_nanos() < 1_000_000_000,
        later.subsec_nanos() < 1_000_000_000,
        later.nanos_since(now) >= 0,
        is_expiring(expires_at, now),
    ensures
        is_expiring(expires_at, later),
{
}

// ── Entries ─────────────────────────────────────────────────────────────────

/// What the entry stream gave.
pub enum EntryMessage {
    /// An entry of this slot.
    Entry { slot: u64 },
    /// The stream failed.
    Failed,
    /// The stream ended, or the subscription was cancelled.
    Ended,
}

/// What to do about it.
pub enum EntryStep {
    /// Send this event and go on.
    Send(SlotEvent),
    /// Give up this connection as failed.
    Fail,
    /// Leave the stream for good.
    Finish,
}

/// Decides what follows on a message of the entry stream that was read at `now`.
pub fn entry_step(source: SourceId, message: EntryMessage, now: Instant) -> (step: EntryStep)
    ensures
        match message {
            EntryMessage::Entry { slot } => step == EntryStep::Send(
                SlotEvent { source, slot, received_at: now },
            ),
            EntryMessage::Failed => step is Fail,
            EntryMessage::Ended => step is Finish,
        },
{
    match message {
        EntryMessage::Entry { slot } => EntryStep::Send(
            SlotEvent { source, slot, received_at: now },
        ),
        EntryMessage::Failed => EntryStep::Fail,
        EntryMessage::Ended => EntryStep::Finish,
    }
}

/// What the supervisor of the entry stream does next.
#[derive(Clone, Copy, Debug, PartialEq, Eq, Structural)]
pub enum StreamStep {
    /// Connect.
    Connect,
    /// Stop.
    Stop,
    /// Wait this many milliseconds, then look again.
    RetryAfter(u64),
}

/// Milliseconds between a failed connection and the next.
pub const RECONNECT_MILLIS: u64 = 2000;

/// Before a connection: stop when cancelled.
pub fn before_connection(cancelled: bool) -> (step: StreamStep)
    ensures
        step == (if cancelled {
            StreamStep::Stop
        } else {
            StreamStep::Connect
        }),
{
    if cancelled {
        StreamStep::Stop
    } else {
        StreamStep::Connect
    }
}

/// After a connection: stop when it finished, try again when it failed.
pub fn after_connection(failed: bool) -> (step: StreamStep)
    ensures
        step == (if failed {
            StreamStep::RetryAfter(RECONNECT_MILLIS)
        } else {
            StreamStep::Stop
        }),
{
    if failed {
        StreamStep::RetryAfter(RECONNECT_MILLIS)
    } else {
        StreamStep::Stop
    }
}

/// A keypair is its secret half followed by its public half, 32 bytes each.
pub proof fn law_keypair_is_its_two_halves(keypair: Seq<u8>)
    requires
        keypair.len() == 64,
    ensures
        secret_seed(keypair).len() == 32,
        public_key(keypair).len() == 32,
        secret_seed(keypair) + public_key(keypair) == keypair,
{
    assert(secret_seed(keypair) + public_key(keypair) =~= keypair);
}

/// The text to sign starts with the Base58 key, has a hyphen behind it, and behind that the
/// server's challenge, character for character and to its end.
pub proof fn law_challenge_is_answered_whole(
    pubkey_b58: Seq<char>,
    server_challenge: Seq<char>,
)
    ensures
        ({
            let text = full_challenge(pubkey_b58, server_challenge);
            &&& text.len() == pubkey_b58.len() + 1 + server_challenge.len()
            &&& forall|i: int| 0 <= i < pubkey_b58.len() ==> #[trigger] text[i] == pubkey_b58[i]
            &&& text[pubkey_b58.len() as int] == '-'
            &&& forall|i: int|
                0 <= i < server_challenge.len() ==> text[pubkey_b58.len() + 1 + i]
                    == #[trigger] server_challenge[i]
            &&& text.skip(pubkey_b58.len() as int + 1) == server_challenge
        }),
{
    let text = full_challenge(pubkey_b58, server_challenge);
    assert(text.skip(pubkey_b58.len() as int + 1) =~= server_challenge);
}

/// Different challenges of the server give different texts to sign, and so do different keys
/// of the same length.
pub proof fn law_different_challenges_have_different_answers(
    pubkey_b58: Seq<char>,
    other_b58: Seq<char>,
    left: Seq<char>,
    right: Seq<char>,
)
    requires
        pubkey_b58.len() == other_b58.len(),
    ensures
        full_challenge(pubkey_b58, left) == full_challenge(other_b58, right) <==> pubkey_b58
            == other_b58 && left == right,
{
    law_challenge_is_answered_whole(pubkey_b58, left);
    law_challenge_is_answered_whole(other_b58, right);
    if full_challenge(pubkey_b58, left) == full_challenge(other_b58, right) {
        assert forall|i: int| 0 <= i < pubkey_b58.len() implies #[trigger] pubkey_b58[i]
            == other_b58[i] by {
            assert(full_challenge(pubkey_b58, left)[i] == full_challenge(other_b58, right)[i]);
        }
        assert(pubkey_b58 =~= other_b58);
    }
}

/// A timestamp whose seconds lie between the start of the year -262143 and the end of the
/// year 262142 stands for the moment with its seconds and nanoseconds, where the nanoseconds
/// are less than a second, or less than two in the last second of a minute. Every other
/// timestamp, and a missing one, stands for the unix epoch.
pub proof fn law_timestamps_stand_for_their_moments(ts: ProtoTimestamp, moment: UtcTime)
    ensures
        ({
            let expressed = {
                &&& -8_334_601_228_800 <= ts.seconds <= 8_210_266_876_799
                &&& 0 <= ts.nanos
                &&& ts.nanos < 1_000_000_000 || ts.nanos < 2_000_000_000 && (ts.seconds + 1) % 60
                    == 0
            };
            &&& expressed ==> (stands_for(Some(ts), moment) <==> moment.seconds() == ts.seconds
                && moment.subsec_nanos() == ts.nanos)
            &&& !expressed ==> (stands_for(Some(ts), moment) <==> moment.seconds() == 0
                && moment.subsec_nanos() == 0)
            &&& stands_for(None, moment) <==> moment.seconds() == 0 && moment.subsec_nanos() == 0
        }),
{
}

/// A token is expiring where less than a minute is left, counted in nanoseconds between
/// moments outside leap seconds.
pub proof fn law_expiring_is_less_than_a_minute(expires_at: UtcTime, now: UtcTime)
    ensures
        expires_at.subsec_nanos() < 1_000_000_000 && now.subsec_nanos() < 1_000_000_000 ==> (
        is_expiring(expires_at, now) <==> (expires_at.seconds() - now.seconds()) * 1_000_000_000 + (
        expires_at.subsec_nanos() - now.subsec_nanos()) < 60_000_000_000),
        is_expiring(expires_at, now) <==> expires_at.nanos_since(now) < 60_000_000_000,
{
}

/// A heartbeat is followed by a wait of half its time to live, rounded down to a millisecond,
/// or of half a second where that is longer; one that failed by a wait of half a second.
pub proof fn law_wait_is_half_the_time_to_live(ttl: u32)
    ensures
        ttl >= 1000 ==> 2 * wait_after(Some(ttl)) <= ttl < 2 * wait_after(Some(ttl)) + 2,
        ttl < 1000 ==> wait_after(Some(ttl)) == 500,
        wait_after(None) == 500,
{
}

/// An authorization is the word `Bearer`, a blank, and the token character for character and
/// to its end.
pub proof fn law_authorization_carries_the_token(token: Seq<char>)
    ensures
        bearer_text(token).len() == token.len() + 7,
        bearer_text(token).take(7) == "Bearer "@,
        bearer_text(token).skip(7) == token,
{
    reveal_strlit("Bearer ");
    assert(bearer_text(token).take(7) =~= "Bearer "@);
    assert(bearer_text(token).skip(7) =~= token);
}

} // verus!
