//! Authentication of clipboard-image requests from the injected paste script,
//! and the shaping of the image that is handed back.
//!
//! The host holds a session key. The script signs
//! `context ++ nonce ++ ":" ++ issued_at` with HMAC-SHA256 under that key; the
//! host accepts a request only when the signature matches, the timestamp is
//! recent, and the nonce has not been consumed within the replay window.

use crate::decimal::{decimal_bytes, decimal_digits};
use crate::hex::{decode_nonce, malformed_nonce_message, nonce_of_text, NONCE_BYTES};
use crate::trusted::{
    base64_char, base64_decode, base64_encode, base64_standard_decoding, base64_standard_encoding,
    duration_millis, duration_nanos, hmac_sha256, hmac_sha256_tag, instant_elapsed, instant_now,
    random_error_text, random_key, since_unix_epoch, system_time_now,
};
use std::collections::HashMap;
use std::time::Instant;
use vstd::prelude::*;
use vstd::std_specs::hash::{group_hash_axioms, spec_hash_map_iter};
use vstd::std_specs::iter::IteratorSpec;
use vstd::string::StringSliceAdditionalSpecFns;
use vstd::utf8::encode_utf8;

verus! {

broadcast use group_hash_axioms;

/// Bytes in the session key.
pub const BRIDGE_SECRET_BYTES: usize = 32;

/// Bytes in an HMAC-SHA256 proof.
pub const PROOF_BYTES: usize = 32;

/// How old (in milliseconds of wall-clock time) a request may be.
pub const NONCE_TTL_MILLIS: u128 = 5000;

/// How long (in nanoseconds of monotonic time) a consumed nonce is remembered.
pub const NONCE_TTL_NANOS: u128 = 5_000_000_000;

/// How many consumed nonces may be remembered at once.
pub const MAX_USED_NONCES: usize = 256;

/// The largest clipboard image, in pixels, that is encoded.
pub const MAX_PIXELS: u64 = 50_000_000;

// ---------------------------------------------------------------------------
// The signed message
// ---------------------------------------------------------------------------

/// The domain-separation prefix of every signed message.
pub open spec fn signing_context() -> Seq<u8> {
    encode_utf8("dsh-clipboard-image-v1:"@)
}

/// The message the paste script signs for a request: the context, the nonce
/// exactly as sent, a colon, and the decimal digits of the timestamp.
pub open spec fn proof_message(nonce_text: Seq<u8>, issued_at: u64) -> Seq<u8> {
    signing_context() + nonce_text + seq![58u8] + decimal_digits(issued_at as nat)
}

/// The proof a holder of `key` computes for a request.
pub open spec fn expected_tag(key: Seq<u8>, nonce_text: Seq<u8>, issued_at: u64) -> Seq<u8> {
    hmac_sha256(key, proof_message(nonce_text, issued_at))
}

fn append_bytes(out: &mut Vec<u8>, bytes: &[u8])
    ensures
        final(out)@ == old(out)@ + bytes@,
{
    let mut i: usize = 0;
    while i < bytes.len()
        invariant
            0 <= i <= bytes@.len(),
            out@ == old(out)@ + bytes@.subrange(0, i as int),
        decreases bytes@.len() - i,
    {
        out.push(bytes[i]);
        i = i + 1;
        assert(out@ =~= old(out)@ + bytes@.subrange(0, i as int));
    }
    assert(bytes@.subrange(0, bytes@.len() as int) =~= bytes@);
}

/// Builds the message that is signed for a request.
pub fn signed_message(nonce: &str, issued_at: u64) -> (message: Vec<u8>)
    ensures
        message@ == proof_message(nonce.spec_bytes(), issued_at),
{
    let mut message: Vec<u8> = Vec::new();
    append_bytes(&mut message, "dsh-clipboard-image-v1:".as_bytes());
    append_bytes(&mut message, nonce.as_bytes());
    message.push(58u8);
    let digits = decimal_bytes(issued_at as u128);
    append_bytes(&mut message, digits.as_slice());
    assert(message@ =~= proof_message(nonce.spec_bytes(), issued_at));
    message
}

/// Compares two byte strings, visiting every byte of equal-length inputs
/// whatever their contents.
pub fn constant_time_equal(left: &[u8], right: &[u8]) -> (equal: bool)
    ensures
        equal == (left@ == right@),
{
    if left.len() != right.len() {
        return false;
    }
    let mut difference: u8 = 0;
    let mut i: usize = 0;
    while i < left.len()
        invariant
            left@.len() == right@.len(),
            0 <= i <= left@.len(),
            (difference == 0) == (forall|k: int| 0 <= k < i ==> left@[k] == right@[k]),
        decreases left@.len() - i,
    {
        let l = left[i];
        let r = right[i];
        assert(((difference | (l ^ r)) == 0u8) == (difference == 0u8 && l == r)) by (bit_vector);
        difference = difference | (l ^ r);
        i = i + 1;
    }
    assert(difference == 0 ==> left@ =~= right@);
    difference == 0
}

// ---------------------------------------------------------------------------
// Timestamps
// ---------------------------------------------------------------------------

/// A request issued at `issued_at` (milliseconds since the Unix epoch) is fresh
/// at wall-clock reading `now` when it is not in the future and at most five
/// seconds old. A clock before the epoch (`None`) makes nothing fresh.
pub open spec fn timestamp_fresh(issued_at: u64, now: Option<u128>) -> bool {
    match now {
        None => false,
        Some(now) => issued_at <= now && now - issued_at <= NONCE_TTL_MILLIS,
    }
}

/// Decides freshness against a given wall-clock reading.
pub fn timestamp_is_fresh_at(issued_at: u64, now: Option<u128>) -> (fresh: bool)
    ensures
        fresh == timestamp_fresh(issued_at, now),
{
    match now {
        None => false,
        Some(now) => {
            let issued = issued_at as u128;
            if issued > now {
                false
            } else {
                now - issued <= NONCE_TTL_MILLIS
            }
        },
    }
}

/// Reads the wall clock in milliseconds since the Unix epoch; `None` when the
/// clock stands before the epoch.
fn wall_clock_millis() -> Option<u128> {
    let now = system_time_now();
    match since_unix_epoch(&now) {
        Ok(elapsed) => Some(duration_millis(&elapsed)),
        Err(_) => None,
    }
}

/// Decides whether a request timestamp is fresh now.
pub fn timestamp_is_fresh(issued_at: u64) -> (fresh: bool)
    ensures
        exists|reading: Option<u128>| fresh == timestamp_fresh(issued_at, reading),
{
    let reading = wall_clock_millis();
    let fresh = timestamp_is_fresh_at(issued_at, reading);
    assert(fresh == timestamp_fresh(issued_at, reading));
    fresh
}

// ---------------------------------------------------------------------------
// The ledger of consumed nonces
// ---------------------------------------------------------------------------

/// `256` to the power `n`.
pub open spec fn pow256(n: nat) -> nat
    decreases n,
{
    if n == 0 {
        1
    } else {
        256 * pow256((n - 1) as nat)
    }
}

/// The number that `bytes` spell in base 256, most significant byte first:
/// the key under which a nonce is remembered.
pub open spec fn nonce_value(bytes: Seq<u8>) -> nat
    decreases bytes.len(),
{
    if bytes.len() == 0 {
        0
    } else {
        nonce_value(bytes.drop_last()) * 256 + bytes.last() as nat
    }
}

/// A value spelled by `n` bytes is below `256^n`.
pub proof fn lemma_nonce_value_bound(bytes: Seq<u8>)
    ensures
        nonce_value(bytes) < pow256(bytes.len()),
    decreases bytes.len(),
{
    if bytes.len() > 0 {
        lemma_nonce_value_bound(bytes.drop_last());
        let p = nonce_value(bytes.drop_last());
        let q = pow256((bytes.len() - 1) as nat);
        let b = bytes.last() as nat;
        assert(p * 256 + b < 256 * q) by (nonlinear_arith)
            requires
                p < q,
                b < 256,
        ;
    }
}

/// Two byte strings of one length spell the same value only when they are
/// equal: the key of a nonce determines the nonce.
pub proof fn lemma_nonce_value_injective(a: Seq<u8>, b: Seq<u8>)
    requires
        a.len() == b.len(),
        nonce_value(a) == nonce_value(b),
    ensures
        a == b,
    decreases a.len(),
{
    if a.len() > 0 {
        let pa = nonce_value(a.drop_last());
        let pb = nonce_value(b.drop_last());
        let la = a.last() as int;
        let lb = b.last() as int;
        assert(la == lb && pa == pb) by (nonlinear_arith)
            requires
                pa * 256 + la == pb * 256 + lb,
                0 <= la < 256,
                0 <= lb < 256,
                pa >= 0,
                pb >= 0,
        ;
        lemma_nonce_value_injective(a.drop_last(), b.drop_last());
        assert(a =~= a.drop_last().push(a.last()));
        assert(b =~= b.drop_last().push(b.last()));
    }
}

/// The ledger key of a nonce.
pub fn nonce_key(nonce: &[u8; NONCE_BYTES]) -> (key: u128)
    ensures
        key == nonce_value(nonce@),
{
    let mut key: u128 = 0;
    let mut i: usize = 0;
    while i < NONCE_BYTES
        invariant
            0 <= i <= NONCE_BYTES,
            nonce@.len() == NONCE_BYTES,
            key == nonce_value(nonce@.take(i as int)),
        decreases NONCE_BYTES - i,
    {
        proof {
            assert(nonce@.take(i + 1).drop_last() =~= nonce@.take(i as int));
            lemma_nonce_value_bound(nonce@.take(i + 1));
            assert(pow256((i + 1) as nat) <= pow256(16)) by {
                lemma_pow256_monotone((i + 1) as nat, 16);
            }
            reveal_with_fuel(pow256, 17);
        }
        key = key * 256 + nonce[i] as u128;
        i = i + 1;
    }
    assert(nonce@.take(NONCE_BYTES as int) =~= nonce@);
    key
}

/// Powers of 256 grow with the exponent.
pub proof fn lemma_pow256_monotone(m: nat, n: nat)
    requires
        m <= n,
    ensures
        pow256(m) <= pow256(n),
    decreases n,
{
    if m < n {
        lemma_pow256_monotone(m, (n - 1) as nat);
    }
}

/// An entry consumed at `used_at` is still remembered at monotonic reading
/// `now` unless more than the replay window has passed (a reading earlier
/// than `used_at` counts as no time passed).
pub open spec fn still_live(used_at: u128, now: u128) -> bool {
    now < used_at || now - used_at <= NONCE_TTL_NANOS
}

/// The entries of `ledger` (nonce key to the monotonic reading at which it
/// was consumed) still remembered at `now`.
pub open spec fn live_entries(ledger: Map<u128, u128>, now: u128) -> Map<u128, u128> {
    Map::new(
        |k: u128| ledger.contains_key(k) && still_live(ledger[k], now),
        |k: u128| ledger[k],
    )
}

/// A well-formed ledger: finite and within its capacity.
pub open spec fn ledger_wf(ledger: Map<u128, u128>) -> bool {
    ledger.dom().finite() && ledger.dom().len() <= MAX_USED_NONCES
}

/// Forgetting old entries keeps a ledger well formed.
pub proof fn lemma_live_entries_wf(ledger: Map<u128, u128>, now: u128)
    requires
        ledger_wf(ledger),
    ensures
        ledger_wf(live_entries(ledger, now)),
        live_entries(ledger, now) <= ledger,
{
    let live = live_entries(ledger, now);
    assert(live.dom().subset_of(ledger.dom()));
    vstd::set_lib::lemma_len_subset(live.dom(), ledger.dom());
}

/// Keeps the entries of the ledger still inside the replay window at `now`.
fn live_nonces(used: &HashMap<u128, u128>, now: u128) -> (live: HashMap<u128, u128>)
    ensures
        live@ == live_entries(used@, now),
{
    let mut live: HashMap<u128, u128> = HashMap::new();
    let ghost all = spec_hash_map_iter(used).remaining();
    let ghost mut seen: int = 0;
    for entry in it: used.iter()
        invariant
            it.seq() == all,
            seen == it.index(),
            forall|k: u128| #[trigger]
                live@.contains_key(k) ==> used@.contains_key(k) && still_live(used@[k], now)
                    && live@[k] == used@[k],
            forall|i: int|
                0 <= i < seen && still_live(*all[i].1, now) ==> #[trigger] live@.contains_key(
                    *all[i].0,
                ),
    {
        let (k, used_at) = entry;
        if now < *used_at || now - *used_at <= NONCE_TTL_NANOS {
            live.insert(*k, *used_at);
        }
        proof {
            seen = seen + 1;
        }
    }
    assert(seen == all.len());
    assert forall|k: u128| used@.contains_key(k) && still_live(used@[k], now) implies #[trigger] live@.contains_key(k) by {
        assert(all.contains((&k, &used@[k])));
        let i = choose|i: int| 0 <= i < all.len() && all[i] == (&k, &used@[k]);
        assert(*all[i].0 == k);
    }
    assert(live@ =~= live_entries(used@, now));
    live
}

// ---------------------------------------------------------------------------
// Verification of a request
// ---------------------------------------------------------------------------

/// Error text: the nonce is not 32 hexadecimal digits.
pub open spec fn nonce_invalid_message() -> Seq<char> {
    malformed_nonce_message()
}

/// Error text: the proof is not base64 of 32 bytes.
pub open spec fn malformed_proof_message() -> Seq<char> {
    "CLIPBOARD_AUTH_INVALID: malformed proof"@
}

/// Error text: the proof does not match.
pub open spec fn invalid_proof_message() -> Seq<char> {
    "CLIPBOARD_AUTH_INVALID: invalid proof"@
}

/// Error text: the request is too old or from the future.
pub open spec fn expired_message() -> Seq<char> {
    "CLIPBOARD_NONCE_EXPIRED: request timestamp is stale"@
}

/// Error text: the nonce was consumed within the replay window.
pub open spec fn replay_message() -> Seq<char> {
    "CLIPBOARD_NONCE_REPLAY: request already consumed"@
}

/// Error text: the ledger is full.
pub open spec fn rate_limited_message() -> Seq<char> {
    "CLIPBOARD_RATE_LIMITED: too many pending requests"@
}

/// Whether a request passes the nonce, proof and timestamp checks, which come
/// before the ledger is consulted.
pub open spec fn request_authentic(
    key: Seq<u8>,
    nonce_text: Seq<u8>,
    issued_at: u64,
    proof_text: Seq<char>,
    wall: Option<u128>,
) -> bool {
    &&& nonce_of_text(nonce_text) is Some
    &&& base64_standard_decoding(proof_text) is Some
    &&& base64_standard_decoding(proof_text)->0.len() == PROOF_BYTES
    &&& base64_standard_decoding(proof_text)->0 == expected_tag(key, nonce_text, issued_at)
    &&& timestamp_fresh(issued_at, wall)
}

/// The error a request meets, if any, checked in order: nonce, proof shape,
/// proof value, freshness, replay, capacity.
pub open spec fn consume_error(
    key: Seq<u8>,
    ledger: Map<u128, u128>,
    nonce_text: Seq<u8>,
    issued_at: u64,
    proof_text: Seq<char>,
    wall: Option<u128>,
    mono: u128,
) -> Option<Seq<char>> {
    match nonce_of_text(nonce_text) {
        None => Some(nonce_invalid_message()),
        Some(nonce) => match base64_standard_decoding(proof_text) {
            None => Some(malformed_proof_message()),
            Some(proof) => if proof.len() != PROOF_BYTES {
                Some(malformed_proof_message())
            } else if proof != expected_tag(key, nonce_text, issued_at) {
                Some(invalid_proof_message())
            } else if !timestamp_fresh(issued_at, wall) {
                Some(expired_message())
            } else if live_entries(ledger, mono).contains_key(nonce_value(nonce) as u128) {
                Some(replay_message())
            } else if live_entries(ledger, mono).dom().len() >= MAX_USED_NONCES {
                Some(rate_limited_message())
            } else {
                None
            },
        },
    }
}

/// The ledger after a request: unchanged when the request fails before the
/// ledger is consulted; otherwise the remembered entries, plus the key of the
/// request's nonce, consumed at `mono`, when it is accepted.
pub open spec fn ledger_after(
    key: Seq<u8>,
    ledger: Map<u128, u128>,
    nonce_text: Seq<u8>,
    issued_at: u64,
    proof_text: Seq<char>,
    wall: Option<u128>,
    mono: u128,
) -> Map<u128, u128> {
    if !request_authentic(key, nonce_text, issued_at, proof_text, wall) {
        ledger
    } else if consume_error(key, ledger, nonce_text, issued_at, proof_text, wall, mono) is Some {
        live_entries(ledger, mono)
    } else {
        live_entries(ledger, mono).insert(nonce_value(nonce_of_text(nonce_text)->0) as u128, mono)
    }
}

/// Whether `text` begins with `prefix`.
pub open spec fn starts_with(text: Seq<char>, prefix: Seq<char>) -> bool {
    prefix.len() <= text.len() && text.subrange(0, prefix.len() as int) == prefix
}

/// The beginning of the error text when no session key can be drawn.
pub open spec fn init_error_prefix() -> Seq<char> {
    "CLIPBOARD_BRIDGE_INIT: secure random unavailable: "@
}

// ---------------------------------------------------------------------------
// Laws of request verification
// ---------------------------------------------------------------------------

/// A nonce is single use: once a request is accepted, no request with the
/// same nonce text is accepted again while the first is inside the replay
/// window, and an authentic one is refused as a replay.
pub proof fn lemma_nonce_single_use(
    key: Seq<u8>,
    ledger: Map<u128, u128>,
    nonce_text: Seq<u8>,
    first_issued_at: u64,
    first_proof: Seq<char>,
    first_wall: Option<u128>,
    first_mono: u128,
    second_issued_at: u64,
    second_proof: Seq<char>,
    second_wall: Option<u128>,
    second_mono: u128,
)
    requires
        consume_error(key, ledger, nonce_text, first_issued_at, first_proof, first_wall, first_mono)
            is None,
        still_live(first_mono, second_mono),
    ensures
        ({
            let after = ledger_after(
                key,
                ledger,
                nonce_text,
                first_issued_at,
                first_proof,
                first_wall,
                first_mono,
            );
            let second = consume_error(
                key,
                after,
                nonce_text,
                second_issued_at,
                second_proof,
                second_wall,
                second_mono,
            );
            &&& second is Some
            &&& request_authentic(key, nonce_text, second_issued_at, second_proof, second_wall)
                ==> second == Some(replay_message())
        }),
{
    let after = ledger_after(
        key,
        ledger,
        nonce_text,
        first_issued_at,
        first_proof,
        first_wall,
        first_mono,
    );
    let k = nonce_value(nonce_of_text(nonce_text)->0) as u128;
    assert(request_authentic(key, nonce_text, first_issued_at, first_proof, first_wall));
    assert(after == live_entries(ledger, first_mono).insert(k, first_mono));
    assert(live_entries(after, second_mono).contains_key(k));
}

/// A refused request never adds to the ledger: what remains is part of what
/// was there; and a request refused on its nonce, proof or timestamp leaves
/// the ledger exactly as it was.
pub proof fn lemma_refused_request_adds_nothing(
    key: Seq<u8>,
    ledger: Map<u128, u128>,
    nonce_text: Seq<u8>,
    issued_at: u64,
    proof_text: Seq<char>,
    wall: Option<u128>,
    mono: u128,
)
    requires
        consume_error(key, ledger, nonce_text, issued_at, proof_text, wall, mono) is Some,
    ensures
        ledger_after(key, ledger, nonce_text, issued_at, proof_text, wall, mono) <= ledger,
        !request_authentic(key, nonce_text, issued_at, proof_text, wall) ==> ledger_after(
            key,
            ledger,
            nonce_text,
            issued_at,
            proof_text,
            wall,
            mono,
        ) == ledger,
{
}

/// An authentic request whose nonce is not remembered is accepted while the
/// ledger has room, and its nonce is then remembered.
pub proof fn lemma_authentic_new_request_accepted(
    key: Seq<u8>,
    ledger: Map<u128, u128>,
    nonce_text: Seq<u8>,
    issued_at: u64,
    proof_text: Seq<char>,
    wall: Option<u128>,
    mono: u128,
)
    requires
        request_authentic(key, nonce_text, issued_at, proof_text, wall),
        !live_entries(ledger, mono).contains_key(nonce_value(nonce_of_text(nonce_text)->0) as u128),
        live_entries(ledger, mono).dom().len() < MAX_USED_NONCES,
    ensures
        consume_error(key, ledger, nonce_text, issued_at, proof_text, wall, mono) is None,
        ledger_after(key, ledger, nonce_text, issued_at, proof_text, wall, mono).contains_key(
            nonce_value(nonce_of_text(nonce_text)->0) as u128,
        ),
{
}

/// The ledger never holds more than its capacity: every outcome of a request
/// on a well-formed ledger is well formed.
pub proof fn lemma_ledger_stays_wf(
    key: Seq<u8>,
    ledger: Map<u128, u128>,
    nonce_text: Seq<u8>,
    issued_at: u64,
    proof_text: Seq<char>,
    wall: Option<u128>,
    mono: u128,
)
    requires
        ledger_wf(ledger),
    ensures
        ledger_wf(ledger_after(key, ledger, nonce_text, issued_at, proof_text, wall, mono)),
{
    lemma_live_entries_wf(ledger, mono);
    let live = live_entries(ledger, mono);
    if request_authentic(key, nonce_text, issued_at, proof_text, wall) && consume_error(
        key,
        ledger,
        nonce_text,
        issued_at,
        proof_text,
        wall,
        mono,
    ) is None {
        let k = nonce_value(nonce_of_text(nonce_text)->0) as u128;
        assert(live.insert(k, mono).dom() =~= live.dom().insert(k));
    }
}

/// Nonces are forgotten once the replay window has passed: when every
/// remembered nonce was consumed more than `NONCE_TTL_NANOS` before the
/// reading `mono`, however full the ledger was, an authentic request is
/// accepted and its nonce is then the only one remembered.
pub proof fn lemma_quiet_window_accepts(
    key: Seq<u8>,
    ledger: Map<u128, u128>,
    nonce_text: Seq<u8>,
    issued_at: u64,
    proof_text: Seq<char>,
    wall: Option<u128>,
    mono: u128,
)
    requires
        request_authentic(key, nonce_text, issued_at, proof_text, wall),
        forall|k: u128|
            #[trigger] ledger.contains_key(k) ==> ledger[k] <= mono && mono - ledger[k]
                > NONCE_TTL_NANOS,
    ensures
        consume_error(key, ledger, nonce_text, issued_at, proof_text, wall, mono) is None,
        ledger_after(key, ledger, nonce_text, issued_at, proof_text, wall, mono) == map![
            nonce_value(nonce_of_text(nonce_text)->0) as u128 => mono
        ],
{
    let live = live_entries(ledger, mono);
    assert(live.dom() =~= Set::<u128>::empty());
    let k = nonce_value(nonce_of_text(nonce_text)->0) as u128;
    assert(live.insert(k, mono) =~= map![k => mono]);
}

/// A timestamp from the future is never fresh, nor one more than the window old.
pub proof fn lemma_freshness_window(issued_at: u64, now: u128)
    ensures
        issued_at > now ==> !timestamp_fresh(issued_at, Some(now)),
        issued_at + NONCE_TTL_MILLIS < now ==> !timestamp_fresh(issued_at, Some(now)),
        issued_at <= now <= issued_at + NONCE_TTL_MILLIS ==> timestamp_fresh(issued_at, Some(now)),
{
}


fn message(text: &str) -> (s: String)
    ensures
        s@ == text@,
{
    String::from_str(text)
}

/// Authentication state of the clipboard bridge: the session key, the
/// consumed nonces, and the instant from which monotonic readings count.
pub struct ClipboardBridgeState {
    secret: [u8; BRIDGE_SECRET_BYTES],
    used_nonces: HashMap<u128, u128>,
    epoch: Instant,
}

impl ClipboardBridgeState {
    #[verifier::type_invariant]
    spec fn ledger_is_wf(self) -> bool {
        ledger_wf(self.used_nonces@)
    }

    /// The session key.
    pub closed spec fn session_key(self) -> Seq<u8> {
        self.secret@
    }

    /// The consumed nonces.
    pub closed spec fn consumed(self) -> Map<u128, u128> {
        self.used_nonces@
    }

    /// Creates the state for a given session key, with no consumed nonces;
    /// monotonic readings count from now.
    pub fn from_key(secret: [u8; BRIDGE_SECRET_BYTES]) -> (state: Self)
        ensures
            state.session_key() == secret@,
            state.consumed() == Map::<u128, u128>::empty(),
    {
        let state = ClipboardBridgeState {
            secret,
            used_nonces: HashMap::new(),
            epoch: instant_now(),
        };
        assert(state.consumed() =~= Map::<u128, u128>::empty());
        state
    }

    /// Creates the state with a session key drawn from the system's random
    /// source (through `from_key`) and no consumed nonces; fails, with no
    /// fallback key, when the random source does.
    pub fn new() -> (r: Result<Self, String>)
        ensures
            r matches Ok(state) ==> state.consumed() == Map::<u128, u128>::empty(),
            r matches Err(e) ==> starts_with(e@, init_error_prefix()),
    {
        match random_key() {
            Ok(secret) => Ok(ClipboardBridgeState::from_key(secret)),
            Err(error) => {
                let mut text = message("CLIPBOARD_BRIDGE_INIT: secure random unavailable: ");
                let ghost prefix = text@;
                text.append(random_error_text(&error).as_str());
                assert(text@.subrange(0, prefix.len() as int) =~= prefix);
                Err(text)
            },
        }
    }

    /// The session key in standard base64, for the injected script.
    pub fn script_secret(&self) -> (encoded: String)
        ensures
            encoded@ == base64_standard_encoding(self.session_key()),
            base64_standard_decoding(encoded@) == Some(self.session_key()),
            encoded@.len() == 44,
            forall|i: int| 0 <= i < encoded@.len() ==> base64_char(#[trigger] encoded@[i]),
    {
        base64_encode(&self.secret)
    }

    /// The proof expected for a request with this nonce text and timestamp.
    pub fn expected_proof(&self, nonce: &str, issued_at: u64) -> (proof: [u8; PROOF_BYTES])
        ensures
            proof@ == expected_tag(self.session_key(), nonce.spec_bytes(), issued_at),
    {
        let message = signed_message(nonce, issued_at);
        hmac_sha256_tag(&self.secret, message.as_slice())
    }

    /// Checks a request against given clock readings (`wall`: milliseconds
    /// since the Unix epoch, `None` before it; `mono`: nanoseconds since the
    /// state was created) and, when it is accepted, consumes its nonce.
    pub fn verify_and_consume_at(
        &mut self,
        nonce: &str,
        issued_at: u64,
        proof: &str,
        wall: Option<u128>,
        mono: u128,
    ) -> (r: Result<(), String>)
        ensures
            match r {
                Ok(()) => consume_error(
                    old(self).session_key(),
                    old(self).consumed(),
                    nonce.spec_bytes(),
                    issued_at,
                    proof@,
                    wall,
                    mono,
                ) is None,
                Err(e) => consume_error(
                    old(self).session_key(),
                    old(self).consumed(),
                    nonce.spec_bytes(),
                    issued_at,
                    proof@,
                    wall,
                    mono,
                ) == Some(e@),
            },
            final(self).consumed() == ledger_after(
                old(self).session_key(),
                old(self).consumed(),
                nonce.spec_bytes(),
                issued_at,
                proof@,
                wall,
                mono,
            ),
            final(self).session_key() == old(self).session_key(),
            ledger_wf(final(self).consumed()),
    {
        proof {
            use_type_invariant(&*self);
        }
        let ghost key = self.session_key();
        let ghost ledger = self.consumed();
        let nonce_bytes = match decode_nonce(nonce) {
            Ok(n) => n,
            Err(e) => {
                return Err(e);
            },
        };
        let proof_bytes = match base64_decode(proof) {
            Some(bytes) => bytes,
            None => {
                return Err(message("CLIPBOARD_AUTH_INVALID: malformed proof"));
            },
        };
        if proof_bytes.len() != PROOF_BYTES {
            return Err(message("CLIPBOARD_AUTH_INVALID: malformed proof"));
        }
        let expected = self.expected_proof(nonce, issued_at);
        if !constant_time_equal(&expected, proof_bytes.as_slice()) {
            return Err(message("CLIPBOARD_AUTH_INVALID: invalid proof"));
        }
        if !timestamp_is_fresh_at(issued_at, wall) {
            return Err(message("CLIPBOARD_NONCE_EXPIRED: request timestamp is stale"));
        }
        let mut live = live_nonces(&self.used_nonces, mono);
        proof {
            lemma_live_entries_wf(ledger, mono);
        }
        let nonce_id = nonce_key(&nonce_bytes);
        if live.contains_key(&nonce_id) {
            self.used_nonces = live;
            return Err(message("CLIPBOARD_NONCE_REPLAY: request already consumed"));
        }
        if live.len() >= MAX_USED_NONCES {
            self.used_nonces = live;
            return Err(message("CLIPBOARD_RATE_LIMITED: too many pending requests"));
        }
        let ghost before = live@;
        live.insert(nonce_id, mono);
        assert(live@.dom() =~= before.dom().insert(nonce_id));
        self.used_nonces = live;
        Ok(())
    }

    /// Checks a request against the current clocks and, when it is accepted,
    /// consumes its nonce.
    pub fn verify_and_consume(&mut self, nonce: &str, issued_at: u64, proof: &str) -> (r: Result<
        (),
        String,
    >)
        ensures
            exists|wall: Option<u128>, mono: u128|
                {
                    &&& match r {
                        Ok(()) => consume_error(
                            old(self).session_key(),
                            old(self).consumed(),
                            nonce.spec_bytes(),
                            issued_at,
                            proof@,
                            wall,
                            mono,
                        ) is None,
                        Err(e) => consume_error(
                            old(self).session_key(),
                            old(self).consumed(),
                            nonce.spec_bytes(),
                            issued_at,
                            proof@,
                            wall,
                            mono,
                        ) == Some(e@),
                    }
                    &&& final(self).consumed() == ledger_after(
                        old(self).session_key(),
                        old(self).consumed(),
                        nonce.spec_bytes(),
                        issued_at,
                        proof@,
                        wall,
                        mono,
                    )
                },
            final(self).session_key() == old(self).session_key(),
            ledger_wf(final(self).consumed()),
    {
        let wall = wall_clock_millis();
        let mono = duration_nanos(&instant_elapsed(&self.epoch));
        self.verify_and_consume_at(nonce, issued_at, proof, wall, mono)
    }
}

} // verus!
