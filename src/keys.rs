//! Lifecycle of the token-signing key: generation, the rotation window, and a
//! ring of records in which at most one key is active at any instant.
use base64::engine::general_purpose::STANDARD;
use base64::Engine;
use vstd::prelude::*;

use crate::cipher::fill_random;
use crate::error::VaultError;
use crate::models::KeyPairDocument;

verus! {

/// Default rotation window: a key is issued for new tokens for one day.
pub const ROTATION_WINDOW_SECS: i64 = 86400;

/// Bytes of a v4 secret key: the Ed25519 seed followed by the public key.
pub const SECRET_KEY_LEN: usize = 64;

/// Bytes of a v4 public key.
pub const PUBLIC_KEY_LEN: usize = 32;

/// The longest byte string handed to the base64 encoder (1 GiB), well below
/// the length at which the encoded size would overflow `usize`.
pub const MAX_ENCODED_INPUT: usize = 1073741824;

/// pasetors' error type.
#[verifier::external_type_specification]
#[verifier::external_body]
pub struct ExPasetoError(pasetors::errors::Error);

/// base64's error for text that does not decode.
#[verifier::external_type_specification]
#[verifier::external_body]
pub struct ExDecodeError(base64::DecodeError);

/// The standard, padded base64 text of `bytes`.
pub uninterp spec fn base64_standard(bytes: Seq<u8>) -> Seq<char>;

/// The Ed25519 public key that a 32-byte seed determines.
pub uninterp spec fn ed25519_public_of(seed: Seq<u8>) -> Seq<u8>;

/// ed25519-compact's error type.
#[verifier::external_type_specification]
#[verifier::external_body]
pub struct ExEd25519Error(ed25519_compact::Error);

/// Relies on ed25519-compact's `KeyPair::try_from_seed`, with `Seed::from_slice`
/// taking the 32 bytes: it refuses only an all-zero seed, and otherwise returns
/// the secret key (the seed followed by the public key the seed determines) and
/// that public key. The crate is the one pasetors signs v4 tokens with.
#[verifier::external_body]
fn ed25519_key_pair(seed: &[u8]) -> (r: Result<(Vec<u8>, Vec<u8>), ed25519_compact::Error>)
    requires
        seed@.len() == 32,
    ensures
        r is Ok <==> has_nonzero_seed(seed@),
        r is Ok ==> r->Ok_0.1@ == ed25519_public_of(seed@) && r->Ok_0.1@.len() == PUBLIC_KEY_LEN,
        r is Ok ==> r->Ok_0.0@ == seed@ + r->Ok_0.1@,
{
    ed25519_compact::Seed::from_slice(seed)
        .and_then(ed25519_compact::KeyPair::try_from_seed)
        .map(|kp| (kp.sk.to_vec(), kp.pk.to_vec()))
}

/// Relies on base64's `STANDARD.encode`: padded standard base64, a function of
/// the bytes; it panics only when the output length overflows `usize`.
#[verifier::external_body]
fn base64_encode(bytes: &[u8]) -> (r: String)
    requires
        bytes@.len() <= MAX_ENCODED_INPUT,
    ensures
        r@ == base64_standard(bytes@),
{
    STANDARD.encode(bytes)
}

/// Relies on base64's `STANDARD.decode`: with canonical padding required and
/// trailing bits refused, it accepts exactly the texts that `STANDARD.encode`
/// produces and returns the bytes they encode.
#[verifier::external_body]
pub(crate) fn base64_decode(text: &str) -> (r: Result<Vec<u8>, base64::DecodeError>)
    ensures
        r is Ok ==> base64_standard(r->Ok_0@) == text@,
        forall|b: Seq<u8>| #[trigger] base64_standard(b) == text@ ==> r is Ok && r->Ok_0@ == b,
{
    STANDARD.decode(text)
}

/// A record created at `created_at` is still within the rotation window at
/// `now`: at most one window old (a record stamped in the future counts as fresh).
pub open spec fn is_fresh(created_at: int, now: int, window: int) -> bool {
    now - created_at <= window
}

/// A record created at `created_at` is the one eligible at instant `t`.
pub open spec fn is_active_at(created_at: int, t: int, window: int) -> bool {
    t - window <= created_at <= t
}

/// Some byte of the 32-byte seed that opens a secret key is not zero.
pub open spec fn has_nonzero_seed(sk: Seq<u8>) -> bool {
    exists|i: int| 0 <= i < 32 && sk[i] != 0
}

/// The shape of a v4 key pair: a 64-byte secret key with a non-zero seed whose
/// last 32 bytes are the 32-byte public key.
pub open spec fn is_key_pair_shape(sk: Seq<u8>, pk: Seq<u8>) -> bool {
    &&& sk.len() == SECRET_KEY_LEN
    &&& pk.len() == PUBLIC_KEY_LEN
    &&& has_nonzero_seed(sk)
    &&& sk.subrange(32, 64) == pk
}

/// A v4 key pair: of the right shape, the public key being the one its seed determines.
pub open spec fn is_v4_key_pair(sk: Seq<u8>, pk: Seq<u8>) -> bool {
    is_key_pair_shape(sk, pk) && pk == ed25519_public_of(sk.subrange(0, 32))
}

/// The record holds both halves of one v4 key pair in standard base64.
pub open spec fn encodes_key_pair(d: KeyPairDocument) -> bool {
    exists|sk: Seq<u8>, pk: Seq<u8>|
        is_v4_key_pair(sk, pk) && #[trigger] base64_standard(sk) == d.private_key@
            && #[trigger] base64_standard(pk) == d.public_key@
}

/// The record stamped `now` that holds `secret` and `public` in standard base64.
pub fn key_record(secret: &[u8], public: &[u8], now: i64) -> (r: KeyPairDocument)
    requires
        secret@.len() <= MAX_ENCODED_INPUT,
        public@.len() <= MAX_ENCODED_INPUT,
    ensures
        r.private_key@ == base64_standard(secret@),
        r.public_key@ == base64_standard(public@),
        r.created_at == now,
{
    KeyPairDocument {
        public_key: base64_encode(public),
        private_key: base64_encode(secret),
        created_at: now,
    }
}

/// The creation times after one request at `now`: the latest record is kept
/// while it is fresh, else a record stamped `now` is added.
pub open spec fn after_request(times: Seq<int>, now: int, window: int) -> Seq<int> {
    if times.len() > 0 && is_fresh(times.last(), now, window) {
        times
    } else {
        times.push(now)
    }
}

/// The creation times after requests at `nows`, served one after another.
pub open spec fn after_requests(times: Seq<int>, nows: Seq<int>, window: int) -> Seq<int>
    decreases nows.len(),
{
    if nows.len() == 0 {
        times
    } else {
        after_request(after_requests(times, nows.drop_last(), window), nows.last(), window)
    }
}

/// Whether a record created at `created_at` may still sign at `now`.
pub fn is_within_window(created_at: i64, now: i64, window: i64) -> (r: bool)
    ensures
        r == is_fresh(created_at as int, now as int, window as int),
{
    (now as i128) - (created_at as i128) <= window as i128
}

/// The latest record when it may still sign at `now`, else nothing: a record
/// older than the window is never handed out.
pub fn select_active_key(latest: Option<KeyPairDocument>, now: i64, window: i64) -> (r: Option<
    KeyPairDocument,
>)
    ensures
        r == match latest {
            Some(d) => if is_fresh(d.created_at as int, now as int, window as int) {
                Some(d)
            } else {
                None
            },
            None => None,
        },
{
    match latest {
        Some(d) => if is_within_window(d.created_at, now, window) {
            Some(d)
        } else {
            None
        },
        None => None,
    }
}

/// Generates a fresh key pair and encodes it as a record stamped `now`.
pub fn generate_key_record(now: i64) -> (r: Result<KeyPairDocument, VaultError>)
    ensures
        r is Ok ==> r->Ok_0.created_at == now && encodes_key_pair(r->Ok_0),
        r is Err ==> r->Err_0 == VaultError::KeyGenerationFailure,
{
    let seed = match fill_random(32) {
        Ok(b) => b,
        Err(_) => return Err(VaultError::KeyGenerationFailure),
    };
    let (secret, public) = match ed25519_key_pair(seed.as_slice()) {
        Ok(pair) => pair,
        Err(_) => return Err(VaultError::KeyGenerationFailure),
    };
    let d = key_record(secret.as_slice(), public.as_slice(), now);
    proof {
        assert(secret@.subrange(0, 32) =~= seed@);
        assert(secret@.subrange(32, 64) =~= public@);
        let i = choose|i: int| 0 <= i < 32 && seed@[i] != 0;
        assert(secret@[i] == seed@[i]);
        assert(is_v4_key_pair(secret@, public@));
        assert(base64_standard(secret@) == d.private_key@ && base64_standard(public@) == d.public_key@);
    }
    Ok(d)
}

/// The signing-key records in order of creation, with the rotation window.
pub struct KeyRing {
    records: Vec<KeyPairDocument>,
    window: i64,
}

impl KeyRing {
    pub closed spec fn records(&self) -> Seq<KeyPairDocument> {
        self.records@
    }

    pub closed spec fn window(&self) -> int {
        self.window as int
    }

    /// The creation times of the records.
    pub open spec fn times(&self) -> Seq<int> {
        self.records().map_values(|d: KeyPairDocument| d.created_at as int)
    }

    /// The window is positive, every record holds one v4 key pair, and records
    /// are created more than a window apart.
    pub open spec fn wf(&self) -> bool {
        &&& self.window() > 0
        &&& forall|i: int| 0 <= i < self.records().len() ==> encodes_key_pair(#[trigger] self.records()[i])
        &&& forall|i: int, j: int|
            0 <= i < j < self.times().len() ==> #[trigger] self.times()[j] - #[trigger] self.times()[i]
                > self.window()
    }

    /// An empty ring with the given rotation window, in seconds.
    pub fn new(window: i64) -> (r: KeyRing)
        requires
            window > 0,
        ensures
            r.wf(),
            r.records() == Seq::<KeyPairDocument>::empty(),
            r.window() == window,
    {
        KeyRing { records: Vec::new(), window }
    }

    /// The number of records, active and retired.
    pub fn len(&self) -> (r: usize)
        ensures
            r == self.records().len(),
    {
        self.records.len()
    }

    /// The latest record, if any.
    pub fn latest(&self) -> (r: Option<KeyPairDocument>)
        ensures
            r == if self.records().len() == 0 {
                None
            } else {
                Some(self.records().last())
            },
    {
        let n = self.records.len();
        if n == 0 {
            None
        } else {
            Some(self.records[n - 1].duplicate())
        }
    }

    /// Returns the active signing key, generating and recording a fresh one
    /// when the latest record has outlived the rotation window or none exists.
    /// Taking `&mut self` makes the look-up and the insertion one step.
    pub fn get_or_create_active_key(&mut self, now: i64) -> (r: Result<KeyPairDocument, VaultError>)
        requires
            old(self).wf(),
        ensures
            final(self).wf(),
            final(self).window() == old(self).window(),
            r is Ok ==> is_fresh(r->Ok_0.created_at as int, now as int, old(self).window()),
            r is Ok ==> final(self).times() == after_request(old(self).times(), now as int, old(self).window()),
            r is Ok ==> final(self).records().last() == r->Ok_0,
            old(self).records().len() > 0 && is_fresh(old(self).times().last(), now as int, old(self).window())
                ==> r == Ok::<KeyPairDocument, VaultError>(old(self).records().last()) && final(self).records()
                == old(self).records(),
            !(old(self).records().len() > 0 && is_fresh(old(self).times().last(), now as int, old(self).window()))
                ==> (r is Ok ==> r->Ok_0.created_at == now && encodes_key_pair(r->Ok_0) && final(self).records()
                == old(self).records().push(r->Ok_0)) && (r is Err ==> r->Err_0 == VaultError::KeyGenerationFailure
                && final(self).records() == old(self).records()),
    {
        let current = select_active_key(self.latest(), now, self.window);
        match current {
            Some(d) => Ok(d),
            None => {
                let d = generate_key_record(now)?;
                let ghost old_times = self.times();
                self.records.push(d.duplicate());
                proof {
                    assert(self.records() =~= old(self).records().push(d));
                    assert(self.times() =~= old_times.push(now as int));
                    assert forall|i: int, j: int|
                        0 <= i < j < self.times().len() implies #[trigger] self.times()[j]
                        - #[trigger] self.times()[i] > self.window() by {
                        if j == self.times().len() - 1 && i < j {
                            assert(old_times.len() > 0);
                            assert(old_times.last() - old_times[i] >= 0);
                        }
                    }
                }
                Ok(d)
            },
        }
    }
}

/// At any instant at most one record of a well-formed ring is active.
pub proof fn lemma_at_most_one_active(ring: KeyRing, t: int, i: int, j: int)
    requires
        ring.wf(),
        0 <= i < ring.times().len(),
        0 <= j < ring.times().len(),
        is_active_at(ring.times()[i], t, ring.window()),
        is_active_at(ring.times()[j], t, ring.window()),
    ensures
        i == j,
{
    if i < j {
        assert(ring.times()[j] - ring.times()[i] > ring.window());
    } else if j < i {
        assert(ring.times()[i] - ring.times()[j] > ring.window());
    }
}

/// Requests that reach an empty store at most one rotation window after the first
/// create exactly one key record, however many they are.
pub proof fn lemma_one_key_for_concurrent_callers(nows: Seq<int>, window: int)
    requires
        window > 0,
        nows.len() > 0,
        forall|i: int| 0 <= i < nows.len() ==> nows[0] <= #[trigger] nows[i] <= nows[0] + window,
    ensures
        after_requests(Seq::<int>::empty(), nows, window) == seq![nows[0]],
    decreases nows.len(),
{
    if nows.len() == 1 {
        assert(after_requests(Seq::<int>::empty(), nows.drop_last(), window) == Seq::<int>::empty());
        assert(seq![nows.last()] =~= Seq::<int>::empty().push(nows.last()));
    } else {
        let front = nows.drop_last();
        assert(front[0] == nows[0]);
        assert forall|i: int| 0 <= i < front.len() implies front[0] <= #[trigger] front[i] <= front[0] + window by {
            assert(front[i] == nows[i]);
        }
        lemma_one_key_for_concurrent_callers(front, window);
        assert(nows.last() == nows[nows.len() - 1]);
    }
}

proof fn lemma_ring_follows_requests(rings: Seq<KeyRing>, nows: Seq<int>, window: int, k: int)
    requires
        rings.len() == nows.len() + 1,
        rings[0].records().len() == 0,
        forall|i: int| 0 <= i < nows.len() ==> #[trigger] rings[i + 1].times() == after_request(rings[i].times(), nows[i], window),
        0 <= k <= nows.len(),
    ensures
        rings[k].times() == after_requests(Seq::<int>::empty(), nows.take(k), window),
    decreases k,
{
    if k == 0 {
        assert(rings[0].times() =~= Seq::<int>::empty());
        assert(nows.take(0) =~= Seq::<int>::empty());
    } else {
        lemma_ring_follows_requests(rings, nows, window, k - 1);
        assert(nows.take(k).drop_last() =~= nows.take(k - 1));
        assert(rings[(k - 1) + 1].times() == after_request(rings[k - 1].times(), nows[k - 1], window));
    }
}

/// Requests served one after another by a ring that starts empty, each within
/// one rotation window of the first and each returning a key, leave exactly
/// one key record, however many they are.
pub proof fn lemma_ring_keeps_one_key(rings: Seq<KeyRing>, nows: Seq<int>, window: int)
    requires
        window > 0,
        nows.len() > 0,
        rings.len() == nows.len() + 1,
        rings[0].records().len() == 0,
        forall|i: int| 0 <= i < nows.len() ==> #[trigger] rings[i + 1].times() == after_request(rings[i].times(), nows[i], window),
        forall|i: int| 0 <= i < nows.len() ==> nows[0] <= #[trigger] nows[i] <= nows[0] + window,
    ensures
        rings.last().records().len() == 1,
{
    lemma_ring_follows_requests(rings, nows, window, nows.len() as int);
    assert(nows.take(nows.len() as int) =~= nows);
    lemma_one_key_for_concurrent_callers(nows, window);
    assert(rings.last().times().len() == rings.last().records().len());
}

} // verus!
