//! Issuing and accepting attestations.
//!
//! An attestation is a claim in JSON that names its issuer and carries the
//! digest of its own content. The issuer signs the text of that digest. A
//! signed attestation travels as an envelope, and every accepted one is kept
//! under its digest: a second one with the same digest takes the place of the
//! first.
//!
//! Reading a claim and computing its digest is the work of the `acdc` crate.
//! Its results are only named here; what this module proves is what is done
//! with them.

use acdc::{Attestation, Authored};
use keri::signer::CryptoBox;
use said::derivation::HashFunctionCode;
use said::sad::{SerializationFormats, SAD};
use said::version::Encode;
use serde_json::Value;
use vstd::prelude::*;
use vstd::utf8::encode_utf8;
use crate::bytes::copy_bytes;
use crate::envelope::{
    lemma_envelope_round_trip, open, open_envelope, seal, seal_envelope, single_line, LINE_FEED,
};
use crate::error::ApiError;
use crate::signature::{
    ed25519_verifies, sign, signature_views, verifies, verify, KeyConfig, KeyConfigView,
    Signature, SignatureView,
};
use crate::textmap::TextMap;

verus! {

/// The text at `pointer`, a JSON pointer, in the JSON document `payload`,
/// as `serde_json` reads it; `None` where `payload` is no JSON or holds no
/// text there.
pub uninterp spec fn json_string_at(payload: Seq<u8>, pointer: Seq<char>) -> Option<Seq<char>>;

/// The issuer that the attestation in `payload` names, as `acdc` reads it;
/// `None` where `payload` is no attestation.
pub uninterp spec fn claim_issuer(payload: Seq<u8>) -> Option<Seq<char>>;

/// The digest of the content of the attestation in `payload`, as `acdc`
/// computes it afresh; `None` where `payload` is no attestation.
pub uninterp spec fn claim_digest(payload: Seq<u8>) -> Option<Seq<char>>;

/// The attestation in `payload` with `issuer` as its issuer and the digest
/// of its content in place, in the JSON form that `acdc` writes; `None`
/// where `payload` is no attestation.
pub uninterp spec fn stamped_claim(payload: Seq<u8>, issuer: Seq<char>) -> Option<Seq<u8>>;

/// Whether `text` can be handed to the digest parser: it starts with two
/// characters of one byte each.
pub open spec fn digest_text(text: Seq<char>) -> bool {
    let bytes = encode_utf8(text);
    bytes.len() >= 2 && bytes[0] < 128 && bytes[1] < 128
}

/// Whether a text at `pointer` in `payload`, if there is one, can be handed
/// to the digest parser.
pub open spec fn digest_at(payload: Seq<u8>, pointer: Seq<char>) -> bool {
    json_string_at(payload, pointer) matches Some(text) ==> digest_text(text)
}

/// Whether the places of `payload` at which an attestation holds a digest
/// hold nothing that the digest parser cannot take: its own digest, its
/// attributes where they are given by their digest, and the digest of its
/// attributes. An attestation and its attributes may each be written as an
/// object or as an array, so each place has a name and a number.
pub open spec fn digests_readable(payload: Seq<u8>) -> bool {
    &&& digest_at(payload, "/d"@)
    &&& digest_at(payload, "/0"@)
    &&& digest_at(payload, "/a"@)
    &&& digest_at(payload, "/4"@)
    &&& digest_at(payload, "/a/d"@)
    &&& digest_at(payload, "/a/0"@)
    &&& digest_at(payload, "/4/d"@)
    &&& digest_at(payload, "/4/0"@)
}

/// Parses `payload` with `serde_json::from_slice` as a `serde_json::Value`
/// and hands back the text that `Value::pointer` finds at `pointer`. The
/// contract names the result and claims nothing else.
#[verifier::external_body]
fn string_at(payload: &[u8], pointer: &str) -> (text: Option<String>)
    ensures
        match text {
            Some(t) => json_string_at(payload@, pointer@) == Some(t@),
            None => json_string_at(payload@, pointer@) is None,
        },
{
    let value = serde_json::from_slice::<Value>(payload).ok()?;
    Some(value.pointer(pointer)?.as_str()?.to_string())
}

/// Parses `payload` as an `acdc::Attestation`, with `serde_json::from_slice`
/// and `serde_json::from_value`, and reads its issuer with
/// `Authored::get_author_id`. The contract names the result and claims
/// nothing else. `requires` leaves out the payloads on which the digest
/// parser would panic: `SelfAddressing::from_str` of the `cesrox` crate,
/// through which `said` reads a digest, slices the second byte off its
/// input.
#[verifier::external_body]
fn read_issuer(payload: &[u8]) -> (issuer: Option<String>)
    requires
        digests_readable(payload@),
    ensures
        match issuer {
            Some(i) => claim_issuer(payload@) == Some(i@),
            None => claim_issuer(payload@) is None,
        },
{
    let value = serde_json::from_slice::<Value>(payload).ok()?;
    let parsed = serde_json::from_value::<Attestation>(value).ok()?;
    Some(parsed.get_author_id().to_string())
}

/// Parses `payload` as an `acdc::Attestation`, with `serde_json::from_slice`
/// and `serde_json::from_value`, has `SAD::compute_digest` compute the
/// Blake3-256 digest of its JSON form, and hands back that digest's text.
/// The contract names the result and claims nothing else. `requires` leaves
/// out the payloads on which the digest parser would panic.
#[verifier::external_body]
fn compute_digest(payload: &[u8]) -> (digest: Option<String>)
    requires
        digests_readable(payload@),
    ensures
        match digest {
            Some(d) => claim_digest(payload@) == Some(d@),
            None => claim_digest(payload@) is None,
        },
{
    let value = serde_json::from_slice::<Value>(payload).ok()?;
    let mut parsed = serde_json::from_value::<Attestation>(value).ok()?;
    parsed.compute_digest(&HashFunctionCode::Blake3_256, &SerializationFormats::JSON);
    Some(parsed.digest?.to_string())
}

/// Parses `payload` as an `acdc::Attestation`, with `serde_json::from_slice`
/// and `serde_json::from_value`, sets its issuer, has `SAD::compute_digest`
/// put the Blake3-256 digest of its JSON form in place and `Encode::encode`
/// write it out as JSON. The contract names the result and claims nothing
/// else. `requires` leaves out the payloads on which the digest parser would
/// panic.
#[verifier::external_body]
fn stamp(payload: &[u8], issuer: &str) -> (stamped: Option<Vec<u8>>)
    requires
        digests_readable(payload@),
    ensures
        match stamped {
            Some(s) => stamped_claim(payload@, issuer@) == Some(s@),
            None => stamped_claim(payload@, issuer@) is None,
        },
{
    let value = serde_json::from_slice::<Value>(payload).ok()?;
    let mut parsed = serde_json::from_value::<Attestation>(value).ok()?;
    parsed.issuer = issuer.to_string();
    parsed.compute_digest(&HashFunctionCode::Blake3_256, &SerializationFormats::JSON);
    parsed.encode(&HashFunctionCode::Blake3_256, &SerializationFormats::JSON).ok()
}

/// Whether a text at `pointer` in `payload`, if there is one, can be handed
/// to the digest parser.
fn check_digest_at(payload: &[u8], pointer: &str) -> (fine: bool)
    ensures
        fine == digest_at(payload@, pointer@),
{
    match string_at(payload, pointer) {
        Some(text) => {
            let bytes = text.as_str().as_bytes();
            bytes.len() >= 2 && bytes[0] < 128 && bytes[1] < 128
        },
        None => true,
    }
}

/// Whether the digests of `payload` can be read, as [`digests_readable`]
/// has it.
pub fn check_digests_readable(payload: &[u8]) -> (fine: bool)
    ensures
        fine == digests_readable(payload@),
{
    check_digest_at(payload, "/d") && check_digest_at(payload, "/0") && check_digest_at(
        payload,
        "/a",
    ) && check_digest_at(payload, "/4") && check_digest_at(payload, "/a/d") && check_digest_at(
        payload,
        "/a/0",
    ) && check_digest_at(payload, "/4/d") && check_digest_at(payload, "/4/0")
}

/// A claim with its digest and issuer read out.
///
/// A claim is only made by reading a payload: its digest is the digest of
/// the payload's content and its issuer the one that the payload names.
#[derive(Debug, PartialEq, Eq)]
pub struct Claim {
    digest: String,
    issuer: String,
    payload: Vec<u8>,
}

/// The mathematical value of a [`Claim`].
pub struct ClaimView {
    /// The digest of the claim's content, the key under which it is kept.
    pub digest: Seq<char>,
    /// The identifier that issued the claim.
    pub issuer: Seq<char>,
    /// The claim itself, as JSON.
    pub payload: Seq<u8>,
}

impl View for Claim {
    type V = ClaimView;

    closed spec fn view(&self) -> ClaimView {
        ClaimView { digest: self.digest@, issuer: self.issuer@, payload: self.payload@ }
    }
}

impl Claim {
    #[verifier::type_invariant]
    spec fn read_from_payload(self) -> bool {
        read_claim(self.payload@) == Some(self@)
    }

    /// The digest of the claim's content, the key under which it is kept.
    pub fn digest(&self) -> (digest: &String)
        ensures
            digest@ == self@.digest,
            read_claim(self@.payload) == Some(self@),
    {
        proof {
            use_type_invariant(self);
        }
        &self.digest
    }

    /// The identifier that issued the claim.
    pub fn issuer(&self) -> (issuer: &String)
        ensures
            issuer@ == self@.issuer,
            read_claim(self@.payload) == Some(self@),
    {
        proof {
            use_type_invariant(self);
        }
        &self.issuer
    }

    /// The claim itself, as JSON.
    pub fn payload(&self) -> (payload: &Vec<u8>)
        ensures
            payload@ == self@.payload,
            read_claim(self@.payload) == Some(self@),
    {
        proof {
            use_type_invariant(self);
        }
        &self.payload
    }

    /// A copy of this claim.
    pub fn duplicate(&self) -> (copy: Claim)
        ensures
            copy@ == self@,
    {
        proof {
            use_type_invariant(self);
        }
        Claim {
            digest: self.digest.clone(),
            issuer: self.issuer.clone(),
            payload: copy_bytes(self.payload.as_slice()),
        }
    }

    /// The bytes that the issuer signs: the text of the digest.
    pub fn signing_input(&self) -> (input: Vec<u8>)
        ensures
            input@ == signing_input(self@.digest),
    {
        copy_bytes(self.digest.as_str().as_bytes())
    }
}

impl Clone for Claim {
    fn clone(&self) -> (copy: Self)
        ensures
            copy@ == self@,
    {
        self.duplicate()
    }
}

/// The bytes that are signed for a claim with this digest.
pub open spec fn signing_input(digest: Seq<char>) -> Seq<u8> {
    encode_utf8(digest)
}

/// A claim and the signatures of its issuer.
#[derive(Debug, Clone, PartialEq, Eq)]
pub struct SignedClaim {
    pub claim: Claim,
    pub signatures: Vec<Signature>,
}

/// The mathematical value of a [`SignedClaim`].
pub struct SignedClaimView {
    pub claim: ClaimView,
    pub signatures: Seq<SignatureView>,
}

impl View for SignedClaim {
    type V = SignedClaimView;

    open spec fn view(&self) -> SignedClaimView {
        SignedClaimView { claim: self.claim@, signatures: signature_views(self.signatures@) }
    }
}

/// The digest that the attestation in `payload` carries: the text of its
/// field `d`.
pub open spec fn carried_digest(payload: Seq<u8>) -> Option<Seq<char>> {
    json_string_at(payload, "/d"@)
}

/// The claim that `payload` holds: it is a single line, its digests can be
/// read, it is an attestation that names an issuer, and the digest that it
/// carries is the digest of its content.
pub open spec fn read_claim(payload: Seq<u8>) -> Option<ClaimView> {
    if single_line(payload) && digests_readable(payload) && claim_issuer(payload) is Some
        && claim_digest(payload) is Some && carried_digest(payload) == claim_digest(payload) {
        Some(
            ClaimView {
                digest: claim_digest(payload)->0,
                issuer: claim_issuer(payload)->0,
                payload,
            },
        )
    } else {
        None
    }
}

/// Whether `payload` holds a line feed nowhere.
fn is_single_line(payload: &[u8]) -> (single: bool)
    ensures
        single == single_line(payload@),
{
    let mut i: usize = 0;
    while i < payload.len()
        invariant
            i <= payload.len(),
            forall|j: int| 0 <= j < i ==> payload@[j] != LINE_FEED,
        decreases payload.len() - i,
    {
        if payload[i] == LINE_FEED {
            return false;
        }
        i += 1;
    }
    true
}

/// Reads the claim that `payload` holds, as [`read_claim`] has it.
pub fn parse_claim(payload: Vec<u8>) -> (claim: Option<Claim>)
    ensures
        match claim {
            Some(c) => read_claim(payload@) == Some(c@),
            None => read_claim(payload@) is None,
        },
{
    if !is_single_line(payload.as_slice()) || !check_digests_readable(payload.as_slice()) {
        return None;
    }
    let issuer = match read_issuer(payload.as_slice()) {
        Some(issuer) => issuer,
        None => {
            return None;
        },
    };
    let digest = match compute_digest(payload.as_slice()) {
        Some(digest) => digest,
        None => {
            return None;
        },
    };
    match string_at(payload.as_slice(), "/d") {
        Some(carried) => {
            if carried != digest {
                return None;
            }
        },
        None => {
            return None;
        },
    }
    Some(Claim { digest, issuer, payload })
}

/// The claim that is issued for `payload` by `issuer`: the payload, where
/// its digests can be read, stamped with the issuer and its digest, where
/// that can be read back as a claim of this issuer.
pub open spec fn issued_claim(payload: Seq<u8>, issuer: Seq<char>) -> Option<ClaimView> {
    if !digests_readable(payload) {
        None
    } else {
        match stamped_claim(payload, issuer) {
            Some(stamped) => match read_claim(stamped) {
                Some(claim) => if claim.issuer == issuer {
                    Some(claim)
                } else {
                    None
                },
                None => None,
            },
            None => None,
        }
    }
}

/// Prepares the claim in `payload` for signing: stamps `issuer` as its
/// issuer and computes the digest of its content.
///
/// Fails with [`ApiError::InvalidAttestation`] exactly where no claim can be
/// issued for `payload`.
pub fn prepare_claim(payload: &[u8], issuer: &String) -> (claim: Result<Claim, ApiError>)
    ensures
        match issued_claim(payload@, issuer@) {
            Some(issued) => claim matches Ok(c) && c@ == issued,
            None => claim == Err::<Claim, ApiError>(ApiError::InvalidAttestation),
        },
{
    if !check_digests_readable(payload) {
        return Err(ApiError::InvalidAttestation);
    }
    let stamped = match stamp(payload, issuer.as_str()) {
        Some(stamped) => stamped,
        None => {
            return Err(ApiError::InvalidAttestation);
        },
    };
    match parse_claim(stamped) {
        Some(claim) => {
            if *claim.issuer() == *issuer {
                Ok(claim)
            } else {
                Err(ApiError::InvalidAttestation)
            }
        },
        None => Err(ApiError::InvalidAttestation),
    }
}

/// The signed claim that an envelope holds.
pub open spec fn opened_claim(envelope: Seq<u8>) -> Option<SignedClaimView> {
    match open_envelope(envelope) {
        Some(parts) => match read_claim(parts.0) {
            Some(claim) => Some(SignedClaimView { claim, signatures: parts.1 }),
            None => None,
        },
        None => None,
    }
}

/// Opens a received envelope and reads the claim in it.
///
/// Fails with [`ApiError::InvalidAttestation`] exactly where the bytes are
/// no envelope or its payload holds no claim.
pub fn open_claim(envelope: &[u8]) -> (signed: Result<SignedClaim, ApiError>)
    ensures
        match opened_claim(envelope@) {
            Some(opened) => signed matches Ok(s) && s@ == opened,
            None => signed == Err::<SignedClaim, ApiError>(ApiError::InvalidAttestation),
        },
{
    match open(envelope) {
        Some((payload, signatures)) => {
            match parse_claim(payload) {
                Some(claim) => Ok(SignedClaim { claim, signatures }),
                None => Err(ApiError::InvalidAttestation),
            }
        },
        None => Err(ApiError::InvalidAttestation),
    }
}

/// The accepted attestations, each under its digest.
pub struct AttestationStore {
    entries: TextMap<SignedClaim>,
}

impl AttestationStore {
    #[verifier::type_invariant]
    spec fn keyed_by_digest(self) -> bool {
        forall|i: int|
            0 <= i < self.entries.keys().len() ==> #[trigger] self.entries.keys()[i]
                == self.entries.values()[i].claim@.digest
    }

    /// The stored attestation under each digest.
    pub closed spec fn view(&self) -> Map<Seq<char>, SignedClaim> {
        self.entries@
    }

    /// The digests of the stored attestations, in the order in which they
    /// first arrived.
    pub closed spec fn digests(&self) -> Seq<Seq<char>> {
        self.entries.keys()
    }

    /// The stored attestations, each at the index of its digest in
    /// [`Self::digests`].
    pub closed spec fn stored(&self) -> Seq<SignedClaim> {
        self.entries.values()
    }

    /// An empty store.
    pub fn new() -> (store: Self)
        ensures
            store@ == Map::<Seq<char>, SignedClaim>::empty(),
            store.digests() == Seq::<Seq<char>>::empty(),
            store.stored() == Seq::<SignedClaim>::empty(),
    {
        AttestationStore { entries: TextMap::new() }
    }

    /// The number of stored attestations. Each stands under its own digest,
    /// and each digest is listed once.
    pub fn len(&self) -> (n: usize)
        ensures
            n == self.digests().len(),
            n == self.stored().len(),
            self.digests().no_duplicates(),
            forall|digest: Seq<char>|
                self@.contains_key(digest) <==> self.digests().contains(digest),
            forall|i: int|
                0 <= i < n ==> (#[trigger] self.stored()[i]).claim@.digest == self.digests()[i],
    {
        proof {
            use_type_invariant(self);
        }
        self.entries.len()
    }

    /// The attestation stored under `digest`.
    pub fn get(&self, digest: &String) -> (found: Option<&SignedClaim>)
        ensures
            match found {
                Some(s) => self@.contains_key(digest@) && *s == self@[digest@] && s.claim@.digest
                    == digest@,
                None => !self@.contains_key(digest@),
            },
    {
        proof {
            use_type_invariant(self);
        }
        match self.entries.position(digest) {
            Some(i) => Some(&self.entries.entry(i).value),
            None => None,
        }
    }

    /// Stores `signed` under the digest of its claim. An attestation that
    /// was stored under this digest is replaced: no second entry comes to
    /// stand beside it.
    pub fn insert(&mut self, signed: SignedClaim)
        ensures
            stored_in(old(self), final(self), signed@),
            final(self)@ == old(self)@.insert(signed@.claim.digest, signed),
    {
        proof {
            use_type_invariant(&*self);
        }
        let digest = signed.claim.digest().clone();
        let mut entries: TextMap<SignedClaim> = TextMap::new();
        std::mem::swap(&mut entries, &mut self.entries);
        let ghost before = entries;
        let _ = entries.len();
        entries.insert(digest, signed);
        proof {
            assert forall|i: int| 0 <= i < entries.keys().len() implies #[trigger] entries.keys()[i]
                == entries.values()[i].claim@.digest by {
                if before.keys().contains(digest@) {
                    if i != before.keys().index_of(digest@) {
                        assert(before.keys()[i] == before.values()[i].claim@.digest);
                    }
                } else {
                    if i < before.keys().len() {
                        assert(before.keys()[i] == before.values()[i].claim@.digest);
                    }
                }
            }
        }
        self.entries = entries;
    }

    /// The claims of all stored attestations, in the order of
    /// [`Self::digests`].
    pub fn list(&self) -> (claims: Vec<Claim>)
        ensures
            claims.len() == self.stored().len(),
            forall|i: int|
                0 <= i < claims.len() ==> (#[trigger] claims[i])@ == self.stored()[i].claim@,
    {
        let mut claims: Vec<Claim> = Vec::new();
        let count = self.entries.len();
        let mut i: usize = 0;
        while i < count
            invariant
                i <= count,
                count == self.stored().len(),
                count == self.entries.keys().len(),
                claims.len() == i,
                forall|k: int| 0 <= k < i ==> (#[trigger] claims[k])@ == self.stored()[k].claim@,
            decreases count - i,
        {
            claims.push(self.entries.entry(i).value.claim.duplicate());
            i += 1;
        }
        claims
    }
}

/// Whether `after` is `before` with `signed` stored under its digest: the
/// attestation stands under its digest, every other entry is as it was, and
/// the digest is listed once, at its old place if it had one.
pub open spec fn stored_in(
    before: &AttestationStore,
    after: &AttestationStore,
    signed: SignedClaimView,
) -> bool {
    let digest = signed.claim.digest;
    &&& after@.dom() == before@.dom().insert(digest)
    &&& after@[digest]@ == signed
    &&& forall|other: Seq<char>|
        other != digest && before@.contains_key(other) ==> after@[other] == before@[other]
    &&& after.digests().no_duplicates()
    &&& after.digests() == if before@.contains_key(digest) {
        before.digests()
    } else {
        before.digests().push(digest)
    }
}

/// Stores and seals a claim that was prepared and signed: checks the
/// signature against the issuer's own keys, stores the signed claim under
/// its digest and seals it into an envelope.
///
/// Fails with [`ApiError::SigningError`] exactly where `signature` does not
/// verify under `keys` as a signature of the claim's digest; nothing is
/// stored then.
pub fn seal_claim(
    store: &mut AttestationStore,
    claim: Claim,
    signature: Signature,
    keys: &KeyConfig,
) -> (envelope: Result<Vec<u8>, ApiError>)
    ensures
        if verifies(keys@, signing_input(claim@.digest), seq![signature@]) {
            &&& envelope matches Ok(e) && e@ == seal_envelope(claim@.payload, seq![signature@])
            &&& stored_in(
                old(store),
                final(store),
                SignedClaimView { claim: claim@, signatures: seq![signature@] },
            )
        } else {
            &&& envelope == Err::<Vec<u8>, ApiError>(ApiError::SigningError)
            &&& *final(store) == *old(store)
        },
{
    let mut signatures: Vec<Signature> = Vec::new();
    signatures.push(signature);
    assert(signature_views(signatures@) =~= seq![signature@]);
    let input = claim.signing_input();
    if !verify(keys, input.as_slice(), &signatures) {
        return Err(ApiError::SigningError);
    }
    let envelope = seal(claim.payload().as_slice(), &signatures);
    store.insert(SignedClaim { claim, signatures });
    Ok(envelope)
}

/// Whether `envelope` is a claim of `claim` issued into the store: some
/// signature of the first key verifies under `keys` as a signature of the
/// claim's digest, the envelope holds the claim with that signature, and the
/// store holds them under the claim's digest.
pub open spec fn issued_into(
    before: &AttestationStore,
    after: &AttestationStore,
    claim: ClaimView,
    keys: KeyConfigView,
    envelope: Seq<u8>,
) -> bool {
    exists|signature: SignatureView|
        {
            &&& signature.index == 0
            &&& verifies(keys, signing_input(claim.digest), seq![signature])
            &&& envelope == #[trigger] seal_envelope(claim.payload, seq![signature])
            &&& stored_in(before, after, SignedClaimView { claim, signatures: seq![signature] })
        }
}

/// Issues the claim in `payload` as `issuer`: stamps the issuer on it,
/// computes the digest of its content, has `signer` sign the digest, checks
/// the signature against `keys`, the issuer's own key configuration, stores
/// the signed claim under its digest and seals it into an envelope.
///
/// Fails with [`ApiError::InvalidAttestation`] exactly where no claim can be
/// issued for `payload`. Where one can, the outcome is with the signer: an
/// envelope that holds the claim under a signature that verifies, or
/// [`ApiError::SomeError`] where the signer fails, or
/// [`ApiError::SigningError`] where its signature does not verify under
/// `keys`. Nothing is stored on failure.
pub fn attest_create(
    store: &mut AttestationStore,
    payload: &[u8],
    issuer: &String,
    signer: &CryptoBox,
    keys: &KeyConfig,
) -> (envelope: Result<Vec<u8>, ApiError>)
    ensures
        match issued_claim(payload@, issuer@) {
            None => {
                &&& envelope == Err::<Vec<u8>, ApiError>(ApiError::InvalidAttestation)
                &&& *final(store) == *old(store)
            },
            Some(claim) => match envelope {
                Ok(e) => issued_into(old(store), final(store), claim, keys@, e@),
                Err(error) => {
                    &&& error is SomeError || error == ApiError::SigningError
                    &&& *final(store) == *old(store)
                },
            },
        },
{
    let claim = prepare_claim(payload, issuer)?;
    let input = claim.signing_input();
    let signature = sign(signer, input.as_slice())?;
    let ghost made = signature@;
    let ghost issued = claim@;
    let envelope = seal_claim(store, claim, signature, keys)?;
    assert(envelope@ == seal_envelope(issued.payload, seq![made]));
    Ok(envelope)
}

/// Accepts a received claim: checks its signatures against the keys that
/// were resolved for its issuer and stores it under its digest.
///
/// `keys` is `None` where the issuer's keys could not be resolved. Fails
/// with [`ApiError::UnknownIssuer`] exactly then, and with
/// [`ApiError::VerificationFailed`] exactly where there are keys and the
/// signatures do not verify under them; nothing is stored in either case.
pub fn attest_receive(
    store: &mut AttestationStore,
    signed: SignedClaim,
    keys: Option<&KeyConfig>,
) -> (claim: Result<Claim, ApiError>)
    ensures
        match accepted(signed@, key_view(keys)) {
            Ok(unwrapped) => {
                &&& claim matches Ok(c) && c@ == unwrapped
                &&& stored_in(old(store), final(store), signed@)
            },
            Err(error) => {
                &&& claim == Err::<Claim, ApiError>(error)
                &&& *final(store) == *old(store)
            },
        },
{
    let keys = match keys {
        Some(keys) => keys,
        None => {
            return Err(ApiError::UnknownIssuer);
        },
    };
    let input = signed.claim.signing_input();
    if !verify(keys, input.as_slice(), &signed.signatures) {
        return Err(ApiError::VerificationFailed);
    }
    let claim = signed.claim.duplicate();
    store.insert(signed);
    Ok(claim)
}

/// The value of the keys that were resolved, if any were.
pub open spec fn key_view(keys: Option<&KeyConfig>) -> Option<KeyConfigView> {
    match keys {
        Some(k) => Some(k@),
        None => None,
    }
}

/// What becomes of a received claim, given the keys that were resolved for
/// its issuer.
pub open spec fn accepted(signed: SignedClaimView, keys: Option<KeyConfigView>) -> Result<
    ClaimView,
    ApiError,
> {
    match keys {
        None => Err(ApiError::UnknownIssuer),
        Some(k) => if verifies(k, signing_input(signed.claim.digest), signed.signatures) {
            Ok(signed.claim)
        } else {
            Err(ApiError::VerificationFailed)
        },
    }
}

/// What becomes of a received envelope, given the keys that were resolved
/// for the issuer that its claim names.
pub open spec fn reception(envelope: Seq<u8>, keys: Option<KeyConfigView>) -> Result<
    ClaimView,
    ApiError,
> {
    match opened_claim(envelope) {
        Some(signed) => accepted(signed, keys),
        None => Err(ApiError::InvalidAttestation),
    }
}

/// The claims of all stored attestations.
pub fn attest_list(store: &AttestationStore) -> (claims: Vec<Claim>)
    ensures
        claims.len() == store.stored().len(),
        forall|i: int|
            0 <= i < claims.len() ==> (#[trigger] claims[i])@ == store.stored()[i].claim@,
{
    store.list()
}

/// An issued claim comes back from its own envelope: where a claim was
/// issued for a payload and signed so that the signature verifies under the
/// issuer's keys, a receiver that resolves the same keys accepts the
/// envelope and gets the claim, the payload with the issuer stamped on it.
pub proof fn lemma_issued_claim_is_received(
    payload: Seq<u8>,
    issuer: Seq<char>,
    signature: SignatureView,
    keys: KeyConfigView,
)
    requires
        issued_claim(payload, issuer) is Some,
        verifies(keys, signing_input(issued_claim(payload, issuer)->0.digest), seq![signature]),
    ensures
        reception(
            seal_envelope(issued_claim(payload, issuer)->0.payload, seq![signature]),
            Some(keys),
        ) == Ok::<ClaimView, ApiError>(issued_claim(payload, issuer)->0),
        issued_claim(payload, issuer)->0.issuer == issuer,
        stamped_claim(payload, issuer) == Some(issued_claim(payload, issuer)->0.payload),
{
    let claim = issued_claim(payload, issuer)->0;
    lemma_envelope_round_trip(claim.payload, seq![signature]);
}

/// A signature that no key of the resolved configuration made is refused:
/// where one of an envelope's signatures verifies under none of the issuer's
/// keys, the envelope is rejected with [`ApiError::VerificationFailed`].
pub proof fn lemma_foreign_signature_is_rejected(
    envelope: Seq<u8>,
    keys: KeyConfigView,
    i: int,
)
    requires
        opened_claim(envelope) is Some,
        0 <= i < opened_claim(envelope)->0.signatures.len(),
        forall|k: int|
            0 <= k < keys.public_keys.len() ==> !ed25519_verifies(
                #[trigger] keys.public_keys[k],
                signing_input(opened_claim(envelope)->0.claim.digest),
                opened_claim(envelope)->0.signatures[i].bytes,
            ),
    ensures
        reception(envelope, Some(keys)) == Err::<ClaimView, ApiError>(
            ApiError::VerificationFailed,
        ),
{
    let signed = opened_claim(envelope)->0;
    let input = signing_input(signed.claim.digest);
    if verifies(keys, input, signed.signatures) {
        let index = signed.signatures[i].index as int;
        assert(index < keys.public_keys.len());
        assert(ed25519_verifies(keys.public_keys[index], input, signed.signatures[i].bytes));
    }
}

/// An envelope is judged before anything is resolved: bytes that are no
/// envelope of a claim are rejected with [`ApiError::InvalidAttestation`],
/// whatever keys there are.
pub proof fn lemma_malformed_envelope_is_rejected(envelope: Seq<u8>, keys: Option<KeyConfigView>)
    requires
        opened_claim(envelope) is None,
    ensures
        reception(envelope, keys) == Err::<ClaimView, ApiError>(ApiError::InvalidAttestation),
{
}

/// An attestation that is submitted again is stored once: where a second
/// attestation arrives under the digest of one that was stored, the store
/// lists the same digests as before, each once, and holds the later
/// attestation under that digest.
pub proof fn lemma_same_digest_is_stored_once(
    first: &AttestationStore,
    second: &AttestationStore,
    third: &AttestationStore,
    earlier: SignedClaimView,
    later: SignedClaimView,
)
    requires
        stored_in(first, second, earlier),
        stored_in(second, third, later),
        earlier.claim.digest == later.claim.digest,
    ensures
        third.digests() == second.digests(),
        third.digests().no_duplicates(),
        third@.dom() == second@.dom(),
        third@[later.claim.digest]@ == later,
{
    assert(second@.dom().contains(earlier.claim.digest));
    assert(third@.dom() =~= second@.dom());
}

} // verus!
