//! Checking signatures against the key configuration of an identifier.

use keri::derivation::basic::Basic;
use keri::derivation::self_signing::SelfSigning;
use keri::event::sections::threshold::SignatureThreshold;
use keri::keys::PublicKey;
use keri::prefix::{AttachedSignaturePrefix, BasicPrefix};
use keri::signer::{CryptoBox, KeyManager};
use vstd::prelude::*;
use crate::bytes::{byte_views, copy_all};
use crate::error::ApiError;

verus! {

/// The signing keys of an identifier: its Ed25519 public keys in order, and
/// how many of them have to sign.
#[derive(Debug, Clone, PartialEq, Eq)]
pub struct KeyConfig {
    pub public_keys: Vec<Vec<u8>>,
    pub threshold: u64,
}

/// The mathematical value of a [`KeyConfig`].
pub struct KeyConfigView {
    pub public_keys: Seq<Seq<u8>>,
    pub threshold: u64,
}

impl View for KeyConfig {
    type V = KeyConfigView;

    open spec fn view(&self) -> KeyConfigView {
        KeyConfigView { public_keys: byte_views(self.public_keys@), threshold: self.threshold }
    }
}

impl KeyConfig {
    /// A copy of this key configuration.
    pub fn duplicate(&self) -> (copy: KeyConfig)
        ensures
            copy@ == self@,
    {
        KeyConfig { public_keys: copy_all(&self.public_keys), threshold: self.threshold }
    }
}

/// An Ed25519 signature, and the index of the key that is said to have made
/// it.
#[derive(Debug, Clone, PartialEq, Eq)]
pub struct Signature {
    pub index: u16,
    pub bytes: Vec<u8>,
}

/// The mathematical value of a [`Signature`].
pub struct SignatureView {
    pub index: u16,
    pub bytes: Seq<u8>,
}

impl View for Signature {
    type V = SignatureView;

    open spec fn view(&self) -> SignatureView {
        SignatureView { index: self.index, bytes: self.bytes@ }
    }
}

/// The values of a run of signatures.
pub open spec fn signature_views(signatures: Seq<Signature>) -> Seq<SignatureView> {
    Seq::new(signatures.len(), |i: int| signatures[i]@)
}

/// Whether `signature` is a valid Ed25519 signature of `message` under the
/// public key `key`: what `PublicKey::verify_ed` of the `keri` crate makes
/// of the three.
pub uninterp spec fn ed25519_verifies(key: Seq<u8>, message: Seq<u8>, signature: Seq<u8>) -> bool;

/// Whether every signature names a key of `keys` and has a shape that the
/// verifier takes: a signature of 64 bytes keeps the three highest bits of
/// its last byte clear.
pub open spec fn well_formed(keys: Seq<Seq<u8>>, signatures: Seq<SignatureView>) -> bool {
    forall|i: int|
        0 <= i < signatures.len() ==> {
            &&& (#[trigger] signatures[i]).index < keys.len()
            &&& signatures[i].bytes.len() == 64 ==> signatures[i].bytes[63] < 32
        }
}

/// Whether no two signatures name the same key.
pub open spec fn distinct_indices(signatures: Seq<SignatureView>) -> bool {
    forall|i: int, j: int|
        0 <= i < j < signatures.len() ==> (#[trigger] signatures[i]).index != (
        #[trigger] signatures[j]).index
}

/// Whether `signatures` satisfy `config` for `message`: there are at least
/// as many as the threshold asks for and no more than there are keys, no key
/// signs twice, and each signature verifies under the key that it names.
pub open spec fn satisfies(
    config: KeyConfigView,
    message: Seq<u8>,
    signatures: Seq<SignatureView>,
) -> bool {
    &&& config.threshold <= signatures.len() <= config.public_keys.len()
    &&& distinct_indices(signatures)
    &&& forall|i: int|
        0 <= i < signatures.len() ==> ed25519_verifies(
            config.public_keys[(#[trigger] signatures[i]).index as int],
            message,
            signatures[i].bytes,
        )
}

/// Calls `keri::event::sections::KeyConfig::verify` on a key configuration
/// of Ed25519 keys under a plain threshold, with Ed25519 signatures.
///
/// As the source of `verify` has it, the call accepts where the signatures
/// are at least the threshold and at most the keys in number, name each key
/// at most once, and each pass `PublicKey::verify_ed` under the key they
/// name; every other outcome, errors included, is a refusal. `requires`
/// leaves out the inputs on which `verify` indexes out of bounds or on which
/// the signature's constructor panics.
#[verifier::external_body]
fn keri_verify(config: &KeyConfig, message: &[u8], signatures: &Vec<Signature>) -> (accepted: bool)
    requires
        well_formed(config@.public_keys, signature_views(signatures@)),
    ensures
        accepted == {
            &&& config.threshold <= signatures.len() <= config.public_keys.len()
            &&& distinct_indices(signature_views(signatures@))
            &&& forall|i: int|
                0 <= i < signatures.len() ==> ed25519_verifies(
                    config.public_keys[(#[trigger] signatures[i]).index as int]@,
                    message@,
                    signatures[i].bytes@,
                )
        },
{
    let keys = config.public_keys.iter().map(
        |key| BasicPrefix::new(Basic::Ed25519, PublicKey::new(key.clone())),
    ).collect();
    let attached: Vec<AttachedSignaturePrefix> = signatures.iter().map(
        |s| AttachedSignaturePrefix::new(SelfSigning::Ed25519Sha512, s.bytes.clone(), s.index),
    ).collect();
    let threshold = SignatureThreshold::Simple(config.threshold);
    let config = keri::event::sections::KeyConfig::new(keys, None, Some(threshold));
    matches!(config.verify(message, &attached), Ok(true))
}

/// Whether every signature names a key of `config` and has a shape that the
/// verifier takes.
pub fn check_well_formed(config: &KeyConfig, signatures: &Vec<Signature>) -> (fine: bool)
    ensures
        fine == well_formed(config@.public_keys, signature_views(signatures@)),
{
    let mut i: usize = 0;
    while i < signatures.len()
        invariant
            i <= signatures.len(),
            well_formed(config@.public_keys, signature_views(signatures@).take(i as int)),
        decreases signatures.len() - i,
    {
        let signature = &signatures[i];
        let ghost view = signature_views(signatures@)[i as int];
        if signature.index as usize >= config.public_keys.len() {
            assert(!(view.index < config@.public_keys.len()));
            return false;
        }
        if signature.bytes.len() == 64 && signature.bytes[63] >= 32 {
            assert(view.bytes.len() == 64 && !(view.bytes[63] < 32));
            return false;
        }
        assert forall|k: int| 0 <= k < i + 1 implies {
            &&& (#[trigger] signature_views(signatures@).take(i + 1)[k]).index
                < config@.public_keys.len()
            &&& signature_views(signatures@).take(i + 1)[k].bytes.len() == 64
                ==> signature_views(signatures@).take(i + 1)[k].bytes[63] < 32
        } by {
            if k < i {
                assert(signature_views(signatures@).take(i as int)[k] == signature_views(
                    signatures@,
                ).take(i + 1)[k]);
            }
        }
        i += 1;
    }
    assert(signature_views(signatures@).take(signatures.len() as int) =~= signature_views(
        signatures@,
    ));
    true
}

/// Whether `signatures` are well formed and satisfy `config` for `message`.
pub open spec fn verifies(
    config: KeyConfigView,
    message: Seq<u8>,
    signatures: Seq<SignatureView>,
) -> bool {
    well_formed(config.public_keys, signatures) && satisfies(config, message, signatures)
}

/// Verifies `signatures` of `message` against `config`.
///
/// Signatures that name no key of `config`, or whose shape the verifier does
/// not take, are refused before the verifier is asked.
pub fn verify(config: &KeyConfig, message: &[u8], signatures: &Vec<Signature>) -> (accepted: bool)
    ensures
        accepted == verifies(config@, message@, signature_views(signatures@)),
{
    if !check_well_formed(config, signatures) {
        return false;
    }
    let accepted = keri_verify(config, message, signatures);
    proof {
        let views = signature_views(signatures@);
        assert forall|i: int| 0 <= i < signatures.len() implies (ed25519_verifies(
            config.public_keys[(#[trigger] signatures[i]).index as int]@,
            message@,
            signatures[i].bytes@,
        ) == ed25519_verifies(
            config@.public_keys[views[i].index as int],
            message@,
            views[i].bytes,
        )) by {
            assert(views[i].index < config@.public_keys.len());
        }
        if accepted {
            assert forall|i: int| 0 <= i < views.len() implies ed25519_verifies(
                config@.public_keys[(#[trigger] views[i]).index as int],
                message@,
                views[i].bytes,
            ) by {
                assert(ed25519_verifies(
                    config.public_keys[signatures[i].index as int]@,
                    message@,
                    signatures[i].bytes@,
                ));
            }
        } else {
            if satisfies(config@, message@, views) {
                assert forall|i: int| 0 <= i < signatures.len() implies ed25519_verifies(
                    config.public_keys[(#[trigger] signatures[i]).index as int]@,
                    message@,
                    signatures[i].bytes@,
                ) by {
                    assert(ed25519_verifies(
                        config@.public_keys[views[i].index as int],
                        message@,
                        views[i].bytes,
                    ));
                }
            }
        }
    }
    accepted
}

/// The key manager of the `keri` crate: it holds the current and the next
/// signing key.
#[verifier::external_type_specification]
#[verifier::external_body]
pub struct ExCryptoBox(CryptoBox);

/// Calls `KeyManager::sign` of `keri::signer::CryptoBox`, which signs `data`
/// with the secret key that the box holds, and hands back the signature or
/// the text of the error. Nothing is claimed of the outcome: it depends on a
/// key that only the box knows.
#[verifier::external_body]
fn key_manager_sign(keys: &CryptoBox, data: &[u8]) -> (signature: Result<Vec<u8>, String>) {
    keys.sign(data).map_err(|error| error.to_string())
}

/// Signs `data` with the current key of `keys`. The signature names the
/// first key of the key configuration: an identifier has one signing key.
///
/// Fails with [`ApiError::SomeError`] where the key manager fails. What the
/// signature is worth is for [`verify`] to say.
pub fn sign(keys: &CryptoBox, data: &[u8]) -> (signature: Result<Signature, ApiError>)
    ensures
        match signature {
            Ok(made) => made.index == 0,
            Err(error) => error is SomeError,
        },
{
    signature_from(key_manager_sign(keys, data))
}

/// Makes of what the key manager handed back the result of signing: its
/// bytes become the signature of the first key, and the text of its error
/// becomes an [`ApiError::SomeError`].
pub fn signature_from(outcome: Result<Vec<u8>, String>) -> (signature: Result<
    Signature,
    ApiError,
>)
    ensures
        match outcome {
            Ok(bytes) => signature matches Ok(made) && made@ == (SignatureView {
                index: 0,
                bytes: bytes@,
            }),
            Err(text) => signature matches Err(ApiError::SomeError(told)) && told@ == text@,
        },
{
    match outcome {
        Ok(bytes) => Ok(Signature { index: 0, bytes }),
        Err(text) => Err(ApiError::SomeError(text)),
    }
}

} // verus!
