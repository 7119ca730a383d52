//! The request boundary: which request means what, and how a rotation
//! request reaches the controller.

use vstd::prelude::*;
use crate::attestation::Claim;
use crate::controller::{
    requested_configs, requested_ids, rotation_outcome, state_view, Controller,
};
use crate::directory::saved_locations;
use crate::error::{ApiError, ControllerError};
use crate::keystate::KeyState;
use crate::rotation::RotationPlan;
use crate::text::texts;
use crate::witness::{all_identified, WitnessConfig};

verus! {

/// The request methods that the routes tell apart.
#[derive(Debug, Clone, Copy, PartialEq, Eq, Structural)]
pub enum Method {
    Get,
    Post,
    Other,
}

/// What a request asks for.
#[derive(Debug, Clone, Copy, PartialEq, Eq, Structural)]
pub enum Route {
    /// `GET /attestations`: list the stored attestations.
    ListAttestations,
    /// `POST /attestations/create`: issue the claim in the body.
    CreateAttestation,
    /// `POST /attestations`: accept the signed envelope in the body.
    ReceiveAttestation,
    /// `POST /rotate`: rotate to the witness list and threshold in the body.
    Rotate,
}

/// The route of a request, by its method and the segments of its path. A
/// path is matched by its leading segments; what follows them is not looked
/// at.
pub open spec fn route_of(method: Method, segments: Seq<Seq<char>>) -> Option<Route> {
    if segments.len() >= 1 && segments[0] == "attestations"@ {
        match method {
            Method::Get => Some(Route::ListAttestations),
            Method::Post => if segments.len() >= 2 && segments[1] == "create"@ {
                Some(Route::CreateAttestation)
            } else {
                Some(Route::ReceiveAttestation)
            },
            Method::Other => None,
        }
    } else if segments.len() >= 1 && segments[0] == "rotate"@ && method == Method::Post {
        Some(Route::Rotate)
    } else {
        None
    }
}

/// Whether `text` reads `literal`.
fn reads(text: &String, literal: &str) -> (same: bool)
    ensures
        same == (text@ == literal@),
{
    let other = String::from_str(literal);
    *text == other
}

/// Finds the route of a request.
pub fn route_request(method: Method, segments: &Vec<String>) -> (route: Option<Route>)
    ensures
        route == route_of(method, texts(segments@)),
{
    if segments.len() >= 1 && reads(&segments[0], "attestations") {
        match method {
            Method::Get => Some(Route::ListAttestations),
            Method::Post => {
                if segments.len() >= 2 && reads(&segments[1], "create") {
                    Some(Route::CreateAttestation)
                } else {
                    Some(Route::ReceiveAttestation)
                }
            },
            Method::Other => None,
        }
    } else if segments.len() >= 1 && reads(&segments[0], "rotate") {
        match method {
            Method::Post => Some(Route::Rotate),
            _ => None,
        }
    } else {
        None
    }
}

/// The witness list that a rotation request asks for: an empty list asks for
/// no change of witnesses, as an absent one does.
pub open spec fn requested_list(witness_prefixes: Option<Vec<WitnessConfig>>) -> Option<
    Vec<WitnessConfig>,
> {
    match witness_prefixes {
        Some(prefixes) => if prefixes.len() == 0 {
            None
        } else {
            Some(prefixes)
        },
        None => None,
    }
}

/// Reads the witness list that a rotation request asks for.
pub fn requested_witnesses(witness_prefixes: Option<Vec<WitnessConfig>>) -> (list: Option<
    Vec<WitnessConfig>,
>)
    ensures
        list == requested_list(witness_prefixes),
{
    match witness_prefixes {
        Some(prefixes) => {
            if prefixes.len() == 0 {
                None
            } else {
                Some(prefixes)
            }
        },
        None => None,
    }
}

/// Handles a rotation request: the controller decides on it, and a refusal
/// is reported with its description.
pub fn rotate(
    controller: &mut Controller,
    state: Option<&KeyState>,
    witness_prefixes: Option<Vec<WitnessConfig>>,
    threshold: Option<u64>,
) -> (outcome: Result<RotationPlan, ApiError>)
    requires
        witness_prefixes matches Some(list) ==> all_identified(list@),
    ensures
        match rotation_outcome(
            state_view(state),
            requested_ids(requested_list(witness_prefixes)),
            threshold,
        ) {
            Ok(plan) => {
                &&& outcome matches Ok(p) && p@ == plan
                &&& final(controller).locations() == saved_locations(
                    old(controller).locations(),
                    requested_configs(requested_list(witness_prefixes)),
                )
            },
            Err(error) => {
                &&& outcome matches Err(ApiError::SomeError(text)) && text@ == error.message()
                &&& final(controller).locations() == old(controller).locations()
            },
        },
{
    match controller.rotate(state, requested_witnesses(witness_prefixes), threshold) {
        Ok(plan) => Ok(plan),
        Err(error) => Err(ApiError::SomeError(error.describe())),
    }
}

/// The byte that opens a JSON array.
pub const ARRAY_OPEN: u8 = 91;

/// The byte that closes a JSON array.
pub const ARRAY_CLOSE: u8 = 93;

/// The byte that stands between the items of a JSON array.
pub const ARRAY_COMMA: u8 = 44;

/// The payloads of `claims` as one JSON array.
pub open spec fn claims_array(claims: Seq<Claim>) -> Seq<u8> {
    seq![ARRAY_OPEN] + array_items(claims) + seq![ARRAY_CLOSE]
}

/// The payloads of `claims`, with a comma between each two.
pub open spec fn array_items(claims: Seq<Claim>) -> Seq<u8>
    decreases claims.len(),
{
    if claims.len() == 0 {
        Seq::empty()
    } else if claims.len() == 1 {
        claims[0]@.payload
    } else {
        array_items(claims.drop_last()) + seq![ARRAY_COMMA] + claims.last()@.payload
    }
}

/// Writes the answer to a request for the stored attestations: the claims
/// as a JSON array.
pub fn claims_json(claims: &Vec<Claim>) -> (body: Vec<u8>)
    ensures
        body@ == claims_array(claims@),
{
    let mut body: Vec<u8> = Vec::new();
    body.push(ARRAY_OPEN);
    let ghost open = body@;
    let mut i: usize = 0;
    assert(claims@.take(0) =~= Seq::<Claim>::empty());
    assert(open + array_items(claims@.take(0)) =~= open);
    while i < claims.len()
        invariant
            i <= claims.len(),
            open == seq![ARRAY_OPEN],
            body@ == open + array_items(claims@.take(i as int)),
        decreases claims.len() - i,
    {
        let ghost before = claims@.take(i as int);
        let ghost upto = claims@.take(i + 1);
        assert(upto.drop_last() =~= before);
        assert(upto.last() == claims@[i as int]);
        if i > 0 {
            body.push(ARRAY_COMMA);
        }
        let payload = claims[i].payload();
        let ghost start = body@;
        let mut k: usize = 0;
        assert(start + payload@.take(0) =~= start);
        while k < payload.len()
            invariant
                k <= payload.len(),
                body@ == start + payload@.take(k as int),
            decreases payload.len() - k,
        {
            body.push(payload[k]);
            assert((start + payload@.take(k as int)).push(payload@[k as int]) =~= start
                + payload@.take(k + 1));
            k += 1;
        }
        proof {
            assert(payload@.take(payload.len() as int) =~= payload@);
            if i == 0 {
                assert(array_items(before) =~= Seq::<u8>::empty());
                assert(open + array_items(upto) =~= start + payload@);
            } else {
                assert(open + array_items(upto) =~= open + array_items(before) + seq![
                    ARRAY_COMMA,
                ] + payload@);
            }
        }
        i += 1;
    }
    assert(claims@.take(claims.len() as int) =~= claims@);
    body.push(ARRAY_CLOSE);
    body
}

/// Checks the bootstrap configuration: a witness list, where one is given,
/// has to reach the witness threshold.
pub fn check_bootstrap(witness_count: Option<usize>, witness_threshold: u64) -> (checked: Result<
    (),
    ControllerError,
>)
    ensures
        checked is Ok <==> (witness_count matches Some(count) ==> count >= witness_threshold),
        checked matches Err(error) ==> error == ControllerError::NotEnoughWitnesses,
{
    match witness_count {
        Some(count) => {
            if (count as u64) < witness_threshold {
                Err(ControllerError::NotEnoughWitnesses)
            } else {
                Ok(())
            }
        },
        None => Ok(()),
    }
}

} // verus!
