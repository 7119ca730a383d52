//! What the configuration says of one witness.

use vstd::pervasive::unreached;
use vstd::prelude::*;
use crate::error::ControllerError;
use crate::text::{lemma_texts_push, texts};

verus! {

/// A witness as named in the configuration or in a rotation request: its
/// identifier, and where it can be reached if that is known beforehand.
#[derive(Debug, Clone, PartialEq, Eq)]
pub struct WitnessConfig {
    pub aid: Option<String>,
    pub location: Option<String>,
}

impl WitnessConfig {
    /// The witness identifier.
    pub fn get_aid(&self) -> (aid: Result<String, ControllerError>)
        requires
            self.aid is Some,
        ensures
            aid matches Ok(id) && id@ == self.aid->0@,
    {
        match &self.aid {
            Some(aid) => Ok(aid.clone()),
            None => unreached(),
        }
    }

    /// The configured location, or [`ControllerError::NoLocationSet`] where
    /// the configuration names none.
    pub fn get_location(&self) -> (location: Result<String, ControllerError>)
        ensures
            match self.location {
                Some(l) => location matches Ok(found) && found@ == l@,
                None => location == Err::<String, ControllerError>(ControllerError::NoLocationSet),
            },
    {
        match &self.location {
            Some(location) => Ok(location.clone()),
            None => Err(ControllerError::NoLocationSet),
        }
    }
}

/// Whether every witness of `configs` carries its identifier.
pub open spec fn all_identified(configs: Seq<WitnessConfig>) -> bool {
    forall|i: int| 0 <= i < configs.len() ==> (#[trigger] configs[i]).aid is Some
}

/// The identifiers of `configs`, in order.
pub open spec fn identifiers(configs: Seq<WitnessConfig>) -> Seq<Seq<char>> {
    Seq::new(configs.len(), |i: int| configs[i].aid->0@)
}

/// Reads the identifiers of `configs`, in order.
pub fn witness_ids(configs: &Vec<WitnessConfig>) -> (ids: Vec<String>)
    requires
        all_identified(configs@),
    ensures
        texts(ids@) == identifiers(configs@),
{
    let mut ids: Vec<String> = Vec::new();
    let mut i: usize = 0;
    while i < configs.len()
        invariant
            i <= configs.len(),
            all_identified(configs@),
            texts(ids@) == identifiers(configs@).take(i as int),
        decreases configs.len() - i,
    {
        match &configs[i].aid {
            Some(aid) => {
                let id = aid.clone();
                proof {
                    lemma_texts_push(ids@, id);
                    assert(identifiers(configs@).take(i as int).push(id@) =~= identifiers(
                        configs@,
                    ).take(i + 1));
                }
                ids.push(id);
            },
            None => unreached(),
        }
        i += 1;
    }
    assert(identifiers(configs@).take(configs.len() as int) =~= identifiers(configs@));
    ids
}

} // verus!
