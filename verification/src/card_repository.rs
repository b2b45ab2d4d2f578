//! What a store of cards offers.

use crate::card::{Card, CardsMap};
use crate::error::CardamomError;
use vstd::prelude::*;

verus! {

/// A store of cards. The methods reach the store itself, so nothing is
/// stated of what they return.
pub trait CardRepository {
    fn insert(&self, card: &mut Card) -> Result<(), CardamomError>;

    fn select(&self, id: &str) -> Result<Card, CardamomError>;

    fn select_all(&self) -> Result<CardsMap, CardamomError>;

    fn update(&self, card: &mut Card) -> Result<(), CardamomError>;

    fn delete(&self, card: &Card) -> Result<(), CardamomError>;
}

} // verus!
