//! The classification of a card.

use vstd::prelude::*;

verus! {

/// Card type.
#[derive(Debug, Clone, Copy, PartialEq, Eq, Structural)]
pub enum CardType {
    SD1,
    SD2,
    SDHC,
}

} // verus!
