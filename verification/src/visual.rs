use vstd::prelude::*;

verus! {

/// The colour of one kind of ingot, as red, green and blue bytes.
#[derive(Clone, Copy, PartialEq, Eq, Debug)]
pub struct IngotTypeConfig {
    pub color: [u8; 3],
}

/// The colours of the ingot kinds shown on the production tree.
#[derive(Clone, Copy, PartialEq, Eq, Debug)]
pub struct IngotsConfig {
    pub metal: IngotTypeConfig,
    pub crystal: IngotTypeConfig,
    pub void: IngotTypeConfig,
}

} // verus!
