//! The transformation passes the engine schedules, by name. Each pass is a
//! tree-transformation visitor plugged into the engine through a narrow
//! contract; the visitors themselves live with the surrounding binary, while
//! the engine selects and orders the passes by these markers and filters them
//! through `Minimizer::pass_disabled`.

use vstd::prelude::*;

verus! {

/// Replaces every function body that is not already a single empty infinite
/// loop with one.
#[derive(Default)]
pub struct EverybodyLoops;

impl EverybodyLoops {
    /// The name this pass is selected by.
    pub fn name(&self) -> (r: &'static str)
        ensures
            r@ == "everybody-loops"@,
    {
        "everybody-loops"
    }
}

/// Deletes named or positional struct and variant fields independently.
#[derive(Default)]
pub struct FieldDeleter;

impl FieldDeleter {
    /// The name this pass is selected by.
    pub fn name(&self) -> (r: &'static str)
        ensures
            r@ == "field-deleter"@,
    {
        "field-deleter"
    }
}

/// Removes whole items — structs, functions, impls, modules and the like —
/// by name path, never recursing into deleted subtrees.
#[derive(Default)]
pub struct ItemDeleter;

impl ItemDeleter {
    /// The name this pass is selected by.
    pub fn name(&self) -> (r: &'static str)
        ensures
            r@ == "item-deleter"@,
    {
        "item-deleter"
    }
}

/// Downgrades `pub` visibility to crate visibility, including `pub use`,
/// without recursing into `use` subtrees.
#[derive(Default)]
pub struct Privatize;

impl Privatize {
    /// The name this pass is selected by.
    pub fn name(&self) -> (r: &'static str)
        ensures
            r@ == "privatize"@,
    {
        "privatize"
    }
}

/// Expands grouped imports into one `use` per leaf, so that later passes can
/// delete them independently; purely enabling, not itself a minimization.
#[derive(Default)]
pub struct SplitUse;

impl SplitUse {
    /// The name this pass is selected by.
    pub fn name(&self) -> (r: &'static str)
        ensures
            r@ == "split-use"@,
    {
        "split-use"
    }
}

} // verus!
