use vstd::prelude::*;

verus! {

/// System that updates global transforms from local ones.
#[derive(Clone, Copy, Debug)]
pub struct SceneSystem;

} // verus!
