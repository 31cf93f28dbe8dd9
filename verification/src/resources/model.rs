//! Handles for loaded models and materials. A handle is the index at which
//! its owner keeps the item, and stays good as long as the owner only adds.

use vstd::prelude::*;

verus! {

/// Names a material by its index.
pub struct MaterialId(usize);

/// Names a model by its index.
#[derive(Debug, Clone, Copy)]
pub struct ModelId(usize);

impl View for MaterialId {
    type V = usize;

    /// The index this handle names.
    closed spec fn view(&self) -> usize {
        self.0
    }
}

impl View for ModelId {
    type V = usize;

    /// The index this handle names.
    closed spec fn view(&self) -> usize {
        self.0
    }
}

impl MaterialId {
    /// The handle for the material at `index`.
    pub fn new(index: usize) -> (id: MaterialId)
        ensures
            id@ == index,
    {
        MaterialId(index)
    }

    /// The index this handle names.
    pub fn index(&self) -> (index: usize)
        ensures
            index == self@,
    {
        self.0
    }
}

impl ModelId {
    /// The handle for the model at `index`.
    pub fn new(index: usize) -> (id: ModelId)
        ensures
            id@ == index,
    {
        ModelId(index)
    }

    /// The index this handle names.
    pub fn index(&self) -> (index: usize)
        ensures
            index == self@,
    {
        self.0
    }
}

} // verus!
