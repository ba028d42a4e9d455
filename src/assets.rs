//! A registry of loaded models, handed out by reference number.

use vstd::prelude::*;

verus! {

/// Reference to a model in an `Assets` registry.
#[derive(Clone, Copy, Debug, PartialEq, Eq, PartialOrd, Ord, Hash, Structural)]
pub struct ModelRef(pub usize);

/// Reference to a rig.
#[derive(Clone, Copy, Debug, PartialEq, Eq, PartialOrd, Ord, Hash, Structural)]
pub struct RigRef(pub usize);

/// Reference to an animation.
#[derive(Clone, Copy, Debug, PartialEq, Eq, PartialOrd, Ord, Hash, Structural)]
pub struct AnimRef(pub usize);

/// Loaded models under an asset directory. The model registered `n`-th is
/// found under `ModelRef(n)`.
pub struct Assets<M> {
    pub asset_root: String,
    pub models: Vec<M>,
}

impl<M> Assets<M> {
    /// An empty registry for assets under `asset_root`.
    pub fn new(asset_root: String) -> (r: Self)
        ensures
            r.asset_root@ == asset_root@,
            r.models@.len() == 0,
    {
        Self { asset_root, models: Vec::new() }
    }

    /// Registers a loaded model under the next free reference.
    pub fn insert_model(&mut self, model: M) -> (r: ModelRef)
        ensures
            r.0 == old(self).models@.len(),
            final(self).models@ == old(self).models@.push(model),
            final(self).asset_root@ == old(self).asset_root@,
    {
        let mref = ModelRef(self.models.len());
        self.models.push(model);
        mref
    }

    /// The model registered under `model`, if any.
    pub fn get_model(&self, model: ModelRef) -> (r: Option<&M>)
        ensures
            model.0 < self.models@.len() ==> r == Some(&self.models@[model.0 as int]),
            model.0 >= self.models@.len() ==> r.is_none(),
    {
        if model.0 < self.models.len() {
            Some(&self.models[model.0])
        } else {
            None
        }
    }
}

} // verus!
