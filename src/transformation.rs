//! The scoped stack of composed transformations used while a scene is built.
use vstd::prelude::*;

verus! {

/// A stack of transformations whose bottom entry is the identity. Each entry
/// is the composition of every transformation of the enclosing scopes, so the
/// top is the transformation that applies at the current point of the scene.
pub struct TransformationStack<T> {
    stack: Vec<T>,
}

impl<T> View for TransformationStack<T> {
    type V = Seq<T>;

    /// The entries from the bottom (index 0) to the top.
    closed spec fn view(&self) -> Seq<T> {
        self.stack@
    }
}

impl<T> TransformationStack<T> {
    /// A stack holding the identity alone.
    pub fn new_with_identity(identity: T) -> (r: Self)
        ensures
            r@ == seq![identity],
    {
        let mut stack: Vec<T> = Vec::new();
        stack.push(identity);
        TransformationStack { stack }
    }

    /// Enters a scope. `composed` is the new scope's transformation already
    /// composed with the current top (see `get_transformation`).
    pub fn push_transformation(&mut self, composed: T)
        ensures
            final(self)@ == old(self)@.push(composed),
    {
        self.stack.push(composed);
    }

    /// Leaves the innermost scope and returns its transformation. The
    /// identity at the bottom is never popped.
    pub fn pop_transformation(&mut self) -> (r: T)
        requires
            old(self)@.len() >= 2,
        ensures
            r == old(self)@.last(),
            final(self)@ == old(self)@.drop_last(),
    {
        self.stack.pop().unwrap()
    }

    /// The transformation of the current scope.
    pub fn get_transformation(&self) -> (r: &T)
        requires
            self@.len() >= 1,
        ensures
            *r == self@.last(),
    {
        let n = self.stack.len();
        &self.stack[n - 1]
    }

    /// The number of entries, the identity included.
    pub fn depth(&self) -> (r: usize)
        ensures
            r == self@.len(),
    {
        self.stack.len()
    }
}

} // verus!
