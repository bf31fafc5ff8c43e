//! A context that carries an extension beside its base.

use vstd::prelude::*;

verus! {

/// A base context and an extension.
#[derive(Debug, Clone)]
pub struct ExtendedContext<T, U> {
    base: T,
    pub extension: U,
}

impl<T, U> ExtendedContext<T, U> {
    /// The base context.
    pub closed spec fn spec_base(&self) -> T {
        self.base
    }

    /// The extension.
    pub closed spec fn spec_extension(&self) -> U {
        self.extension
    }

    /// A context with `base` and `extension`.
    pub fn new(base: T, extension: U) -> (r: ExtendedContext<T, U>)
        ensures
            r.spec_base() == base,
            r.spec_extension() == extension,
    {
        ExtendedContext { base, extension }
    }

    /// Replaces the extension by `f` applied to it; the base stays.
    pub fn map<F: FnOnce(U) -> V, V>(self, f: F) -> (r: ExtendedContext<T, V>)
        requires
            f.requires((self.spec_extension(),)),
        ensures
            r.spec_base() == self.spec_base(),
            f.ensures((self.spec_extension(),), r.spec_extension()),
    {
        ExtendedContext { base: self.base, extension: f(self.extension) }
    }

    pub fn base(&self) -> (r: &T)
        ensures
            *r == self.spec_base(),
    {
        &self.base
    }
}

} // verus!
