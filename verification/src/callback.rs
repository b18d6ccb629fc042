//! Callbacks that learn how the processing of a message ended.

use vstd::prelude::*;

verus! {

/// Callback used to pass information about the outcome of importing a given
/// message (e.g. vote, commit, catch up). Useful to propagate data to the
/// network after making sure the import is successful.
pub enum Callback<F> {
    /// Default value.
    Blank,
    /// Callback to execute given a processing outcome.
    Work(F),
}

/// The callback was run on `o`: the work was done on it, if there is any, and the
/// callback still holds the same work. What the work has changed in the values that
/// it captured is not spoken of.
pub open spec fn was_run<O, F: FnMut(O)>(before: Callback<F>, o: O, after: Callback<F>) -> bool {
    &&& after == before
    &&& before matches Callback::Work(cb) ==> cb.ensures((o,), ())
}

impl<F> Callback<F> {
    /// Do the work associated with the callback, if any.
    pub fn run<O>(&mut self, o: O) where F: FnMut(O)
        requires
            *old(self) matches Callback::Work(cb) ==> cb.requires((o,)),
        ensures
            was_run(*old(self), o, *final(self)),
    {
        match self {
            Callback::Blank => {},
            Callback::Work(cb) => cb(o),
        }
    }

    /// The name under which the callback shows up in a log.
    pub fn debug_name(&self) -> (name: String)
        ensures
            name@ == match *self {
                Callback::Blank => "Callback::Blank"@,
                Callback::Work(_) => "Callback::Work"@,
            },
    {
        match self {
            Callback::Blank => "Callback::Blank".to_string(),
            Callback::Work(_) => "Callback::Work".to_string(),
        }
    }
}

impl<F> Clone for Callback<F> {
    /// The work is done by one callback only: a clone has none.
    fn clone(&self) -> (clone: Self)
        ensures
            clone == Callback::<F>::Blank,
    {
        Callback::Blank
    }
}

} // verus!
