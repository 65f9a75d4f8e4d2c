//! The cache entry itself, independent of any particular driver.

use vstd::prelude::*;

verus! {

/// What a cache entry stands for: the query text it was made with and the
/// handle it remembers, if any.
pub ghost struct EntryView<H> {
    pub query_text: Seq<char>,
    pub cached: Option<H>,
}

/// What an entry remembers after one use, given what it remembered before
/// and what the driver answers when asked to prepare the query.
///
/// A remembered handle is never replaced. An empty entry takes the handle of
/// a successful preparation and stays empty after a failed one.
pub open spec fn settled<H, E>(cached: Option<H>, outcome: Result<H, E>) -> Option<H> {
    match cached {
        Some(handle) => Some(handle),
        None => match outcome {
            Ok(handle) => Some(handle),
            Err(_) => None,
        },
    }
}

/// What one use of an entry gives back to its caller: the remembered handle
/// if there is one, and otherwise the driver's answer as it stands.
pub open spec fn answer<H, E>(cached: Option<H>, outcome: Result<H, E>) -> Result<H, E> {
    match cached {
        Some(handle) => Ok(handle),
        None => outcome,
    }
}

/// Holds exactly when `given` is the borrowed form of `expected`.
pub open spec fn lends<H, E>(given: Result<&H, E>, expected: Result<H, E>) -> bool {
    match given {
        Ok(handle) => expected == Ok::<H, E>(*handle),
        Err(error) => expected == Err::<H, E>(error),
    }
}

/// One query text and, once the query has been prepared, the handle that
/// the driver returned for it.
pub struct CacheEntry<H> {
    query: &'static str,
    handle: Option<H>,
}

impl<H> View for CacheEntry<H> {
    type V = EntryView<H>;

    closed spec fn view(&self) -> EntryView<H> {
        EntryView { query_text: self.query@, cached: self.handle }
    }
}

impl<H> CacheEntry<H> {
    /// Makes an entry for `query` that remembers no handle yet.
    pub fn new(query: &'static str) -> (entry: Self)
        ensures
            entry@.query_text == query@,
            entry@.cached is None,
    {
        CacheEntry { query, handle: None }
    }

    /// The query text the entry was made with.
    pub fn query(&self) -> (text: &'static str)
        ensures
            text@ == self@.query_text,
    {
        self.query
    }

    /// Whether the driver has to be asked before the entry can give a handle.
    pub fn needs_prepare(&self) -> (asked: bool)
        ensures
            asked == (self@.cached is None),
    {
        self.handle.is_none()
    }

    /// The remembered handle, if there is one.
    pub fn cached(&self) -> (found: Option<&H>)
        ensures
            found is Some ==> self@.cached == Some(*found->Some_0),
            found is None ==> self@.cached is None,
    {
        self.handle.as_ref()
    }

    /// Completes one use of the entry with the driver's answer `outcome`.
    ///
    /// An empty entry keeps the handle of a successful answer and returns
    /// it; a failed answer is returned unchanged and leaves the entry empty.
    /// An entry that already remembers a handle returns that handle and
    /// drops `outcome`.
    pub fn settle<E>(&mut self, outcome: Result<H, E>) -> (given: Result<&H, E>)
        ensures
            final(self)@.query_text == old(self)@.query_text,
            final(self)@.cached == settled(old(self)@.cached, outcome),
            lends(given, answer(old(self)@.cached, outcome)),
    {
        if self.handle.is_none() {
            match outcome {
                Ok(handle) => {
                    self.handle = Some(handle);
                },
                Err(error) => {
                    return Err(error);
                },
            }
        }
        Ok(self.handle.as_ref().unwrap())
    }

    /// Returns the entry's handle, calling `prepare` on the query text if
    /// no handle is remembered yet.
    ///
    /// A remembered handle is returned as it is and stays in place. With
    /// none remembered, the answer of `prepare` decides: its handle is kept
    /// and returned, or its failure is returned unchanged and nothing is
    /// kept, so that the next call asks again.
    pub fn resolve<E, F>(&mut self, prepare: F) -> (given: Result<&H, E>)
        where
            F: FnOnce(&'static str) -> Result<H, E>,
        requires
            old(self)@.cached is None ==> forall|text: &'static str|
                text@ == old(self)@.query_text ==> prepare.requires((text,)),
        ensures
            final(self)@.query_text == old(self)@.query_text,
            old(self)@.cached is Some ==> final(self)@.cached == old(self)@.cached && lends(
                given,
                Ok::<H, E>(old(self)@.cached->Some_0),
            ),
            old(self)@.cached is None ==> exists|text: &'static str, outcome: Result<H, E>|
                text@ == old(self)@.query_text && prepare.ensures((text,), outcome)
                    && final(self)@.cached == settled(None::<H>, outcome)
                    && lends(given, outcome),
    {
        if self.handle.is_none() {
            let outcome = prepare(self.query);
            self.settle(outcome)
        } else {
            Ok(self.handle.as_ref().unwrap())
        }
    }
}

} // verus!
