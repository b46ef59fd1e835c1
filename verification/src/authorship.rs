//! A pluggable block-author lookup: polymorphism by configuration.
//!
//! Beside the registry-driven shapes, the crate carries a second, simpler
//! extensibility pattern: a component whose policy is chosen once, at the
//! type level, through a configuration trait.  `Pallet` finds the author of
//! the current block by asking the configured `FindAuthor` strategy over the
//! block's pre-runtime digests, memoizes the answer, and reports it to the
//! configured `EventHandler`.

use vstd::prelude::*;

verus! {

/// Identifies the consensus engine that produced a digest entry.
pub type ConsensusEngineId = [u8; 4];

/// A strategy for finding the author of a block from the pre-runtime
/// digests contained in its header.  Implementations are supplied by the
/// user of the component.
pub trait FindAuthor<Author> {
    /// Find the author of a block based on the pre-runtime digests.
    fn find_author(digests: &Vec<(ConsensusEngineId, Vec<u8>)>) -> Option<Author>;
}

/// The trivial strategy: no author is ever found.
impl<A> FindAuthor<A> for () {
    fn find_author(_digests: &Vec<(ConsensusEngineId, Vec<u8>)>) -> Option<A> {
        None
    }
}

/// An event handler told who authored the current block.  The unit
/// implementation does nothing.
pub trait EventHandler<Author> {
    /// Note that the given account is the author of the current block.
    fn note_author(author: Author);
}

impl<A> EventHandler<A> for () {
    fn note_author(_author: A) {
    }
}

/// The component's configuration: the account type and the two policies.
pub trait Config {
    /// The account identifier of an author.
    type AccountId: Copy;

    /// Find the author of a block.
    type FindAuthor: FindAuthor<Self::AccountId>;

    /// An event handler for authored blocks.
    type EventHandler: EventHandler<Self::AccountId>;
}

/// The author-tracking component: one memoized author per block.
pub struct Pallet<T: Config> {
    author: Option<T::AccountId>,
}

impl<T: Config> Pallet<T> {
    /// The author slot as the contracts speak of it.
    pub closed spec fn spec_author(&self) -> Option<T::AccountId> {
        self.author
    }

    /// A fresh component, with no author memorized.
    pub fn new() -> (r: Pallet<T>)
        ensures
            r.spec_author() is None,
    {
        Pallet { author: None }
    }

    /// Fetches the author of the block: the memorized value if one is set,
    /// otherwise whatever the configured strategy finds in the digests,
    /// which is then memorized.  Safe to invoke repeatedly.
    pub fn author(&mut self, digests: &Vec<(ConsensusEngineId, Vec<u8>)>) -> (r: Option<
        T::AccountId,
    >)
        ensures
            old(self).spec_author() is Some ==> r == old(self).spec_author(),
            final(self).spec_author() == r,
    {
        if let Some(author) = self.author {
            return Some(author);
        }
        let found = T::FindAuthor::find_author(digests);
        if let Some(author) = found {
            self.author = Some(author);
        }
        found
    }

    /// Runs at the start of a block: finds the author and reports it to the
    /// configured event handler.
    pub fn on_initialize(&mut self, digests: &Vec<(ConsensusEngineId, Vec<u8>)>)
        ensures
            old(self).spec_author() is Some ==> final(self).spec_author() == old(
                self,
            ).spec_author(),
    {
        if let Some(author) = self.author(digests) {
            T::EventHandler::note_author(author);
        }
    }

    /// Runs at the end of a block: the memorized author never outlives the
    /// block.
    pub fn on_finalize(&mut self)
        ensures
            final(self).spec_author() is None,
    {
        self.author = None;
    }
}

} // verus!
