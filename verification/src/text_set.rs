//! A finite set of texts.

use vstd::prelude::*;

use crate::text::texts;
use crate::text_map::TextMap;

verus! {

/// A finite set of texts.
pub struct TextSet {
    members: TextMap<()>,
}

impl View for TextSet {
    type V = Set<Seq<char>>;

    closed spec fn view(&self) -> Set<Seq<char>> {
        self.members@.dom()
    }
}

impl TextSet {
    /// The empty set.
    pub fn new() -> (r: Self)
        ensures
            r@ == Set::<Seq<char>>::empty(),
    {
        let r = TextSet { members: TextMap::new() };
        assert(r@ =~= Set::<Seq<char>>::empty());
        r
    }

    /// Number of members.
    pub fn len(&self) -> (r: usize)
        ensures
            r == self@.len(),
            self@.finite(),
    {
        self.members.len()
    }

    /// Whether `text` is a member.
    pub fn contains(&self, text: &str) -> (r: bool)
        ensures
            r == self@.contains(text@),
    {
        self.members.contains_key(text)
    }

    /// Adds a member.
    pub fn insert(&mut self, text: String)
        ensures
            final(self)@ == old(self)@.insert(text@),
    {
        let ghost name = text@;
        let _ = self.members.insert(text, ());
        assert(self@ =~= old(self)@.insert(name));
    }

    /// Takes out a member.
    pub fn remove(&mut self, text: &str)
        ensures
            final(self)@ == old(self)@.remove(text@),
    {
        let _ = self.members.remove(text);
        assert(self@ =~= old(self)@.remove(text@));
    }

    /// Every member once, in no particular order.
    pub fn items(&self) -> (r: Vec<String>)
        ensures
            texts(r@).no_duplicates(),
            texts(r@).to_set() == self@,
            r@.len() == self@.len(),
    {
        self.members.keys()
    }
}

} // verus!
