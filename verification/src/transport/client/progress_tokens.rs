//! The progress tokens of sent requests, as the requester wrote them.
//!
//! On the wire every token is a string; the requester may have used a number.

use vstd::prelude::*;

use crate::constants::DEFAULT_LRU_SIZE;
use crate::json::{Json, JsonV};
use crate::lru_cache::{has_key, in_front, pushed, value_of, without};
use crate::recency_map::{keys_distinct, mapped, mapped_facts, pushed_facts, RecencyMap};

verus! {

/// The model of a token.
pub open spec fn token_view() -> spec_fn(Json) -> JsonV {
    |j: Json| j@
}

/// The progress tokens of sent requests by their text. The ones that were used longest ago are
/// forgotten when there are too many.
pub struct ProgressTokens {
    tokens: RecencyMap<Json>,
}

impl View for ProgressTokens {
    type V = Seq<(Seq<char>, JsonV)>;

    closed spec fn view(&self) -> Seq<(Seq<char>, JsonV)> {
        mapped(self.tokens@, token_view())
    }
}

/// The tokens after one more has been recorded.
pub open spec fn recorded(
    tokens: Seq<(Seq<char>, JsonV)>,
    text: Seq<char>,
    original: JsonV,
) -> Seq<(Seq<char>, JsonV)> {
    pushed(tokens, DEFAULT_LRU_SIZE as nat, text, original)
}

/// The tokens after one has been used.
pub open spec fn used(tokens: Seq<(Seq<char>, JsonV)>, text: Seq<char>) -> Seq<
    (Seq<char>, JsonV),
> {
    match value_of(tokens, text) {
        Some(original) => in_front(tokens, text, original),
        None => tokens,
    }
}

impl ProgressTokens {
    /// Whether the store is well formed.
    pub closed spec fn wf(&self) -> bool {
        self.tokens.wf() && self.tokens.capacity() == DEFAULT_LRU_SIZE
    }

    /// Each text is recorded at most once, and no more of them than may be.
    pub proof fn wf_facts(&self)
        requires
            self.wf(),
        ensures
            keys_distinct(self@),
            self@.len() <= DEFAULT_LRU_SIZE,
    {
        self.tokens.wf_facts();
        assert forall|i: int, j: int|
            0 <= i < self@.len() && 0 <= j < self@.len() && i != j implies (#[trigger] self@[i]).0
            != (#[trigger] self@[j]).0 by {
            assert(self.tokens@[i].0 != self.tokens@[j].0);
        }
    }

    proof fn lookup_facts(&self, key: Seq<char>)
        requires
            self.wf(),
        ensures
            has_key(self@, key) == has_key(self.tokens@, key),
            value_of(self@, key) == (match value_of(self.tokens@, key) {
                Some(t) => Some(t@),
                None => None,
            }),
            without(self@, key) == mapped(without(self.tokens@, key), token_view()),
            value_of(self.tokens@, key) matches Some(t) ==> in_front(self@, key, t@) == mapped(
                in_front(self.tokens@, key, t),
                token_view(),
            ),
    {
        self.tokens.wf_facts();
        if has_key(self.tokens@, key) {
            mapped_facts(
                self.tokens@,
                token_view(),
                self.tokens.capacity(),
                key,
                value_of(self.tokens@, key).unwrap(),
            );
        } else if has_key(self@, key) {
            let i = crate::lru_cache::index_of_key(self@, key);
            assert(self.tokens@[i].0 == key);
        }
    }

    /// No token.
    pub fn new() -> (r: Self)
        ensures
            r.wf(),
            r@ == Seq::<(Seq<char>, JsonV)>::empty(),
    {
        let r = ProgressTokens { tokens: RecencyMap::with_capacity(DEFAULT_LRU_SIZE) };
        assert(r@ =~= Seq::<(Seq<char>, JsonV)>::empty());
        r
    }

    /// Records a token under its text, in place of an earlier one.
    pub fn record(&mut self, token: String, original: Json)
        requires
            old(self).wf(),
        ensures
            final(self).wf(),
            final(self)@ == recorded(old(self)@, token@, original@),
    {
        proof {
            self.tokens.wf_facts();
            mapped_facts(
                self.tokens@,
                token_view(),
                self.tokens.capacity(),
                token@,
                original,
            );
        }
        let _ = self.tokens.push(token, original);
    }

    /// Forgets a token, and returns it.
    pub fn remove(&mut self, token: &str) -> (r: Option<Json>)
        requires
            old(self).wf(),
        ensures
            final(self).wf(),
            final(self)@ == without(old(self)@, token@),
            crate::json::opt_json(r) == value_of(old(self)@, token@),
    {
        proof {
            self.lookup_facts(token@);
        }
        self.tokens.pop(token)
    }

    /// The token as the requester wrote it. It counts as used.
    pub fn lookup(&mut self, token: &str) -> (r: Option<Json>)
        requires
            old(self).wf(),
        ensures
            final(self).wf(),
            final(self)@ == used(old(self)@, token@),
            crate::json::opt_json(r) == value_of(old(self)@, token@),
    {
        proof {
            self.lookup_facts(token@);
        }
        let r = match self.tokens.peek(token) {
            Some(original) => Some(original.duplicate()),
            None => None,
        };
        let _ = self.tokens.promote(token);
        r
    }

    /// Forgets every token.
    pub fn clear(&mut self)
        requires
            old(self).wf(),
        ensures
            final(self).wf(),
            final(self)@ == Seq::<(Seq<char>, JsonV)>::empty(),
    {
        self.tokens.clear();
        assert(self@ =~= Seq::<(Seq<char>, JsonV)>::empty());
    }
}

/// A recorded token is found, as it was written.
pub proof fn recorded_is_found(tokens: Seq<(Seq<char>, JsonV)>, text: Seq<char>, original: JsonV)
    requires
        keys_distinct(tokens),
        tokens.len() <= DEFAULT_LRU_SIZE,
    ensures
        value_of(recorded(tokens, text, original), text) == Some(original),
{
    pushed_facts(tokens, DEFAULT_LRU_SIZE as nat, text, original);
}

} // verus!
