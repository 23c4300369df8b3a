//! Event tags.
//!
//! A tag is a list of texts whose first one names it.

use vstd::prelude::*;

use crate::text::{clone_texts, texts};

verus! {

/// A tag of an event.
#[derive(Debug, PartialEq, Eq)]
pub struct Tag {
    /// The name of the tag and its values.
    pub parts: Vec<String>,
}

impl View for Tag {
    type V = Seq<Seq<char>>;

    open spec fn view(&self) -> Seq<Seq<char>> {
        texts(self.parts@)
    }
}

/// The models of some tags.
pub open spec fn tag_views(tags: Seq<Tag>) -> Seq<Seq<Seq<char>>> {
    Seq::new(tags.len(), |i: int| tags[i]@)
}

/// A tag that consists of its name.
pub open spec fn flag_tag(name: Seq<char>) -> Seq<Seq<char>> {
    seq![name]
}

/// A tag with one value.
pub open spec fn value_tag(name: Seq<char>, value: Seq<char>) -> Seq<Seq<char>> {
    seq![name, value]
}

impl Tag {
    /// A tag that consists of its name.
    pub fn flag(name: &str) -> (r: Tag)
        ensures
            r@ == flag_tag(name@),
    {
        let mut parts: Vec<String> = Vec::new();
        parts.push(name.to_owned());
        let r = Tag { parts };
        assert(r@ =~= flag_tag(name@));
        r
    }

    /// A tag with one value.
    pub fn with_value(name: &str, value: &str) -> (r: Tag)
        ensures
            r@ == value_tag(name@, value@),
    {
        let mut parts: Vec<String> = Vec::new();
        parts.push(name.to_owned());
        parts.push(value.to_owned());
        let r = Tag { parts };
        assert(r@ =~= value_tag(name@, value@));
        r
    }

    /// A copy of the tag.
    pub fn duplicate(&self) -> (r: Tag)
        ensures
            r@ == self@,
    {
        Tag { parts: clone_texts(&self.parts) }
    }
}

/// Appends copies of some tags to a list.
pub fn append_tags(list: &mut Vec<Tag>, more: &Vec<Tag>)
    ensures
        tag_views(final(list)@) == tag_views(old(list)@) + tag_views(more@),
{
    let ghost before = tag_views(list@);
    let mut i: usize = 0;
    assert(tag_views(list@) =~= before + tag_views(more@).take(0));
    while i < more.len()
        invariant
            i <= more@.len(),
            tag_views(list@) == before + tag_views(more@).take(i as int),
        decreases more@.len() - i,
    {
        let ghost held = list@;
        list.push(more[i].duplicate());
        assert(tag_views(list@) =~= tag_views(held).push(more@[i as int]@));
        assert(tag_views(more@).take(i + 1) =~= tag_views(more@).take(i as int).push(
            more@[i as int]@,
        ));
        assert(tag_views(list@) =~= before + tag_views(more@).take(i + 1));
        i = i + 1;
    }
    assert(tag_views(more@).take(i as int) =~= tag_views(more@));
}

/// Appends one tag to a list.
pub fn push_tag(list: &mut Vec<Tag>, tag: Tag)
    ensures
        tag_views(final(list)@) == tag_views(old(list)@).push(tag@),
{
    let ghost before = list@;
    list.push(tag);
    assert(tag_views(list@) =~= tag_views(before).push(tag@));
}

/// A copy of some tags.
pub fn clone_tags(tags: &Vec<Tag>) -> (r: Vec<Tag>)
    ensures
        tag_views(r@) == tag_views(tags@),
{
    let mut out: Vec<Tag> = Vec::new();
    append_tags(&mut out, tags);
    assert(tag_views(out@) =~= tag_views(tags@));
    out
}

} // verus!
