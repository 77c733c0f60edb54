//! Entities that are told apart by a random tag of 128 bits.

use vstd::prelude::*;

verus! {

/// The bits of a tag that say how it was made.
pub const LAYOUT_MASK: u128 = 0x0000_0000_0000_f000_c000_0000_0000_0000;

/// What those bits hold in a tag drawn at random: version 4, and the
/// variant of RFC 4122.
pub const RANDOM_LAYOUT: u128 = 0x0000_0000_0000_4000_8000_0000_0000_0000;

/// `tag` has the layout of a tag drawn at random.
pub open spec fn is_random_tag(tag: u128) -> bool {
    tag & LAYOUT_MASK == RANDOM_LAYOUT
}

/// An entity, known by its tag.
#[derive(Clone, Copy, Debug, PartialEq, Eq)]
pub struct Entity {
    tag: u128,
}

impl View for Entity {
    type V = u128;

    closed spec fn view(&self) -> u128 {
        self.tag
    }
}

/// Draws a tag at random, with `uuid::Uuid::new_v4`, and hands it out as
/// the number that `uuid::Uuid::as_u128` gives. Whatever is drawn, the bits
/// for version and variant are set to those of a random UUID: that much is
/// claimed here, and not proved. Where the system cannot supply random
/// bytes, the call stops the program.
#[verifier::external_body]
fn random_tag() -> (tag: u128)
    ensures
        is_random_tag(tag),
{
    uuid::Uuid::new_v4().as_u128()
}

/// A tag with the layout of a random one is not the nil tag, all zeros.
pub proof fn lemma_random_tag_not_nil(tag: u128)
    requires
        is_random_tag(tag),
    ensures
        tag != 0,
{
    assert(tag & 0x0000_0000_0000_f000_c000_0000_0000_0000
        == 0x0000_0000_0000_4000_8000_0000_0000_0000 ==> tag != 0) by (bit_vector);
}

impl Entity {
    /// The entity with the tag `tag`.
    pub fn with_tag(tag: u128) -> (e: Entity)
        ensures
            e@ == tag,
    {
        Entity { tag }
    }

    /// An entity with a tag drawn at random.
    fn new() -> (e: Entity)
        ensures
            is_random_tag(e@),
    {
        let uuid4 = random_tag();
        Entity::with_tag(uuid4)
    }

    /// The tag.
    pub fn tag(&self) -> (tag: u128)
        ensures
            tag == self@,
    {
        self.tag
    }

    /// Whether the tag is the nil tag, all zeros.
    pub fn is_nil(&self) -> (b: bool)
        ensures
            b == (self@ == 0),
    {
        self.tag == 0
    }
}

/// A new entity with a tag drawn at random. The tag is never the nil tag.
pub fn generate_entity() -> (e: Entity)
    ensures
        is_random_tag(e@),
        e@ != 0,
{
    let e = Entity::new();
    proof {
        lemma_random_tag_not_nil(e@);
    }
    e
}

} // verus!
