//! Ingredient tag sets: one bit per elemental tag, with named groups used
//! by the kitchen processes to split and strip tags.

use vstd::prelude::*;

verus! {

/// The eight elemental ingredient tags.
#[derive(Debug, Clone, Copy, PartialEq, Eq, Structural)]
pub enum TagNames {
    Tropical,
    Life,
    Air,
    Earth,
    Water,
    Fire,
    Fibrous,
    Time,
}

/// The bit each tag occupies in a tag set.
pub open spec fn tag_bit(tag: TagNames) -> u8 {
    match tag {
        TagNames::Tropical => 0x01,
        TagNames::Life => 0x02,
        TagNames::Air => 0x04,
        TagNames::Earth => 0x08,
        TagNames::Water => 0x10,
        TagNames::Fire => 0x20,
        TagNames::Fibrous => 0x40,
        TagNames::Time => 0x80,
    }
}

/// Named families of tags that behave alike under the kitchen processes.
#[derive(Debug, Clone, Copy, PartialEq, Eq, Structural)]
pub enum TagGroups {
    Hot,
    Cold,
    Elemental,
    Light,
    Heavy,
    Volatile,
    Stable,
}

/// The tag bits each group covers.
pub open spec fn group_bits(group: TagGroups) -> u8 {
    match group {
        TagGroups::Hot => 0x21,
        TagGroups::Cold => 0x14,
        TagGroups::Elemental => 0x3c,
        TagGroups::Light => 0x24,
        TagGroups::Heavy => 0x08,
        TagGroups::Volatile => 0x27,
        TagGroups::Stable => 0xd8,
    }
}

/// Whether the tag's bit is set in the packed tag byte.
pub open spec fn spec_has_tag(v: u8, tag: TagNames) -> bool {
    v & tag_bit(tag) == tag_bit(tag)
}

/// The union of the bits of a list of tags.
pub open spec fn bits_of(tags: Seq<TagNames>) -> u8
    decreases tags.len(),
{
    if tags.len() == 0 {
        0u8
    } else {
        bits_of(tags.drop_last()) | tag_bit(tags.last())
    }
}

/// The tags of a packed byte, in canonical declaration order.
pub open spec fn tag_list(v: u8) -> Seq<TagNames> {
    all_tags().filter(|t: TagNames| spec_has_tag(v, t))
}

/// All eight tags in canonical declaration order.
pub open spec fn all_tags() -> Seq<TagNames> {
    seq![
        TagNames::Tropical,
        TagNames::Life,
        TagNames::Air,
        TagNames::Earth,
        TagNames::Water,
        TagNames::Fire,
        TagNames::Fibrous,
        TagNames::Time,
    ]
}

/// A set of ingredient tags, one bit per tag.
#[derive(Debug, Clone, Copy, PartialEq, Eq, Structural, Hash)]
pub struct Tags(pub u8);

impl Tags {
    fn bit(tag: TagNames) -> (b: u8)
        ensures
            b == tag_bit(tag),
    {
        match tag {
            TagNames::Tropical => 0x01,
            TagNames::Life => 0x02,
            TagNames::Air => 0x04,
            TagNames::Earth => 0x08,
            TagNames::Water => 0x10,
            TagNames::Fire => 0x20,
            TagNames::Fibrous => 0x40,
            TagNames::Time => 0x80,
        }
    }

    /// The empty tag set.
    pub fn empty() -> (t: Tags)
        ensures
            t.0 == 0,
    {
        Tags(0)
    }

    /// The set holding exactly the given tags.
    pub fn new(tags: &[TagNames]) -> (t: Tags)
        ensures
            t.0 == bits_of(tags@),
    {
        let mut acc: u8 = 0;
        let n = tags.len();
        let mut i: usize = 0;
        while i < n
            invariant
                n == tags@.len(),
                i <= n,
                acc == bits_of(tags@.take(i as int)),
            decreases n - i,
        {
            let tag = tags[i];
            acc = acc | Tags::bit(tag);
            proof {
                assert(tags@.take(i + 1int).drop_last() =~= tags@.take(i as int));
                assert(tags@.take(i + 1int).last() == tags@[i as int]);
            }
            i = i + 1;
        }
        proof {
            assert(tags@.take(n as int) =~= tags@);
        }
        Tags(acc)
    }

    /// The tags of this set, in canonical declaration order.
    pub fn get_tag_names(&self) -> (r: Vec<TagNames>)
        ensures
            r@ == tag_list(self.0),
    {
        let order = [
            TagNames::Tropical,
            TagNames::Life,
            TagNames::Air,
            TagNames::Earth,
            TagNames::Water,
            TagNames::Fire,
            TagNames::Fibrous,
            TagNames::Time,
        ];
        let mut has: Vec<TagNames> = Vec::new();
        let mut i: usize = 0;
        while i < 8
            invariant
                i <= 8,
                order@ =~= all_tags(),
                has@ == all_tags().take(i as int).filter(|t: TagNames| spec_has_tag(self.0, t)),
            decreases 8 - i,
        {
            let tag = order[i];
            if self.has_tag(tag) {
                has.push(tag);
            }
            proof {
                assert(all_tags().take(i + 1int).drop_last() =~= all_tags().take(i as int));
                assert(all_tags().take(i + 1int).last() == all_tags()[i as int]);
                reveal_with_fuel(Seq::filter, 2);
            }
            i = i + 1;
        }
        proof {
            assert(all_tags().take(8) =~= all_tags());
        }
        has
    }

    /// Whether the given tag is in the set.
    pub fn has_tag(self, tag: TagNames) -> (r: bool)
        ensures
            r == spec_has_tag(self.0, tag),
    {
        let b = Tags::bit(tag);
        self.0 & b == b
    }

    /// Whether every one of the given tags is in the set.
    pub fn has_all(self, tags: &[TagNames]) -> (r: bool)
        ensures
            r == (self.0 & bits_of(tags@) == bits_of(tags@)),
    {
        let target = Tags::new(tags);
        self.0 & target.0 == target.0
    }

    /// Whether at least one of the given tags is in the set.
    pub fn has_any(self, tags: &[TagNames]) -> (r: bool)
        ensures
            r == (self.0 & bits_of(tags@) > 0),
    {
        let target = Tags::new(tags);
        self.0 & target.0 > 0
    }

    /// How many tags the set holds.
    pub fn count(&self) -> (r: u32)
        ensures
            r == tag_count(self.0),
    {
        let v = self.0;
        ((v & 1) as u32) + (((v >> 1) & 1) as u32) + (((v >> 2) & 1) as u32) + (((v >> 3)
            & 1) as u32) + (((v >> 4) & 1) as u32) + (((v >> 5) & 1) as u32) + (((v >> 6)
            & 1) as u32) + (((v >> 7) & 1) as u32)
    }

    /// Put the given tag into the set.
    pub fn add_tag(&mut self, tag: TagNames)
        ensures
            final(self).0 == old(self).0 | tag_bit(tag),
    {
        self.0 = self.0 | Tags::bit(tag);
    }

    /// The subset of this set that lies in the given group.
    pub fn in_group(self, group: TagGroups) -> (r: Tags)
        ensures
            r.0 == self.0 & group_bits(group),
    {
        Tags(self.0 & Tags::group(group))
    }

    /// The subset of this set outside the given group.
    pub fn not_in_group(self, group: TagGroups) -> (r: Tags)
        ensures
            r.0 == self.0 & !group_bits(group),
    {
        Tags(self.0 & !Tags::group(group))
    }

    /// Take the given tag out of the set.
    pub fn remove_tag(&mut self, tag: TagNames)
        ensures
            final(self).0 == old(self).0 & !tag_bit(tag),
    {
        self.0 = self.0 & !Tags::bit(tag);
    }

    /// The set with the given tag added.
    pub fn with_tag(self, tag: TagNames) -> (r: Tags)
        ensures
            r.0 == self.0 | tag_bit(tag),
    {
        let mut t = self;
        t.add_tag(tag);
        t
    }

    fn group(group: TagGroups) -> (b: u8)
        ensures
            b == group_bits(group),
    {
        match group {
            TagGroups::Hot => 0x21,
            TagGroups::Cold => 0x14,
            TagGroups::Elemental => 0x3c,
            TagGroups::Light => 0x24,
            TagGroups::Heavy => 0x08,
            TagGroups::Volatile => 0x27,
            TagGroups::Stable => 0xd8,
        }
    }
}

/// How many bits of the packed tag byte are set.
pub open spec fn tag_count(v: u8) -> u32 {
    ((v & 1) + ((v >> 1) & 1) + ((v >> 2) & 1) + ((v >> 3) & 1) + ((v >> 4) & 1) + ((v >> 5) & 1) + (
    (v >> 6) & 1) + ((v >> 7) & 1)) as u32
}

} // verus!
