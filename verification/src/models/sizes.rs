//! The per-size quantities of a garment line as a JSON object, such as
//! `{"L":3,"M":5}`: the form in which a record keeps them.

use crate::models::clothes::{ClothingSize, SizesMap};
use vstd::prelude::*;

verus! {

/// The members of the JSON object `text`, whose values are numbers that fit
/// 32 bits, in the order of their names; none where `text` is no such
/// object.
pub uninterp spec fn json_object_entries(text: Seq<char>) -> Option<Seq<(Seq<char>, u32)>>;

/// The JSON object with the members `entries`, where there is one.
pub uninterp spec fn json_object_text(entries: Seq<(Seq<char>, u32)>) -> Option<Seq<char>>;

/// `serde_json::from_str` at the type `BTreeMap<String, u32>`, whose
/// members are then listed in the map's order. What comes out is a function
/// of the text alone.
#[verifier::external_body]
pub(crate) fn json_object_parse(text: &str) -> (r: Option<Vec<(String, u32)>>)
    ensures
        match r {
            Some(entries) => json_object_entries(text@) == Some(entries.deep_view()),
            None => json_object_entries(text@) is None,
        },
{
    match serde_json::from_str::<std::collections::BTreeMap<String, u32>>(text) {
        Ok(members) => Some(members.into_iter().collect()),
        Err(_) => None,
    }
}

/// `serde_json::to_string` on a `BTreeMap<String, u32>` collected from
/// `entries`. What comes out is a function of the entries alone.
#[verifier::external_body]
pub(crate) fn json_object_format(entries: &Vec<(String, u32)>) -> (r: Option<String>)
    ensures
        match r {
            Some(text) => json_object_text(entries.deep_view()) == Some(text@),
            None => json_object_text(entries.deep_view()) is None,
        },
{
    let members: std::collections::BTreeMap<String, u32> = entries.iter().cloned().collect();
    serde_json::to_string(&members).ok()
}

/// The member that an entry of a size becomes: none where there is no
/// entry.
pub open spec fn member(size: ClothingSize, entry: Option<u32>) -> Seq<(Seq<char>, u32)> {
    match entry {
        Some(count) => seq![(size.label(), count)],
        None => Seq::empty(),
    }
}

/// The members that stand for `sizes`, one for each size with an entry.
pub open spec fn sizes_members(sizes: SizesMap) -> Seq<(Seq<char>, u32)> {
    member(ClothingSize::S, sizes.s) + member(ClothingSize::M, sizes.m) + member(
        ClothingSize::L,
        sizes.l,
    ) + member(ClothingSize::XL, sizes.xl) + member(ClothingSize::XXL, sizes.xxl) + member(
        ClothingSize::XXXL,
        sizes.xxxl,
    )
}

/// The quantities that `members` stand for: each member names a size; a
/// later member of a size replaces an earlier one. None where a name is not
/// a size.
pub open spec fn sizes_of_members(members: Seq<(Seq<char>, u32)>) -> Option<SizesMap>
    decreases members.len(),
{
    if members.len() == 0 {
        Some(SizesMap::empty())
    } else {
        match sizes_of_members(members.drop_last()) {
            Some(sizes) => match ClothingSize::named(members.last().0) {
                Some(size) => Some(sizes.with(size, members.last().1)),
                None => None,
            },
            None => None,
        }
    }
}

/// The quantities that the text stands for: those of the members of the
/// JSON object that it is.
pub open spec fn sizes_of_text(text: Seq<char>) -> Option<SizesMap> {
    match json_object_entries(text) {
        Some(members) => sizes_of_members(members),
        None => None,
    }
}

/// The text of quantities that reads back as those quantities: the JSON
/// object of their members, where there is one and it stands for the
/// quantities.
pub open spec fn sizes_text(sizes: SizesMap) -> Option<Seq<char>> {
    match json_object_text(sizes_members(sizes)) {
        Some(text) => if sizes_of_text(text) == Some(sizes) {
            Some(text)
        } else {
            None
        },
        None => None,
    }
}

/// Adds the member of `size` to `members`, where the size has an entry.
fn push_member(members: &mut Vec<(String, u32)>, size: ClothingSize, entry: Option<u32>)
    ensures
        final(members).deep_view() == old(members).deep_view() + member(size, entry),
{
    match entry {
        Some(count) => {
            members.push((size.to_label(), count));
            assert(members.deep_view() =~= old(members).deep_view() + member(size, entry));
        },
        None => {
            assert(members.deep_view() =~= old(members).deep_view() + member(size, entry));
        },
    }
}

impl SizesMap {
    /// The members that stand for these quantities.
    pub fn members(&self) -> (members: Vec<(String, u32)>)
        ensures
            members.deep_view() == sizes_members(*self),
    {
        let mut members: Vec<(String, u32)> = Vec::new();
        assert(members.deep_view() =~= Seq::<(Seq<char>, u32)>::empty());
        push_member(&mut members, ClothingSize::S, self.s);
        push_member(&mut members, ClothingSize::M, self.m);
        push_member(&mut members, ClothingSize::L, self.l);
        push_member(&mut members, ClothingSize::XL, self.xl);
        push_member(&mut members, ClothingSize::XXL, self.xxl);
        push_member(&mut members, ClothingSize::XXXL, self.xxxl);
        assert(members.deep_view() =~= sizes_members(*self));
        members
    }

    /// The quantities that `members` stand for.
    pub fn from_members(members: &Vec<(String, u32)>) -> (sizes: Option<SizesMap>)
        ensures
            sizes == sizes_of_members(members.deep_view()),
    {
        let mut sizes = SizesMap::new();
        let mut i: usize = 0;
        let ghost all = members.deep_view();
        assert(all.take(0) =~= Seq::<(Seq<char>, u32)>::empty());
        while i < members.len()
            invariant
                i <= members.len(),
                all == members.deep_view(),
                all.len() == members.len(),
                sizes_of_members(all.take(i as int)) == Some(sizes),
            decreases members.len() - i,
        {
            proof {
                assert(all.take(i + 1).drop_last() =~= all.take(i as int));
                assert(all.take(i + 1).last() == all[i as int]);
                assert(all[i as int] == (members[i as int].0@, members[i as int].1));
            }
            match ClothingSize::from_label(&members[i].0) {
                Some(size) => {
                    sizes.insert(size, members[i].1);
                },
                None => {
                    proof {
                        lemma_unnamed_member(all, i as int);
                    }
                    return None;
                },
            }
            i += 1;
        }
        assert(all.take(members.len() as int) =~= all);
        Some(sizes)
    }

    /// These quantities as a JSON object. The text is read back before it
    /// is handed out, so `from_json` gives the same quantities for it.
    pub fn to_json(&self) -> (text: Option<String>)
        ensures
            match text {
                Some(t) => sizes_text(*self) == Some(t@),
                None => sizes_text(*self) is None,
            },
    {
        let members = self.members();
        match json_object_format(&members) {
            Some(text) => match SizesMap::from_json(text.as_str()) {
                Some(back) => if back == *self {
                    Some(text)
                } else {
                    None
                },
                None => None,
            },
            None => None,
        }
    }

    /// The quantities that the JSON object `text` stands for.
    pub fn from_json(text: &str) -> (sizes: Option<SizesMap>)
        ensures
            sizes == sizes_of_text(text@),
    {
        match json_object_parse(text) {
            Some(members) => SizesMap::from_members(&members),
            None => None,
        }
    }
}

/// Members stand for no quantities once one of them names no size.
proof fn lemma_unnamed_member(members: Seq<(Seq<char>, u32)>, at: int)
    requires
        0 <= at < members.len(),
        ClothingSize::named(members[at].0) is None,
    ensures
        sizes_of_members(members) is None,
    decreases members.len(),
{
    if at < members.len() - 1 {
        lemma_unnamed_member(members.drop_last(), at);
    }
}

} // verus!
