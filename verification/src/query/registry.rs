//! What the registry answers to a search, and which candidate is accepted.

use vstd::prelude::*;

verus! {

/// The organization of a candidate.
#[derive(Debug, Clone)]
pub struct RorOrganization {
    pub id: String,
}

/// One candidate of a search result.
#[derive(Debug, Clone)]
pub struct RorItem {
    /// Whether the registry flags this candidate as its choice.
    pub chosen: Option<bool>,
    pub organization: Option<RorOrganization>,
}

/// The decoded body of a successful search reply.
#[derive(Debug, Clone)]
pub struct RorResponse {
    pub items: Vec<RorItem>,
}

/// Whether the registry flags `item` as its choice.
pub open spec fn is_chosen(item: RorItem) -> bool {
    item.chosen == Some(true)
}

/// The identifier that a candidate carries, if any.
pub open spec fn organization_id(item: RorItem) -> Option<String> {
    match item.organization {
        Some(org) => Some(org.id),
        None => None,
    }
}

/// The accepted identifier among `items`: that of the first candidate the
/// registry flags as chosen. Later candidates are not looked at, even where
/// that first one carries no identifier.
pub open spec fn chosen(items: Seq<RorItem>) -> Option<String>
    decreases items.len(),
{
    if items.len() == 0 {
        None
    } else if is_chosen(items[0]) {
        organization_id(items[0])
    } else {
        chosen(items.skip(1))
    }
}

/// An accepted identifier always belongs to a candidate that the registry
/// flagged as chosen, and no candidate before that one is flagged.
pub proof fn lemma_chosen_is_flagged(items: Seq<RorItem>)
    requires
        chosen(items) is Some,
    ensures
        exists|i: int|
            0 <= i < items.len() && is_chosen(#[trigger] items[i]) && organization_id(items[i])
                == chosen(items) && forall|j: int| 0 <= j < i ==> !is_chosen(#[trigger] items[j]),
    decreases items.len(),
{
    if is_chosen(items[0]) {
        assert(is_chosen(items[0]) && organization_id(items[0]) == chosen(items));
    } else {
        let rest = items.skip(1);
        lemma_chosen_is_flagged(rest);
        let k = choose|i: int|
            0 <= i < rest.len() && is_chosen(#[trigger] rest[i]) && organization_id(rest[i])
                == chosen(rest) && forall|j: int| 0 <= j < i ==> !is_chosen(#[trigger] rest[j]);
        assert(items[k + 1] == rest[k]);
        assert forall|j: int| 0 <= j < k + 1 implies !is_chosen(#[trigger] items[j]) by {
            if j > 0 {
                assert(items[j] == rest[j - 1]);
            }
        }
        assert(is_chosen(items[k + 1]) && organization_id(items[k + 1]) == chosen(items));
    }
}

/// Without a flagged candidate nothing is accepted.
pub proof fn lemma_unflagged_is_no_match(items: Seq<RorItem>)
    requires
        forall|i: int| 0 <= i < items.len() ==> !is_chosen(#[trigger] items[i]),
    ensures
        chosen(items) is None,
    decreases items.len(),
{
    if items.len() > 0 {
        let rest = items.skip(1);
        assert forall|i: int| 0 <= i < rest.len() implies !is_chosen(#[trigger] rest[i]) by {
            assert(rest[i] == items[i + 1]);
        }
        lemma_unflagged_is_no_match(rest);
    }
}

/// Picks the accepted identifier among `items`.
pub fn pick_chosen(items: &Vec<RorItem>) -> (r: Option<String>)
    ensures
        r == chosen(items@),
{
    let mut i: usize = 0;
    assert(items@.skip(0) =~= items@);
    while i < items.len()
        invariant
            i <= items.len(),
            chosen(items@) == chosen(items@.skip(i as int)),
        decreases items.len() - i,
    {
        let ghost rest = items@.skip(i as int);
        assert(rest[0] == items@[i as int]);
        assert(rest.skip(1) =~= items@.skip(i as int + 1));
        let item = &items[i];
        if let Some(flag) = item.chosen {
            if flag {
                return match &item.organization {
                    Some(org) => Some(org.id.clone()),
                    None => None,
                };
            }
        }
        i = i + 1;
    }
    None
}

} // verus!
