//! The display names of the organizations in the registry's data dump.

use vstd::prelude::*;
use vstd::hash_map::StringHashMap;
use crate::text::{str_eq, views};

verus! {

/// One name of an organization, with the kinds of name that it is.
#[derive(Debug, Clone)]
pub struct RorName {
    pub value: String,
    pub types: Vec<String>,
}

/// One organization of the data dump.
#[derive(Debug, Clone)]
pub struct RorRecord {
    pub id: String,
    pub names: Vec<RorName>,
}

/// Whether `name` is marked as the name to display.
pub open spec fn is_display(name: RorName) -> bool {
    views(name.types@).contains("ror_display"@)
}

/// The first name among `names` that is marked as the name to display.
pub open spec fn first_display(names: Seq<RorName>) -> Option<RorName>
    decreases names.len(),
{
    if names.len() == 0 {
        None
    } else if is_display(names[0]) {
        Some(names[0])
    } else {
        first_display(names.skip(1))
    }
}

/// The name under which an organization is shown: the first one marked as
/// the name to display, else the first name of all.
pub open spec fn display_name_of(names: Seq<RorName>) -> Option<String> {
    match first_display(names) {
        Some(name) => Some(name.value),
        None => if names.len() > 0 {
            Some(names[0].value)
        } else {
            None
        },
    }
}

/// The display names of `records` by identifier. Of two records with one
/// identifier the later one counts; a record without names adds nothing.
pub open spec fn name_lookup(records: Seq<RorRecord>) -> Map<Seq<char>, String>
    decreases records.len(),
{
    if records.len() == 0 {
        Map::empty()
    } else {
        let before = name_lookup(records.drop_last());
        match display_name_of(records.last().names@) {
            Some(name) => before.insert(records.last().id@, name),
            None => before,
        }
    }
}

/// Whether `name` is marked as the name to display.
pub fn marked_display(name: &RorName) -> (r: bool)
    ensures
        r == is_display(*name),
{
    let mut i: usize = 0;
    while i < name.types.len()
        invariant
            i <= name.types.len(),
            forall|k: int| 0 <= k < i ==> name.types@[k]@ != "ror_display"@,
        decreases name.types.len() - i,
    {
        if str_eq(name.types[i].as_str(), "ror_display") {
            assert(views(name.types@)[i as int] == "ror_display"@);
            return true;
        }
        i = i + 1;
    }
    assert forall|k: int| 0 <= k < views(name.types@).len() implies views(name.types@)[k]
        != "ror_display"@ by {
        assert(views(name.types@)[k] == name.types@[k]@);
    }
    false
}

/// The name under which an organization with the names `names` is shown.
pub fn display_name(names: &Vec<RorName>) -> (r: Option<String>)
    ensures
        r == display_name_of(names@),
{
    let mut i: usize = 0;
    assert(names@.skip(0) =~= names@);
    while i < names.len()
        invariant
            i <= names.len(),
            first_display(names@) == first_display(names@.skip(i as int)),
        decreases names.len() - i,
    {
        let ghost rest = names@.skip(i as int);
        assert(rest[0] == names@[i as int]);
        assert(rest.skip(1) =~= names@.skip(i as int + 1));
        if marked_display(&names[i]) {
            return Some(names[i].value.clone());
        }
        i = i + 1;
    }
    if names.len() > 0 {
        Some(names[0].value.clone())
    } else {
        None
    }
}

/// Builds the lookup from identifier to display name.
pub fn load_ror_data(records: Vec<RorRecord>) -> (lookup: StringHashMap<String>)
    ensures
        lookup@ == name_lookup(records@),
{
    let mut lookup: StringHashMap<String> = StringHashMap::new();
    let mut i: usize = 0;
    assert(records@.take(0) =~= Seq::<RorRecord>::empty());
    while i < records.len()
        invariant
            i <= records.len(),
            lookup@ == name_lookup(records@.take(i as int)),
        decreases records.len() - i,
    {
        let ghost upto = records@.take(i as int + 1);
        assert(upto.drop_last() =~= records@.take(i as int));
        assert(upto.last() == records@[i as int]);
        if let Some(name) = display_name(&records[i].names) {
            lookup.insert(records[i].id.clone(), name);
        }
        i = i + 1;
    }
    assert(records@.take(records.len() as int) =~= records@);
    lookup
}

} // verus!
