//! Maps with string keys.

use vstd::prelude::*;
use crate::string_map::StringMap;

verus! {

/// A value that is put into a map is found under its key, and other keys keep theirs. What the
/// key had before is handed back.
pub proof fn law_what_is_put_in_is_found<V: DeepView>(
    map: &mut StringMap<V>,
    key: String,
    value: V,
    before: &StringMap<V>,
    after: &StringMap<V>,
    sought: &str,
    r: Option<V>,
    had: Option<&V>,
    has: Option<&V>,
)
    requires
        call_ensures(StringMap::<V>::insert, (map, key, value), r),
        *before == *old(map),
        *after == *final(map),
        call_ensures(StringMap::<V>::get, (before, sought), had),
        call_ensures(StringMap::<V>::get, (after, sought), has),
    ensures
        sought@ == key@ ==> has is Some && (has->0).deep_view() == value.deep_view(),
        sought@ == key@ ==> (r is Some <==> had is Some),
        sought@ == key@ && r is Some ==> r->0.deep_view() == (had->0).deep_view(),
        sought@ != key@ ==> (has is Some <==> had is Some),
        sought@ != key@ && has is Some ==> (has->0).deep_view() == (had->0).deep_view(),
{
}

/// What is taken out of a map is gone, and is what was there; other keys keep theirs.
pub proof fn law_what_is_taken_out_is_gone<V: DeepView>(
    map: &mut StringMap<V>,
    key: &str,
    before: &StringMap<V>,
    after: &StringMap<V>,
    sought: &str,
    r: Option<V>,
    had: Option<&V>,
    has: Option<&V>,
    known: bool,
)
    requires
        call_ensures(StringMap::<V>::remove, (map, key), r),
        *before == *old(map),
        *after == *final(map),
        call_ensures(StringMap::<V>::get, (before, sought), had),
        call_ensures(StringMap::<V>::get, (after, sought), has),
        call_ensures(StringMap::<V>::contains_key, (after, sought), known),
    ensures
        sought@ == key@ ==> has is None,
        sought@ == key@ ==> (r is Some <==> had is Some),
        sought@ == key@ && r is Some ==> r->0.deep_view() == (had->0).deep_view(),
        sought@ != key@ ==> (has is Some <==> had is Some),
        sought@ != key@ && has is Some ==> (has->0).deep_view() == (had->0).deep_view(),
        known <==> has is Some,
{
}

/// A new map has nothing in it; a map lists each of its keys once, and counts them.
pub proof fn law_keys_are_listed_once<V: DeepView>(
    fresh: &StringMap<V>,
    map: &StringMap<V>,
    sought: &str,
    none: Option<&V>,
    has: Option<&V>,
    keys: Vec<String>,
    n: usize,
)
    requires
        call_ensures(StringMap::<V>::new, (), *fresh),
        call_ensures(StringMap::<V>::get, (fresh, sought), none),
        call_ensures(StringMap::<V>::get, (map, sought), has),
        call_ensures(StringMap::<V>::keys, (map,), keys),
        call_ensures(StringMap::<V>::len, (map,), n),
    ensures
        none is None,
        keys@.len() == n,
        keys.deep_view().no_duplicates(),
        keys.deep_view().contains(sought@) <==> has is Some,
{
    assert(keys.deep_view().len() == keys@.len());
    assert(keys.deep_view().to_set().contains(sought@) == keys.deep_view().contains(sought@));
}

} // verus!
