//! The calls into std and outside crates that the rules make, each with the
//! contract that its documentation or source gives.
use vstd::prelude::*;

verus! {

/// The Unicode lowercase mapping of a string, as `str::to_lowercase` computes it.
pub uninterp spec fn lowercase(s: Seq<char>) -> Seq<char>;

/// `str::to_lowercase`: the string with each character replaced by its
/// Unicode lowercase mapping; a function of the string alone.
#[verifier::external_body]
pub(crate) fn to_lowercase(s: &str) -> (r: String)
    ensures
        r@ == lowercase(s@),
{
    s.to_lowercase()
}

} // verus!

verus! {

/// `ahash::RandomState`, the randomly seeded hasher builder of ahash.
#[verifier::external_type_specification]
#[verifier::external_body]
pub struct ExRandomState(ahash::RandomState);

/// `ahash::AHashSet`, a hash set with randomly seeded hashing.
#[verifier::external_type_specification]
#[verifier::external_body]
#[verifier::reject_recursive_types(T)]
#[verifier::reject_recursive_types(S)]
pub struct ExAHashSet<T, S>(ahash::AHashSet<T, S>);

/// The elements of a set of supplier ids.
pub uninterp spec fn id_set_contents(s: ahash::AHashSet<i32>) -> Set<i32>;

/// `AHashSet::from_iter` over supplier ids: the set holds exactly the ids
/// of the list (it extends an empty `HashSet` with them).
#[verifier::external_body]
pub(crate) fn id_set_from(ids: &Vec<i32>) -> (s: ahash::AHashSet<i32>)
    ensures
        id_set_contents(s) == ids@.to_set(),
{
    ids.iter().copied().collect()
}

/// `AHashSet::contains` (through `Deref` to `HashSet`): whether the id is in
/// the set.
#[verifier::external_body]
pub(crate) fn id_set_contains(s: &ahash::AHashSet<i32>, id: i32) -> (b: bool)
    ensures
        b == id_set_contents(*s).contains(id),
{
    s.contains(&id)
}

/// `AHashSet::into_iter` (the set's `IntoIterator`) collected: every
/// element once, in an order that the set's random seed decides.
#[verifier::external_body]
pub(crate) fn id_set_elements(s: ahash::AHashSet<i32>) -> (r: Vec<i32>)
    ensures
        r@.no_duplicates(),
        r@.to_set() == id_set_contents(s),
{
    s.into_iter().collect()
}

} // verus!

verus! {

/// `ahash::AHashMap`, a hash map with randomly seeded hashing.
#[verifier::external_type_specification]
#[verifier::external_body]
#[verifier::reject_recursive_types(K)]
#[verifier::reject_recursive_types(V)]
#[verifier::reject_recursive_types(S)]
pub struct ExAHashMap<K, V, S>(ahash::AHashMap<K, V, S>);

/// The contents of a map from supplier ids to the uuids of their proposals.
pub uninterp spec fn proposal_map_contents(m: ahash::AHashMap<i32, Vec<u128>>) -> Map<i32, Seq<u128>>;

/// `AHashMap::new`: an empty map.
#[verifier::external_body]
pub(crate) fn proposal_map_new() -> (m: ahash::AHashMap<i32, Vec<u128>>)
    ensures
        proposal_map_contents(m).dom() == Set::<i32>::empty(),
{
    ahash::AHashMap::new()
}

/// `AHashMap::insert` (through `DerefMut` to `HashMap::insert`): afterwards
/// the supplier id maps to the uuids, whether it was there before or not;
/// the other entries stay.
#[verifier::external_body]
pub(crate) fn proposal_map_insert(m: &mut ahash::AHashMap<i32, Vec<u128>>, supplier_id: i32, uuids: Vec<u128>)
    ensures
        proposal_map_contents(*final(m)) == proposal_map_contents(*old(m)).insert(supplier_id, uuids@),
{
    m.insert(supplier_id, uuids);
}

/// `AHashMap::get`, the value cloned: the uuids stored for the supplier id.
#[verifier::external_body]
pub(crate) fn proposal_map_get(m: &ahash::AHashMap<i32, Vec<u128>>, supplier_id: i32) -> (r: Option<Vec<u128>>)
    ensures
        match r {
            Some(v) => proposal_map_contents(*m).contains_key(supplier_id) && v@ == proposal_map_contents(
                *m,
            )[supplier_id],
            None => !proposal_map_contents(*m).contains_key(supplier_id),
        },
{
    m.get(&supplier_id).cloned()
}

} // verus!

verus! {

/// The text that `uuid::Uuid`'s `Display` writes for a uuid (its hyphenated
/// lowercase form); a function of the value alone.
pub uninterp spec fn uuid_text(u: u128) -> Seq<char>;

/// `Uuid::from_u128(u).to_string()`.
#[verifier::external_body]
pub(crate) fn uuid_to_string(u: u128) -> (s: String)
    ensures
        s@ == uuid_text(u),
{
    uuid::Uuid::from_u128(u).to_string()
}

} // verus!

verus! {

/// The words of a string: its maximal runs of non-whitespace characters
/// (Unicode `White_Space`), in order, as `str::split_whitespace` yields them.
pub uninterp spec fn words(s: Seq<char>) -> Seq<Seq<char>>;

/// `str::split_whitespace`, each word copied into a `String`.
#[verifier::external_body]
pub(crate) fn split_words(s: &str) -> (r: Vec<String>)
    ensures
        r@.map_values(|w: String| w@) == words(s@),
{
    s.split_whitespace().map(|w| w.to_string()).collect()
}

} // verus!

verus! {

/// `uuid::Error`, the error of parsing a uuid.
#[verifier::external_type_specification]
#[verifier::external_body]
pub struct ExUuidError(uuid::Error);

/// The uuid that `Uuid::parse_str` reads from a text, if the text is one
/// (hyphenated, simple, braced or URN form); a function of the text alone.
pub uninterp spec fn parsed_uuid(s: Seq<char>) -> Option<u128>;

/// `Uuid::parse_str`, the uuid taken as its `u128` value.
#[verifier::external_body]
pub(crate) fn parse_uuid(s: &str) -> (r: Result<u128, uuid::Error>)
    ensures
        match r {
            Ok(u) => parsed_uuid(s@) == Some(u),
            Err(_) => parsed_uuid(s@) is None,
        },
{
    uuid::Uuid::parse_str(s).map(|u| u.as_u128())
}

/// `Uuid::new_v4`: a random uuid whose version field is 4 and whose variant
/// is RFC 4122 (the source masks a random `u128` and sets these bits).
#[verifier::external_body]
pub(crate) fn new_uuid() -> (u: u128)
    ensures
        (u >> 76u128) & 0xfu128 == 4,
        (u >> 62u128) & 0x3u128 == 2,
{
    uuid::Uuid::new_v4().as_u128()
}

} // verus!

verus! {

/// The contents of a map from uuids to positions in a list of records.
pub uninterp spec fn index_map_contents(m: ahash::AHashMap<u128, usize>) -> Map<u128, usize>;

/// `AHashMap::new`: an empty map.
#[verifier::external_body]
pub(crate) fn index_map_new() -> (m: ahash::AHashMap<u128, usize>)
    ensures
        index_map_contents(m).dom() == Set::<u128>::empty(),
{
    ahash::AHashMap::new()
}

/// `AHashMap::insert`: afterwards the key maps to the value, whether it was
/// there before or not; the other entries stay.
#[verifier::external_body]
pub(crate) fn index_map_insert(m: &mut ahash::AHashMap<u128, usize>, k: u128, v: usize)
    ensures
        index_map_contents(*final(m)) == index_map_contents(*old(m)).insert(k, v),
{
    m.insert(k, v);
}

/// `AHashMap::remove`: the value the key had, if it was there; afterwards
/// the key is gone and the other entries stay.
#[verifier::external_body]
pub(crate) fn index_map_remove(m: &mut ahash::AHashMap<u128, usize>, k: u128) -> (r: Option<usize>)
    ensures
        index_map_contents(*final(m)) == index_map_contents(*old(m)).remove(k),
        match r {
            Some(v) => index_map_contents(*old(m)).contains_key(k) && v == index_map_contents(*old(m))[k],
            None => !index_map_contents(*old(m)).contains_key(k),
        },
{
    m.remove(&k)
}

/// `HashMap::iter` (through `Deref`), each entry copied: every entry once,
/// in an order that the map's random seed decides.
#[verifier::external_body]
pub(crate) fn index_map_entries(m: &ahash::AHashMap<u128, usize>) -> (r: Vec<(u128, usize)>)
    ensures
        forall|i: int, j: int| 0 <= i < j < r@.len() ==> (#[trigger] r@[i]).0 != (#[trigger] r@[j]).0,
        forall|i: int|
            0 <= i < r@.len() ==> index_map_contents(*m).contains_key((#[trigger] r@[i]).0)
                && index_map_contents(*m)[r@[i].0] == r@[i].1,
        forall|k: u128|
            index_map_contents(*m).contains_key(k) ==> exists|i: int| 0 <= i < r@.len() && (#[trigger] r@[i]).0 == k,
{
    m.iter().map(|(k, v)| (*k, *v)).collect()
}

} // verus!
