//! The table from participant IDs to signaling connection IDs, a concurrent `DashMap`.
use vstd::prelude::*;
use dashmap::DashMap;

verus! {

#[verifier::external_type_specification]
#[verifier::external_body]
#[verifier::reject_recursive_types(K)]
#[verifier::reject_recursive_types(V)]
#[verifier::reject_recursive_types(S)]
pub struct ExDashMap<K, V, S>(dashmap::DashMap<K, V, S>);

/// The entries of a table from participant IDs to connection IDs, as text.
pub uninterp spec fn table_contents(m: DashMap<String, String>) -> Map<Seq<char>, Seq<char>>;

/// `DashMap::new`: an empty table.
#[verifier::external_body]
pub(crate) fn table_new() -> (r: DashMap<String, String>)
    ensures
        (table_contents(r) == Map::<Seq<char>, Seq<char>>::empty()),
{
    DashMap::new()
}

/// `DashMap::insert`: the key now maps to the value, in place of any value it had.
#[verifier::external_body]
pub(crate) fn table_insert(m: &mut DashMap<String, String>, key: String, value: String)
    ensures
        table_contents(*final(m)) == table_contents(*old(m)).insert(key@, value@),
{
    m.insert(key, value);
}

/// `DashMap::remove`: the key no longer maps to anything.
#[verifier::external_body]
pub(crate) fn table_remove(m: &mut DashMap<String, String>, key: &String)
    ensures
        table_contents(*final(m)) == table_contents(*old(m)).remove(key@),
{
    m.remove(key);
}

/// `DashMap::get`, with the value copied out: the key's value, if it has one.
#[verifier::external_body]
pub(crate) fn table_get(m: &DashMap<String, String>, key: &String) -> (r: Option<String>)
    ensures
        r is Some <==> table_contents(*m).dom().contains(key@),
        r matches Some(v) ==> v@ == table_contents(*m)[key@],
{
    m.get(key).map(|entry| entry.value().clone())
}

/// `DashMap::iter`, with each entry copied out: every entry once, in an order the source
/// leaves open.
#[verifier::external_body]
pub(crate) fn table_entries(m: &DashMap<String, String>) -> (r: Vec<(String, String)>)
    ensures
        forall|i: int| 0 <= i < r@.len() ==> #[trigger] table_contents(*m).dom().contains(r@[i].0@)
            && table_contents(*m)[r@[i].0@] == r@[i].1@,
        forall|k: Seq<char>| #[trigger] table_contents(*m).dom().contains(k) ==> exists|i: int| 0 <= i < r@.len()
            && r@[i].0@ == k,
{
    m.iter().map(|entry| (entry.key().clone(), entry.value().clone())).collect()
}

/// `DashMap::clear`: the table is empty.
#[verifier::external_body]
pub(crate) fn table_clear(m: &mut DashMap<String, String>)
    ensures
        (table_contents(*final(m)) == Map::<Seq<char>, Seq<char>>::empty()),
{
    m.clear();
}

/// A participant whose connection is `connection_id`, if any
pub(crate) fn owner_of(m: &DashMap<String, String>, connection_id: &String) -> (r: Option<String>)
    ensures
        r matches Some(k) ==> table_contents(*m).dom().contains(k@) && table_contents(*m)[k@] == connection_id@,
        r is None ==> forall|k: Seq<char>| table_contents(*m).dom().contains(k) ==> table_contents(*m)[k]
            != connection_id@,
{
    let entries = table_entries(m);
    let mut i: usize = 0;
    while i < entries.len()
        invariant
            i <= entries@.len(),
            forall|j: int| 0 <= j < entries@.len() ==> #[trigger] table_contents(*m).dom().contains(entries@[j].0@)
                && table_contents(*m)[entries@[j].0@] == entries@[j].1@,
            forall|j: int| 0 <= j < i ==> entries@[j].1@ != connection_id@,
        decreases entries@.len() - i,
    {
        if entries[i].1.eq(connection_id) {
            return Some(entries[i].0.clone());
        }
        i = i + 1;
    }
    proof {
        assert forall|k: Seq<char>| table_contents(*m).dom().contains(k) implies table_contents(*m)[k]
            != connection_id@ by {
            let j = choose|j: int| 0 <= j < entries@.len() && entries@[j].0@ == k;
            assert(table_contents(*m).dom().contains(entries@[j].0@));
        }
    }
    None
}

} // verus!
