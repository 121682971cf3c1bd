//! Laws relating the store operations to one another.

use crate::record::RecordModel;
use crate::record::new_record_model;
use crate::record::url_of;
use crate::store::Store;
use crate::store::contains_name;
use crate::store::index_of_name;
use crate::store::lookup;
use vstd::prelude::*;

verus! {

/// Law (create then get): creating a fresh name appends the new record, and a
/// lookup of that name then finds exactly it — a record in the waiting state,
/// with size 0 and the URL derived from the name. Together with `add_user`'s
/// and `retrieve_user`'s contracts: create then get returns that record.
pub proof fn lemma_create_then_get(s: Seq<RecordModel>, name: Seq<char>)
    requires
        !contains_name(s, name),
    ensures
        lookup(s.push(new_record_model(name)), name) == Some(new_record_model(name)),
        new_record_model(name).status is Waiting,
        new_record_model(name).size == 0,
        new_record_model(name).url == url_of(name),
{
    let s1 = s.push(new_record_model(name));
    assert(s1[s.len() as int].name == name);
    assert(contains_name(s1, name));
    let j = index_of_name(s1, name);
    assert(0 <= j < s1.len() && s1[j].name == name);
    if j < s.len() {
        assert(s[j] == s1[j]);
        assert(false);
    }
}

/// Law (duplicate create): after a fresh name is created, that name is
/// present, and the record stored under it is the newly created one. By
/// `add_user`'s contract, a second create of the same name is therefore
/// refused with a conflict and leaves the store — in particular the first
/// record — unmodified.
pub proof fn lemma_duplicate_create(s: Seq<RecordModel>, name: Seq<char>)
    requires
        !contains_name(s, name),
    ensures
        contains_name(s.push(new_record_model(name)), name),
        lookup(s.push(new_record_model(name)), name) == Some(new_record_model(name)),
{
    lemma_create_then_get(s, name);
}

/// Law (derived URL): in a well-formed store, every record's URL is exactly
/// the configured base followed by the record's name. Every operation
/// preserves well-formedness and returns copies of stored records, so every
/// record any operation returns carries the derived URL.
pub proof fn lemma_profile_url_derived(s: &Store)
    requires
        s.wf(),
    ensures
        forall|i: int| 0 <= i < s@.len() ==> (#[trigger] s@[i]).url == url_of(s@[i].name),
{
}

} // verus!
