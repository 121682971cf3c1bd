//! The collection of streamer records and the request operations over it:
//! full and filtered scans, point lookup, and the check-then-act create,
//! update, delete and bulk-update operations.

use crate::record::RecordModel;
use crate::record::Streamer;
use crate::record::StreamerUpdateMessage;
use crate::record::bulk_updated;
use crate::record::bulk_updated_model;
use crate::record::new_record_model;
use crate::record::new_streamer;
use crate::record::record_model;
use crate::record::updated_streamer;
use crate::record::url_of;
use crate::codec::state_label;
use crate::codec::state_label_string;
use crate::state::StateFilter;
use crate::state::StreamerState;
use crate::state::filter_matches;
use crate::state::parse_state_filter;
use crate::state::spec_parse_state_filter;
use crate::state::state_satisfies_filter;
use crate::text::str_eq;
use vstd::prelude::*;
use vstd::string::StringExecFns;

verus! {

/// The outcome kinds an operation can fail with. `StoreUnavailable` stands
/// for an underlying read or write failure of a remote backing store; the
/// in-memory collection never produces it.
#[derive(Clone, Copy, PartialEq, Eq, Structural, Debug)]
pub enum HandlerError {
    InvalidArgument,
    Conflict,
    NotFound,
    StoreUnavailable,
}

/// The HTTP status each error kind maps to at the transport boundary.
pub fn http_status_of(e: HandlerError) -> (r: u16)
    ensures
        e is InvalidArgument ==> r == 400,
        e is Conflict ==> r == 409,
        e is NotFound ==> r == 404,
        e is StoreUnavailable ==> r == 500,
{
    match e {
        HandlerError::InvalidArgument => 400,
        HandlerError::Conflict => 409,
        HandlerError::NotFound => 404,
        HandlerError::StoreUnavailable => 500,
    }
}

/// Whether some record in `s` has the given name.
pub open spec fn contains_name(s: Seq<RecordModel>, name: Seq<char>) -> bool {
    exists|i: int| 0 <= i < s.len() && (#[trigger] s[i]).name == name
}

/// The index of the record with the given name, when one exists.
pub open spec fn index_of_name(s: Seq<RecordModel>, name: Seq<char>) -> int {
    choose|i: int| 0 <= i < s.len() && (#[trigger] s[i]).name == name
}

/// The record with the given name, if any.
pub open spec fn lookup(s: Seq<RecordModel>, name: Seq<char>) -> Option<RecordModel> {
    if contains_name(s, name) {
        Some(s[index_of_name(s, name)])
    } else {
        None
    }
}

/// No two records share a name.
pub open spec fn unique_names(s: Seq<RecordModel>) -> bool {
    forall|i: int, j: int|
        0 <= i < s.len() && 0 <= j < s.len() && i != j ==> (#[trigger] s[i]).name != (
        #[trigger] s[j]).name
}

/// With unique names, a record found at index `i` is the looked-up record.
pub proof fn lemma_lookup_at(s: Seq<RecordModel>, name: Seq<char>, i: int)
    requires
        unique_names(s),
        0 <= i < s.len(),
        s[i].name == name,
    ensures
        index_of_name(s, name) == i,
        lookup(s, name) == Some(s[i]),
{
    assert(contains_name(s, name));
    let j = index_of_name(s, name);
    assert(0 <= j < s.len() && s[j].name == name);
}

/// The collection of streamer records.
pub struct Store {
    records: Vec<Streamer>,
}

impl View for Store {
    type V = Seq<RecordModel>;

    closed spec fn view(&self) -> Seq<RecordModel> {
        self.records@.map_values(|r: Streamer| r@)
    }
}

impl Store {
    /// Every record's URL is derived from its name, and names are unique.
    pub open spec fn wf(&self) -> bool {
        &&& unique_names(self@)
        &&& forall|i: int|
            0 <= i < self@.len() ==> (#[trigger] self@[i]).url == url_of(self@[i].name)
    }

    /// An empty collection.
    pub fn new() -> (r: Store)
        ensures
            r.wf(),
            r@ == Seq::<RecordModel>::empty(),
    {
        let s = Store { records: Vec::new() };
        proof {
            assert(s@ =~= Seq::<RecordModel>::empty());
        }
        s
    }

    /// The number of records.
    pub fn len(&self) -> (r: usize)
        ensures
            r == self@.len(),
    {
        self.records.len()
    }

    /// The index of the record with the given name, or `None` if no record
    /// has it.
    fn find_index(&self, name: &str) -> (r: Option<usize>)
        ensures
            match r {
                Some(i) => 0 <= i < self@.len() && self@[i as int].name == name@,
                None => !contains_name(self@, name@),
            },
    {
        let n = self.records.len();
        let mut i: usize = 0;
        while i < n
            invariant
                n == self.records.len(),
                i <= n,
                forall|j: int| 0 <= j < i ==> (#[trigger] self@[j]).name != name@,
            decreases n - i,
        {
            if str_eq(self.records[i].profile_name.as_str(), name) {
                return Some(i);
            }
            i = i + 1;
        }
        None
    }

    /// Full scan: a copy of every record, in storage order.
    pub fn retrieve_users(&self) -> (r: Vec<Streamer>)
        ensures
            r@.len() == self@.len(),
            forall|i: int| 0 <= i < self@.len() ==> (#[trigger] r@[i])@ == self@[i],
    {
        let n = self.records.len();
        let mut out: Vec<Streamer> = Vec::new();
        let mut i: usize = 0;
        while i < n
            invariant
                n == self.records.len(),
                i <= n,
                out@.len() == i,
                forall|j: int| 0 <= j < i ==> (#[trigger] out@[j])@ == self@[j],
            decreases n - i,
        {
            out.push(self.records[i].duplicate());
            i = i + 1;
        }
        out
    }

    /// Filtered scan: validates the state name, then returns a copy of every
    /// record the filter selects, in storage order. An unrecognized state
    /// name is rejected before the collection is read.
    pub fn retrieve_stateful_users(&self, state: &str) -> (r: Result<Vec<Streamer>, HandlerError>)
        ensures
            match spec_parse_state_filter(state@) {
                Some(f) => r matches Ok(v) && v@.map_values(|x: Streamer| x@) == self@.filter(
                    |m: RecordModel| filter_matches(f, m.status),
                ),
                None => r matches Err(e) && e is InvalidArgument,
            },
    {
        let f = match parse_state_filter(state) {
            Some(f) => f,
            None => {
                return Err(HandlerError::InvalidArgument);
            },
        };
        let ghost pred = |m: RecordModel| filter_matches(f, m.status);
        let n = self.records.len();
        let mut out: Vec<Streamer> = Vec::new();
        let mut i: usize = 0;
        proof {
            assert(self@.subrange(0, 0).filter(pred) =~= Seq::<RecordModel>::empty());
            assert(out@.map_values(|x: Streamer| x@) =~= Seq::<RecordModel>::empty());
        }
        while i < n
            invariant
                n == self.records.len(),
                i <= n,
                out@.map_values(|x: Streamer| x@) == self@.subrange(0, i as int).filter(pred),
                pred == (|m: RecordModel| filter_matches(f, m.status)),
            decreases n - i,
        {
            let ghost prev = out@.map_values(|x: Streamer| x@);
            let rec = &self.records[i];
            proof {
                assert(self@[i as int] == self.records@[i as int]@);
            }
            let selected = state_satisfies_filter(f, rec.profile_status);
            if selected {
                out.push(rec.duplicate());
            }
            proof {
                reveal_with_fuel(Seq::<_>::filter, 2);
                let sub1 = self@.subrange(0, i as int + 1);
                assert(sub1.drop_last() =~= self@.subrange(0, i as int));
                assert(sub1.last() == self@[i as int]);
                if selected {
                    assert(sub1.filter(pred) == sub1.drop_last().filter(pred).push(
                        self@[i as int],
                    ));
                    assert(out@.map_values(|x: Streamer| x@) =~= prev.push(self@[i as int]));
                } else {
                    assert(sub1.filter(pred) == sub1.drop_last().filter(pred));
                }
            }
            i = i + 1;
        }
        proof {
            assert(self@.subrange(0, n as int) =~= self@);
        }
        Ok(out)
    }

    /// Point lookup: a copy of the record with the given name, or `NotFound`.
    pub fn retrieve_user(&self, name: &str) -> (r: Result<Streamer, HandlerError>)
        requires
            self.wf(),
        ensures
            match lookup(self@, name@) {
                Some(m) => r matches Ok(rec) && rec@ == m,
                None => r matches Err(e) && e is NotFound,
            },
    {
        match self.find_index(name) {
            Some(i) => {
                proof {
                    lemma_lookup_at(self@, name@, i as int);
                }
                Ok(self.records[i].duplicate())
            },
            None => Err(HandlerError::NotFound),
        }
    }

    /// Create: refused with `Conflict` if the name is already present, else
    /// the new record (waiting, size 0, derived URL) is appended and its
    /// initial state returned.
    pub fn add_user(&mut self, name: &str) -> (r: Result<StreamerState, HandlerError>)
        requires
            old(self).wf(),
        ensures
            final(self).wf(),
            if contains_name(old(self)@, name@) {
                r matches Err(e) && e is Conflict && final(self)@ == old(self)@
            } else {
                r matches Ok(st) && st is Waiting && final(self)@ == old(self)@.push(
                    new_record_model(name@),
                )
            },
    {
        match self.find_index(name) {
            Some(_) => Err(HandlerError::Conflict),
            None => {
                let rec = new_streamer(name);
                self.records.push(rec);
                proof {
                    assert(self@ =~= old(self)@.push(new_record_model(name@)));
                    assert(self.wf()) by {
                        let s1 = self@;
                        let s0 = old(self)@;
                        assert forall|i: int, j: int|
                            0 <= i < s1.len() && 0 <= j < s1.len() && i != j implies (
                        #[trigger] s1[i]).name != (#[trigger] s1[j]).name by {
                            if i < s0.len() && j < s0.len() {
                                assert(s0[i].name != s0[j].name);
                            } else if i < s0.len() {
                                assert(s0[i].name != name@);
                            } else {
                                assert(s0[j].name != name@);
                            }
                        }
                    }
                }
                Ok(StreamerState::Waiting)
            },
        }
    }

    /// Delete: refused with `NotFound` if the name is absent, else the record
    /// is removed and a confirmation string returned.
    pub fn delete_user(&mut self, name: &str) -> (r: Result<String, HandlerError>)
        requires
            old(self).wf(),
        ensures
            final(self).wf(),
            if contains_name(old(self)@, name@) {
                r matches Ok(msg) && msg@ == "Deleted "@ + name@ && final(self)@ == old(
                    self,
                )@.remove(index_of_name(old(self)@, name@))
            } else {
                r matches Err(e) && e is NotFound && final(self)@ == old(self)@
            },
    {
        match self.find_index(name) {
            Some(i) => {
                proof {
                    lemma_lookup_at(self@, name@, i as int);
                }
                self.records.remove(i);
                let mut msg = String::from_str("Deleted ");
                msg.append(name);
                proof {
                    assert(self@ =~= old(self)@.remove(i as int));
                }
                Ok(msg)
            },
            None => Err(HandlerError::NotFound),
        }
    }

    /// Single-record update: refused with `NotFound` if the name is absent,
    /// else the whole record is replaced in place with the body's status and
    /// size, the URL re-derived from the name, and a confirmation returned.
    pub fn mutate_user(&mut self, name: &str, update: &StreamerUpdateMessage) -> (r: Result<
        String,
        HandlerError,
    >)
        requires
            old(self).wf(),
        ensures
            final(self).wf(),
            if contains_name(old(self)@, name@) {
                r matches Ok(msg) && msg@ == "Updated "@ + name@ + " to "@ + state_label(
                    update.profile_status,
                ) && final(self)@ == old(self)@.update(
                    index_of_name(old(self)@, name@),
                    record_model(name@, update.profile_status, update.download_size_mb as nat),
                )
            } else {
                r matches Err(e) && e is NotFound && final(self)@ == old(self)@
            },
    {
        match self.find_index(name) {
            Some(i) => {
                proof {
                    lemma_lookup_at(self@, name@, i as int);
                }
                let rec = updated_streamer(name, update.profile_status, update.download_size_mb);
                let slot = &mut self.records[i];
                *slot = rec;
                let mut msg = String::from_str("Updated ");
                msg.append(name);
                msg.append(" to ");
                let label = state_label_string(update.profile_status);
                msg.append(label.as_str());
                proof {
                    let m = record_model(
                        name@,
                        update.profile_status,
                        update.download_size_mb as nat,
                    );
                    assert(self@ =~= old(self)@.update(i as int, m));
                    assert(self.wf()) by {
                        let s1 = self@;
                        let s0 = old(self)@;
                        assert(forall|k: int|
                            0 <= k < s1.len() ==> (#[trigger] s1[k]).name == s0[k].name);
                    }
                }
                Ok(msg)
            },
            None => Err(HandlerError::NotFound),
        }
    }

    /// Bulk update: every record's status is set to the given state and its
    /// size reset to 0; names and URLs are unchanged. Applied record by
    /// record, in storage order.
    pub fn mutate_all_users(&mut self, status: StreamerState) -> (r: String)
        requires
            old(self).wf(),
        ensures
            final(self).wf(),
            final(self)@.len() == old(self)@.len(),
            forall|i: int|
                0 <= i < old(self)@.len() ==> final(self)@[i] == bulk_updated_model(
                    old(self)@[i],
                    status,
                ),
            r@ == "successfully updated all users' state"@,
    {
        let n = self.records.len();
        let mut i: usize = 0;
        while i < n
            invariant
                n == self.records.len(),
                i <= n,
                self@.len() == old(self)@.len(),
                forall|j: int|
                    0 <= j < i ==> #[trigger] self@[j] == bulk_updated_model(old(self)@[j], status),
                forall|j: int| i <= j < n ==> #[trigger] self@[j] == old(self)@[j],
            decreases n - i,
        {
            let ghost prev = self@;
            proof {
                assert(self@[i as int] == self.records@[i as int]@);
            }
            let updated = bulk_updated(&self.records[i], status);
            proof {
                assert(updated@ == bulk_updated_model(old(self)@[i as int], status));
            }
            let slot = &mut self.records[i];
            *slot = updated;
            proof {
                assert(self@ =~= prev.update(i as int, updated@));
            }
            i = i + 1;
        }
        proof {
            assert(self.wf()) by {
                let s1 = self@;
                let s0 = old(self)@;
                assert(forall|k: int| 0 <= k < s1.len() ==> (#[trigger] s1[k]).name == s0[k].name);
                assert(forall|k: int| 0 <= k < s1.len() ==> (#[trigger] s1[k]).url == s0[k].url);
            }
        }
        String::from_str("successfully updated all users' state")
    }
}

} // verus!
