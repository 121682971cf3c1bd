//! The streamer record: its fields, its mathematical model, and the builders
//! that derive the profile URL from the profile name.

use crate::state::StreamerState;
use vstd::prelude::*;
use vstd::string::StringExecFns;

verus! {

/// One streamer's tracked metadata, keyed by `profile_name`.
#[derive(Debug)]
pub struct Streamer {
    pub profile_url: String,
    pub profile_name: String,
    pub profile_status: StreamerState,
    pub download_size_mb: u64,
}

/// The body shape shared by the single-record and bulk update operations.
#[derive(Debug)]
pub struct StreamerUpdateMessage {
    pub profile_status: StreamerState,
    pub download_size_mb: u64,
}

/// The mathematical model of a record.
#[verifier::ext_equal]
pub ghost struct RecordModel {
    pub url: Seq<char>,
    pub name: Seq<char>,
    pub status: StreamerState,
    pub size: nat,
}

impl View for Streamer {
    type V = RecordModel;

    open spec fn view(&self) -> RecordModel {
        RecordModel {
            url: self.profile_url@,
            name: self.profile_name@,
            status: self.profile_status,
            size: self.download_size_mb as nat,
        }
    }
}

/// The profile URL derived from a profile name: the configured base followed
/// by the name.
pub open spec fn url_of(name: Seq<char>) -> Seq<char> {
    "https://chaturbate.com/"@ + name
}

/// The model of a record with the given name, status and size, and the URL
/// derived from the name.
pub open spec fn record_model(name: Seq<char>, status: StreamerState, size: nat) -> RecordModel {
    RecordModel { url: url_of(name), name: name, status: status, size: size }
}

/// The model of a freshly created record: waiting, with size 0.
pub open spec fn new_record_model(name: Seq<char>) -> RecordModel {
    record_model(name, StreamerState::Waiting, 0)
}

/// The model of a record after a bulk transition: name and URL kept, the
/// given status applied, and the size reset to 0.
pub open spec fn bulk_updated_model(m: RecordModel, status: StreamerState) -> RecordModel {
    RecordModel { url: m.url, name: m.name, status: status, size: 0 }
}

/// Builds the profile URL for a name.
pub fn profile_url_for(name: &str) -> (r: String)
    ensures
        r@ == url_of(name@),
{
    let mut url = String::from_str("https://chaturbate.com/");
    url.append(name);
    url
}

/// Builds the record created for a new name: waiting, size 0, derived URL.
pub fn new_streamer(name: &str) -> (r: Streamer)
    ensures
        r@ == new_record_model(name@),
{
    let rec = Streamer {
        profile_url: profile_url_for(name),
        profile_name: String::from_str(name),
        profile_status: StreamerState::Waiting,
        download_size_mb: 0,
    };
    proof {
        assert(rec@ =~= new_record_model(name@));
    }
    rec
}

/// Builds the replacement record for a single-record update: the URL is
/// re-derived from the name, and status and size come from the request body.
pub fn updated_streamer(name: &str, status: StreamerState, size: u64) -> (r: Streamer)
    ensures
        r@ == record_model(name@, status, size as nat),
{
    let rec = Streamer {
        profile_url: profile_url_for(name),
        profile_name: String::from_str(name),
        profile_status: status,
        download_size_mb: size,
    };
    proof {
        assert(rec@ =~= record_model(name@, status, size as nat));
    }
    rec
}

/// Builds the replacement record for one step of a bulk transition: name and
/// URL are copied from the existing record, the status is applied, and the
/// size is reset to 0.
pub fn bulk_updated(rec: &Streamer, status: StreamerState) -> (r: Streamer)
    ensures
        r@ == bulk_updated_model(rec@, status),
{
    let out = Streamer {
        profile_url: rec.profile_url.clone(),
        profile_name: rec.profile_name.clone(),
        profile_status: status,
        download_size_mb: 0,
    };
    proof {
        assert(out@ =~= bulk_updated_model(rec@, status));
    }
    out
}

impl Streamer {
    /// A field-for-field copy of the record.
    pub fn duplicate(&self) -> (r: Streamer)
        ensures
            r@ == self@,
    {
        let rec = Streamer {
            profile_url: self.profile_url.clone(),
            profile_name: self.profile_name.clone(),
            profile_status: self.profile_status,
            download_size_mb: self.download_size_mb,
        };
        proof {
            assert(rec@ =~= self@);
        }
        rec
    }
}

} // verus!
