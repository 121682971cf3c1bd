//! Tracking of streamer records: a record keyed by profile name, with a
//! profile URL derived from the name, a processing state, and a download
//! size. The library verifies the state model, the exact serialized form of
//! records and states, the validation of state-name queries, and the
//! check-then-act repository operations over a collection of records.

mod codec;
mod laws;
mod record;
mod state;
mod store;
mod text;

pub use codec::state_from_json;
pub use codec::state_label_string;
pub use codec::state_to_json;
pub use codec::streamer_to_json;
pub use codec::u64_to_dec;
pub use laws::lemma_create_then_get;
pub use laws::lemma_duplicate_create;
pub use laws::lemma_profile_url_derived;
pub use record::RecordModel;
pub use record::Streamer;
pub use record::StreamerUpdateMessage;
pub use record::bulk_updated;
pub use record::new_streamer;
pub use record::profile_url_for;
pub use record::updated_streamer;
pub use state::StateFilter;
pub use state::StreamerState;
pub use state::lemma_filter_tag_parses;
pub use state::parse_state_filter;
pub use state::state_satisfies_filter;
pub use store::HandlerError;
pub use store::Store;
pub use store::http_status_of;
pub use text::str_eq;
