//! Helpers for Holochain zome development: conversions between link tags,
//! path components, anchors, hashes and timestamps, and the decisions that
//! the zome helpers take on what the conductor hands back.
pub mod types;
pub mod error;
pub mod conversions;
pub mod conversions_tag;
pub mod debug;
pub mod links;
pub mod get;
pub mod query;
pub mod utils;

pub use types::{LinkTag, Component, Path, HoloHash, Timestamp};
pub use error::{ZomeUtilsError, decimal_u8};
pub use conversions::{str2tag, tag2str, comp2hash, hash2comp, path2anchor, compTag2str, compTag2tag};
pub use conversions_tag::{hash2tag, tag2hash, tag2Ts, ts2Tag};
pub use debug::{CallContext, snip, context_message, error_message, panic_message};
pub use links::{LinkableKind, DhtKind, AnyLinkableHash, AnyDhtHash, GetStrategy, GetInput, Link, ItemLink, into_dht_hash, links_to_GetInputs, itemlinks_from_links, typed_link_pairs, typed_action_link_tuples};
pub use get::{EntryOrRecord, LatestEntryStep, latest_entry_step, RecordEntry, AppEntryDef, EntryType, EntryKind, ActionType, EntryDefId, ActionRef, EntryDetailsView, DetailsView, LatestRecordStep, record_found, present_entry, entry_hash_found, entry_type_found, app_entry_def, defined_in_other_zome, app_entry_name, entry_type_of, linkable_type_name, last_latest_index, first_latest_index, first_latest_update, last_latest_update, latest_action_of_entry, reported_action, latest_record_step};
pub use query::{typed_creates, single_record, bytes_equal, position_of_action};
pub use utils::{seconds_since_epoch, first_match_index, zome_index_of, variant_at};
