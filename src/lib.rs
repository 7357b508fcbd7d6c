//! Hash-join probing over a pre-built multi-map from keys to build-side rows,
//! together with the byte-range keys, string hash functions, buffered-reader
//! state and table option keys it is used with.

pub mod buffer_reader;
pub mod hash_functions;
pub mod join;
pub mod keys_ref;
pub mod stage;
pub mod table_option_keys;
