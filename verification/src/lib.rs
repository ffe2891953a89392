//! Encrypt or decrypt a file or directory with a locally held age key pair,
//! archiving and compressing directories so that a directory becomes one
//! encrypted blob and reverses cleanly.
//!
//! The library holds the verified core: action classification, output naming
//! and overwrite protection, the archive codec over an in-memory directory
//! model, and the byte-level crypto pipelines. Calls into age, flate2, tar
//! and chrono stand behind small trusted wrappers whose contracts state what
//! those crates' sources show; everything around them is proved.

pub mod action;
pub mod archive;
pub mod crypto;
pub mod errors;
pub mod naming;
pub mod pipeline;
pub mod strutil;

pub use action::Action;
pub use action::resolve;
pub use action::resolve_action;
pub use archive::FileEntry;
pub use archive::is_safe_entry_path;
pub use archive::pack_entries;
pub use archive::pack_unpack_round_trip;
pub use archive::unpack_entries;
pub use archive::DIRECTORY;
pub use archive::REGULAR_FILE;
pub use crypto::Identity;
pub use crypto::PublicKey;
pub use crypto::decrypt_bytes;
pub use crypto::encrypt_bytes;
pub use crypto::encrypt_decrypt_round_trip;
pub use crypto::read_key_from_text;
pub use errors::BottleError;
pub use naming::compose_path_for_temp_tar_file;
pub use naming::compute_output_name;
pub use naming::determine_output_file_name;
pub use naming::has_base_name;
pub use naming::parse_output_name;
pub use pipeline::authorize_write;
pub use pipeline::decrypt_dir;
pub use pipeline::encrypt_dir;
pub use pipeline::encrypt_dir_decrypt_dir_round_trip;
pub use strutil::split_and_vectorize;
pub use strutil::str_ends_with;
