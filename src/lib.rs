//! A file and directory replication engine: path model, error taxonomy,
//! configuration, directory walking, delta encoding, the client/server wire
//! protocol and the copy policy. All I/O is left to the caller, which hands
//! the library plain values and performs the actions that it decides.

pub mod path;
pub mod error;
pub mod delta;
pub mod config;
pub mod policy;
pub mod engine;
pub mod walk;
pub mod eacopy;
pub mod protocol;
pub mod client;
pub mod server;

pub use client::{ClientAction, ClientSession, SessionState};
pub use config::{Config, ErrorStrategy, GlobalConfig, LogLevel, global_config, reset_global_config, set_global_config};
pub use delta::{DeltaDescriptor, DeltaEncoder, DeltaOp, checksum, decode, decode_op, encode};
pub use eacopy::{
    DeltaPlan, EACopy, EntryAction, FileCopyPlan, PathInfo, PathKind, RemoteCopy, TreeCopy, batch_copy, batch_copy2,
    batch_copytree, completion, copy, copy2, copy_with_server, copyfile, copytree, delta_copy, get_version,
};
pub use engine::{BufferTier, FileTransfer, buffer_size_for, buffer_tier};
pub use error::{Error, from_error_code};
pub use path::{FsPath, file_name, is_absolute, join_paths, parent_dir, path_to_wide_string, to_wide_string};
pub use policy::{Completed, CopyRun, Decision, FailureRecord, TransferResult};
pub use protocol::{
    Command, ListedEntry, Response, decode_command, decode_listing, decode_response, encode_command, encode_listing,
    encode_response,
};
pub use server::{EACopyServer, ServerAction, ServerStats, create_server, dispatch};
pub use walk::{DirChild, EntryKind, PathEntry, TreeWalker, WalkStep};
