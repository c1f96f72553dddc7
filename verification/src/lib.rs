//! A pseudo-terminal (PTY) session multiplexer core.
//!
//! One session runs one isolated child process attached to a pseudo-terminal.
//! The library provides the verified core of the system: the session registry
//! with its id allocator, the output decoder that reassembles UTF-8 text
//! across read boundaries, and the secure command/environment builder that
//! turns user settings into a fully specified child invocation without
//! leaking ambient secrets of the host process.
//!
//! All blocking I/O (opening the PTY, spawning and reaping the child,
//! reading and writing the terminal) is performed by the embedding
//! application, which consults this library for every decision.

mod args;
mod command;
mod envmap;
mod envpolicy;
mod errors;
mod ids;
mod paths;
mod pty_cmd;
mod reader;
mod registry;
mod settings;
mod strutil;

pub use args::all_args_allowed;
pub use args::is_allowed_arg;
pub use args::validate_args;

pub use command::build_exec_spec;
pub use command::build_ok;
pub use command::built_env;
pub use command::entry_resolved;
pub use command::env_key_present;
pub use command::env_lookup;
pub use command::env_value_at;
pub use command::inject_secrets;
pub use command::lemma_disallowed_secret_dropped;
pub use command::lemma_path_unaffected_by_secrets;
pub use command::lemma_secret_injected_value;
pub use command::node_binary_path;
pub use command::node_resolved;
pub use command::openclaw_entry_path;
pub use command::passthrough_partial;
pub use command::secret_injected;
pub use command::secret_value_injected;
pub use command::spec_entry_path;
pub use command::spec_node_dir;
pub use command::spec_node_path;
pub use command::spec_path_value;
pub use command::spec_state_dir;
pub use command::state_dir_ok;
pub use command::ExecSpec;
pub use command::HostContext;

pub use envmap::assoc_first;
pub use envmap::assoc_map;
pub use envmap::keys_unique;
pub use envmap::EnvMap;

pub use envpolicy::is_allowed_env_key;
pub use envpolicy::is_allowed_env_key_spec;
pub use envpolicy::is_passthrough;
pub use envpolicy::passthrough_list;
pub use envpolicy::passthrough_names;

pub use errors::PtyError;

pub use ids::SessionIdAllocator;

pub use paths::is_configured;
pub use paths::openclaw_base_dir_path;
pub use paths::openclaw_config_file_path;
pub use paths::openclaw_state_dir_path;
pub use paths::settings_dir_path;
pub use paths::settings_path;
pub use paths::settings_tmp_path;

pub use pty_cmd::build_openclaw_command;
pub use pty_cmd::cb_argv;
pub use pty_cmd::cb_cwd_of;
pub use pty_cmd::cb_env_map;
pub use pty_cmd::command_from_spec;

pub use reader::lemma_emission_order;
pub use reader::lemma_segments_decode_like_whole;
pub use reader::lemma_residual_bounded;
pub use reader::utf8_valid_prefix_len;
pub use reader::ChunkOutput;
pub use reader::DataEvent;
pub use reader::OutputDecoder;
pub use reader::OutputReader;
pub use reader::SessionStatus;
pub use reader::StatusEvent;
pub use reader::MAX_LEFTOVER_SIZE;
pub use reader::READ_CHUNK_SIZE;

pub use registry::lemma_killed_id_not_found;
pub use registry::lemma_live_ids_unique_nonzero;
pub use registry::lemma_session_map_absent;
pub use registry::lemma_session_map_at;
pub use registry::session_ids_unique;
pub use registry::session_map;
pub use registry::validate_size;
pub use registry::validate_write_len;
pub use registry::SessionRegistry;
pub use registry::MAX_WRITE_SIZE;

pub use settings::Settings;

pub use strutil::str_eq;
