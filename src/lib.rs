//! Content-addressed output layout and Slurm resource records for parameterised experiments.
//!
//! A parameter set is named by its identity (a base-62 SHA-224 digest of its canonical
//! serialisation, or a name the user chose); its outputs live under `ROOT/<identity>/`.
//! Resource policies are normalised into the scheduler's submission record, and a batch
//! query answers many invocations at once, all or nothing.

pub mod text;
pub mod resources;
pub mod identity;
pub mod layout;
pub mod wire;
pub mod batch;
pub mod dispatch;

pub use batch::{BatchAction, BatchError, BatchExchange};
pub use dispatch::{check_args_for_slurm_pipe, parse_descriptor, ArgError};
pub use identity::{
    id_from_serialised, identity, ExpInner, ExpInputs, ExpOutputs, ExpParameters, ExperimentAuto, IdStr,
};
pub use layout::{
    creation_succeeded, join, output_path, parameter_dir, prefixed_path, resolve_location,
    should_write_parameter_file, DirCreation,
};
pub use resources::{
    fmt_as_slurm_time, fmt_mail_types, fmt_memory, MailType, MemoryAmount, NoConfig,
    PolicySettings, Profile, SlurmResources,
};
pub use wire::{encode_record, encode_response, join_commas};
