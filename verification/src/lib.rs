//! Decisions and text processing of an active-learning scheduler that drives
//! LAMMPS, VASP and machine-learned potential training through Slurm.
pub mod config;
pub mod install;
pub mod lammps;
pub mod layout;
pub mod number;
pub mod pipeline;
pub mod slurm;
pub mod template;
pub mod text;
pub mod training;
pub mod types;
pub mod vasp;
pub mod watcher;
