//! The project configuration (`setup/config.toml`) and what follows from it.
use vstd::prelude::*;
use crate::lammps::MdModelPackage;

verus! {

/// The machine-learned potential that is trained.
#[derive(Debug, Clone, Copy, PartialEq, Eq, Structural)]
pub enum Backend {
    Upet,
    N2p2,
}

impl Backend {
    /// The Pixi environment that runs the backend's Python tools.
    pub fn pixi_env(&self) -> (s: &'static str)
        ensures
            s@ == (match self {
                Backend::Upet => "upet"@,
                Backend::N2p2 => "n2p2"@,
            }),
    {
        match self {
            Backend::Upet => "upet",
            Backend::N2p2 => "n2p2",
        }
    }

    /// The script that exports the accumulated dataset for the backend.
    pub fn python_script(&self) -> (s: &'static str)
        ensures
            s@ == (match self {
                Backend::Upet => "poscar_to_upet.py"@,
                Backend::N2p2 => "poscar_to_n2p2.py"@,
            }),
    {
        match self {
            Backend::Upet => "poscar_to_upet.py",
            Backend::N2p2 => "poscar_to_n2p2.py",
        }
    }
}

/// Which energies the potential is trained on.
#[derive(Debug, Clone, Copy, PartialEq, Eq, Structural)]
pub enum EnergyMode {
    Pet,
    Raw,
}

impl EnergyMode {
    pub fn as_str(&self) -> (s: &'static str)
        ensures
            s@ == (match self {
                EnergyMode::Pet => "pet"@,
                EnergyMode::Raw => "raw"@,
            }),
    {
        match self {
            EnergyMode::Pet => "pet",
            EnergyMode::Raw => "raw",
        }
    }

    /// The dataset key of the energies that training reads.
    pub fn training_key(&self) -> (s: &'static str)
        ensures
            s@ == (match self {
                EnergyMode::Pet => "energy-corrected"@,
                EnergyMode::Raw => "energy"@,
            }),
    {
        match self {
            EnergyMode::Pet => "energy-corrected",
            EnergyMode::Raw => "energy",
        }
    }
}

#[derive(Debug, Clone, Copy, PartialEq, Eq, Structural)]
pub struct ProjectConfig {
    pub generations: u32,
}

#[derive(Debug, Clone, Copy, PartialEq, Eq, Structural)]
pub struct TrainingConfig {
    pub backend: Backend,
    pub energy_mode: EnergyMode,
}

#[derive(Debug, Clone, Copy, PartialEq, Eq, Structural)]
pub struct CommitteeConfig {
    pub members: usize,
}

/// The whole configuration.
#[derive(Debug, Clone, Copy, PartialEq, Eq, Structural)]
pub struct Config {
    pub project: ProjectConfig,
    pub training: TrainingConfig,
    pub committee: CommitteeConfig,
}

/// Why a configuration is refused.
#[derive(Debug, Clone, Copy, PartialEq, Eq, Structural)]
pub enum ConfigError {
    /// `committee.members` is zero.
    NoCommitteeMembers,
}

impl Config {
    /// A committee needs at least one member.
    pub fn validate(&self) -> (r: Result<(), ConfigError>)
        ensures
            r == (if self.committee.members > 0 {
                Ok::<(), ConfigError>(())
            } else {
                Err(ConfigError::NoCommitteeMembers)
            }),
    {
        if self.committee.members == 0 {
            Err(ConfigError::NoCommitteeMembers)
        } else {
            Ok(())
        }
    }

    /// UPET training, and the PET energy correction, need a foundation checkpoint.
    pub fn checkpoint_required(&self) -> (r: bool)
        ensures
            r == (self.training.backend == Backend::Upet || self.training.energy_mode
                == EnergyMode::Pet),
    {
        match (self.training.backend, self.training.energy_mode) {
            (Backend::Upet, _) => true,
            (_, EnergyMode::Pet) => true,
            _ => false,
        }
    }

    /// The models that the MD runs of a generation are given: the mock UPET
    /// models when training UPET, none otherwise.
    pub fn md_model_package(&self) -> (p: Option<MdModelPackage>)
        ensures
            p == (if self.training.backend == Backend::Upet {
                Some(MdModelPackage::UpetMock)
            } else {
                None
            }),
    {
        match self.training.backend {
            Backend::Upet => Some(MdModelPackage::UpetMock),
            Backend::N2p2 => None,
        }
    }
}

} // verus!
