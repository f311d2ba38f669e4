//! The resolved system configuration: where the engines live and which kind
//! of storage holds sensitive data. Locating and parsing the on-disk
//! configuration file is the caller's concern; this type holds only the
//! already-resolved values.

use vstd::prelude::*;

verus! {

/// Where sensitive data is stored.
#[derive(Debug)]
pub enum StrorageType {
    /// In a remote store.
    Remote,
    /// In a local file, optionally encrypted.
    Local { path: String, encrypted: bool },
}

/// The mathematical value of a [`StrorageType`].
pub enum StorageModel {
    Remote,
    Local { path: Seq<char>, encrypted: bool },
}

impl View for StrorageType {
    type V = StorageModel;

    open spec fn view(&self) -> StorageModel {
        match self {
            StrorageType::Remote => StorageModel::Remote,
            StrorageType::Local { path, encrypted } => StorageModel::Local {
                path: path@,
                encrypted: *encrypted,
            },
        }
    }
}

/// The mathematical value of a [`ConfigManager`].
pub struct ConfigModel {
    pub engines_location: Seq<char>,
    pub storage: StorageModel,
}

/// The resolved configuration: the engines-root directory and the storage
/// kind.
#[derive(Debug)]
pub struct ConfigManager {
    engines_location: String,
    storage: StrorageType,
}

impl View for ConfigManager {
    type V = ConfigModel;

    closed spec fn view(&self) -> ConfigModel {
        ConfigModel { engines_location: self.engines_location@, storage: self.storage@ }
    }
}

impl ConfigManager {
    /// Builds a configuration from already-resolved values.
    pub fn new(engines_location: String, storage: StrorageType) -> (r: ConfigManager)
        ensures
            r@ == (ConfigModel { engines_location: engines_location@, storage: storage@ }),
    {
        ConfigManager { engines_location, storage }
    }

    /// The engines-root directory.
    pub fn get_engines_location(&self) -> (r: &str)
        ensures
            r@ == self@.engines_location,
    {
        self.engines_location.as_str()
    }
}

} // verus!
