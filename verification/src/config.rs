//! The settings kept between runs, and the updates made to them.
use crate::mode::Mode;
use vstd::prelude::*;

verus! {

/// A change to the settings.
pub enum ConfigUpdate {
    /// The test mode was changed.
    Mode(Mode),
}

/// The settings kept between runs.
#[derive(Debug, Clone, Copy, PartialEq, Eq, Structural)]
pub struct ConfigData {
    pub mode: Mode,
}

impl Default for ConfigData {
    /// A quote test.
    fn default() -> (res: Self)
        ensures
            res.mode == Mode::Quote,
    {
        ConfigData { mode: Mode::default() }
    }
}

impl ConfigData {
    /// Applies `update` to the settings.
    pub fn handle_config_update(&mut self, update: ConfigUpdate)
        ensures
            match update {
                ConfigUpdate::Mode(m) => final(self).mode == m,
            },
    {
        match update {
            ConfigUpdate::Mode(mode) => {
                self.mode = mode;
            },
        }
    }
}

} // verus!
