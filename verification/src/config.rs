//! How a batch treats expectations that are missing or out of date.

use crate::text::same_str;
use vstd::prelude::*;

verus! {

/// The word that selects `Update::Wip`.
pub const WIP: &'static str = "wip";

/// The word that selects `Update::Overwrite`.
pub const OVERWRITE: &'static str = "overwrite";

/// What happens to an expectation that is missing or differs from the
/// actual output.
#[derive(PartialEq, Eq, Structural, Debug, Copy, Clone)]
pub enum Update {
    /// The actual output is staged for review; committed files stay as they
    /// are.
    Wip,
    /// The actual output is written over the committed expectation.
    Overwrite,
}

/// A setting that cannot be used.
#[derive(Debug, Clone, PartialEq, Eq)]
pub enum ConfigError {
    /// The update mode was set to the given text, which names no mode.
    UpdateEnvVar(String),
}

/// `ConfigError` over mathematical text.
pub enum ConfigErrorView {
    UpdateEnvVar(Seq<char>),
}

impl View for ConfigError {
    type V = ConfigErrorView;

    open spec fn view(&self) -> ConfigErrorView {
        match self {
            ConfigError::UpdateEnvVar(value) => ConfigErrorView::UpdateEnvVar(value@),
        }
    }
}

/// The mode that the setting `value` selects: `Wip` where nothing is set.
pub open spec fn update_of(value: Option<Seq<char>>) -> Result<Update, ConfigErrorView> {
    match value {
        None => Ok(Update::Wip),
        Some(word) => if word == WIP@ {
            Ok(Update::Wip)
        } else if word == OVERWRITE@ {
            Ok(Update::Overwrite)
        } else {
            Err(ConfigErrorView::UpdateEnvVar(word))
        },
    }
}

/// The view of an optional text.
pub open spec fn text_of(value: Option<&str>) -> Option<Seq<char>> {
    match value {
        None => None,
        Some(word) => Some(word@),
    }
}

/// The view of a parsed setting.
pub open spec fn parsed_view(r: Result<Update, ConfigError>) -> Result<Update, ConfigErrorView> {
    match r {
        Ok(mode) => Ok(mode),
        Err(e) => Err(e@),
    }
}

impl Default for Update {
    fn default() -> (r: Update)
        ensures
            r == Update::Wip,
    {
        Update::Wip
    }
}

impl Update {
    /// The mode that the value of the `BATCH_RUN` setting selects. `value`
    /// is `None` where the setting is absent.
    pub fn from_env_value(value: Option<&str>) -> (r: Result<Update, ConfigError>)
        ensures
            parsed_view(r) == update_of(text_of(value)),
    {
        match value {
            None => Ok(Update::Wip),
            Some(word) => {
                if same_str(word, WIP) {
                    Ok(Update::Wip)
                } else if same_str(word, OVERWRITE) {
                    Ok(Update::Overwrite)
                } else {
                    Err(ConfigError::UpdateEnvVar(word.to_owned()))
                }
            },
        }
    }
}

/// The settings of a batch.
#[derive(Debug, Copy, Clone)]
pub struct Config {
    update_mode: Update,
}

impl View for Config {
    type V = Update;

    closed spec fn view(&self) -> Update {
        self.update_mode
    }
}

impl Default for Config {
    fn default() -> (r: Config)
        ensures
            r@ == Update::Wip,
    {
        Config { update_mode: Update::Wip }
    }
}

impl Config {
    /// The settings that the value of the `BATCH_RUN` setting selects.
    pub fn from_env_value(value: Option<&str>) -> (r: Result<Config, ConfigError>)
        ensures
            match r {
                Ok(config) => update_of(text_of(value)) == Ok::<Update, ConfigErrorView>(config@),
                Err(e) => update_of(text_of(value)) == Err::<Update, ConfigErrorView>(e@),
            },
    {
        match Update::from_env_value(value) {
            Ok(update_mode) => Ok(Config { update_mode }),
            Err(e) => Err(e),
        }
    }

    /// These settings with the update mode replaced.
    pub fn with_update_mode(self, update_mode: Update) -> (r: Config)
        ensures
            r@ == update_mode,
    {
        Config { update_mode }
    }

    /// The update mode.
    pub fn update_mode(&self) -> (r: Update)
        ensures
            r == self@,
    {
        self.update_mode
    }
}

} // verus!
