//! The configuration as a whole.

use crate::general::{GeneralConfig, GeneralConfigView};
use crate::merge::Mergeable;
use crate::modes::{ModesConfig, ModesConfigView};
use crate::node_types::{NodeTypesConfig, NodeTypesConfigView};
use crate::version::{compatible, notice_of, parse_version, version_of, VersionError};
use vstd::prelude::*;

verus! {

/// A configuration: the version it was written for, the general settings,
/// the looks of the node types and the modes.
#[derive(Debug, Clone, PartialEq)]
pub struct Config {
    pub version: String,
    pub general: GeneralConfig,
    pub node_types: NodeTypesConfig,
    pub modes: ModesConfig,
}

/// The mathematical model of `Config`.
pub struct ConfigView {
    pub version: Seq<char>,
    pub general: GeneralConfigView,
    pub node_types: NodeTypesConfigView,
    pub modes: ModesConfigView,
}

impl View for Config {
    type V = ConfigView;

    open spec fn view(&self) -> ConfigView {
        ConfigView {
            version: self.version@,
            general: self.general@,
            node_types: self.node_types@,
            modes: self.modes@,
        }
    }
}

impl ConfigView {
    /// This configuration laid onto a baseline: the version is its own, and
    /// its settings, node types and modes are laid onto those of the baseline.
    pub open spec fn extended(self, baseline: ConfigView) -> ConfigView {
        ConfigView {
            version: self.version,
            general: GeneralConfig::merged(baseline.general, self.general),
            node_types: NodeTypesConfig::merged(baseline.node_types, self.node_types),
            modes: ModesConfig::merged(baseline.modes, self.modes),
        }
    }
}

/// What the compatibility check answers for a version text.
pub open spec fn compatibility_of(version: Seq<char>) -> Result<bool, VersionError> {
    match version_of(version) {
        Ok(numbers) => Ok(compatible(numbers)),
        Err(e) => Err(e),
    }
}

/// What the upgrade notification is for a version text.
pub open spec fn notification_of(version: Seq<char>) -> Result<Option<Seq<char>>, VersionError> {
    match version_of(version) {
        Ok(numbers) => Ok(notice_of(numbers)),
        Err(e) => Err(e),
    }
}

/// The text of a notification, if there is one.
pub open spec fn notice_text(notice: Result<Option<&str>, VersionError>) -> Result<
    Option<Seq<char>>,
    VersionError,
> {
    match notice {
        Ok(Some(text)) => Ok(Some(text@)),
        Ok(None) => Ok(None),
        Err(e) => Err(e),
    }
}

impl Config {
    /// This configuration laid onto the baseline `default`.
    pub fn extended(self, default: Config) -> (r: Self)
        ensures
            r@ == self@.extended(default@),
    {
        Config {
            version: self.version,
            general: default.general.extend(self.general),
            node_types: default.node_types.extend(self.node_types),
            modes: default.modes.extend(self.modes),
        }
    }

    /// The three numbers of the version that the configuration declares.
    pub fn parsed_version(&self) -> (r: Result<(u16, u16, u16), VersionError>)
        ensures
            r == version_of(self.version@),
    {
        parse_version(self.version.as_str())
    }

    /// Whether the running program can use this configuration.
    pub fn is_compatible(&self) -> (r: Result<bool, VersionError>)
        ensures
            r == compatibility_of(self.version@),
    {
        match self.parsed_version() {
            Err(e) => Err(e),
            Ok((major, minor, bugfix)) => Ok(major == 0 && minor == 5 && bugfix <= 4),
        }
    }

    /// What to tell the user about the version of this configuration, if
    /// anything.
    pub fn upgrade_notification(&self) -> (r: Result<Option<&'static str>, VersionError>)
        ensures
            notice_text(r) == notification_of(self.version@),
    {
        match self.parsed_version() {
            Err(e) => Err(e),
            Ok((major, minor, bugfix)) => {
                if major == 0 && minor == 5 && bugfix == 5 {
                    Ok(None)
                } else if major == 0 && minor == 5 && bugfix == 4 {
                    Ok(Some("App version updated. Significant reduction in CPU usage"))
                } else if major == 0 && minor == 5 && bugfix == 3 {
                    Ok(Some("App version updated. Fixed exit on permission denied"))
                } else if major == 0 && minor == 5 && bugfix == 2 {
                    Ok(Some("App version updated. Now pwd is synced with your terminal session"))
                } else if major == 0 && minor == 5 && bugfix == 1 {
                    Ok(Some("App version updated. Now follow symlinks using 'gf'"))
                } else {
                    Ok(
                        Some(
                            "App version updated. New: added sort and filter support and some hacks: https://github.com/sayanarijit/xplr/wiki/Hacks",
                        ),
                    )
                }
            },
        }
    }
}

/// A configuration laid onto itself is the same configuration.
pub proof fn lemma_extended_same(config: ConfigView)
    ensures
        config.extended(config) == config,
{
    GeneralConfig::lemma_merged_same(config.general);
    NodeTypesConfig::lemma_merged_same(config.node_types);
    ModesConfig::lemma_merged_same(config.modes);
}

} // verus!
