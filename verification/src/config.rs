//! Which checks run, and with what setting.

use vstd::prelude::*;
use crate::text::{clone_strings, views};

verus! {

/// The setting of one check.
#[derive(Debug, PartialEq, Eq)]
pub struct Setting<T> {
    pub setting: T,
}

/// Checks on the definition of a variable.
#[derive(Debug, PartialEq, Eq)]
pub struct VariableConfig {
    /// Parts of a date or time format that give away too much, such as
    /// the seconds; absent to leave the check out.
    pub precise_date_format: Option<Setting<Vec<String>>>,
}

/// Checks on the values of a variable.
#[derive(Debug, PartialEq, Eq)]
pub struct ValueConfig {
    /// The share of system-missing values, in per cent, above which a
    /// variable fails; absent to leave the check out.
    pub system_missing_value_threshold: Option<Setting<u64>>,
}

/// The configuration of a read. A check whose setting is absent does not
/// run and does not appear in the report.
#[derive(Debug, PartialEq, Eq)]
pub struct Config {
    pub variable_config: VariableConfig,
    pub value_config: ValueConfig,
    /// The name of the variable that identifies the unit of analysis.
    pub primary_variable: Option<Setting<String>>,
    /// The number of occurrences at or below which a value is an outlier;
    /// absent to leave the check out.
    pub variables_with_unique_values: Option<Setting<u64>>,
}

/// What a [`Config`] holds, as mathematical values.
pub struct ConfigView {
    pub precise_date_format: Option<Seq<Seq<char>>>,
    pub system_missing_value_threshold: Option<u64>,
    pub primary_variable: Option<Seq<char>>,
    pub variables_with_unique_values: Option<u64>,
}

impl View for Config {
    type V = ConfigView;

    open spec fn view(&self) -> ConfigView {
        ConfigView {
            precise_date_format: match self.variable_config.precise_date_format {
                Some(patterns) => Some(views(patterns.setting@)),
                None => None,
            },
            system_missing_value_threshold: match self.value_config.system_missing_value_threshold {
                Some(threshold) => Some(threshold.setting),
                None => None,
            },
            primary_variable: match self.primary_variable {
                Some(name) => Some(name.setting@),
                None => None,
            },
            variables_with_unique_values: match self.variables_with_unique_values {
                Some(threshold) => Some(threshold.setting),
                None => None,
            },
        }
    }
}

impl Config {
    /// A configuration in which no check runs.
    pub fn new() -> (config: Config)
        ensures
            config@ == (ConfigView {
                precise_date_format: None,
                system_missing_value_threshold: None,
                primary_variable: None,
                variables_with_unique_values: None,
            }),
    {
        Config {
            variable_config: VariableConfig { precise_date_format: None },
            value_config: ValueConfig { system_missing_value_threshold: None },
            primary_variable: None,
            variables_with_unique_values: None,
        }
    }
}

impl Clone for Config {
    fn clone(&self) -> (copy: Config)
        ensures
            copy@ == self@,
    {
        Config {
            variable_config: VariableConfig {
                precise_date_format: match &self.variable_config.precise_date_format {
                    Some(patterns) => Some(Setting { setting: clone_strings(&patterns.setting) }),
                    None => None,
                },
            },
            value_config: ValueConfig {
                system_missing_value_threshold: match &self.value_config.system_missing_value_threshold {
                    Some(threshold) => Some(Setting { setting: threshold.setting }),
                    None => None,
                },
            },
            primary_variable: match &self.primary_variable {
                Some(name) => Some(Setting { setting: name.setting.clone() }),
                None => None,
            },
            variables_with_unique_values: match &self.variables_with_unique_values {
                Some(threshold) => Some(Setting { setting: threshold.setting }),
                None => None,
            },
        }
    }
}

} // verus!
