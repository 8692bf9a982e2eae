//! The ways in which loading the configuration or a run can fail.

use vstd::prelude::*;
use vstd::string::StringExecFns;

verus! {

/// One of the three settings that a configuration must hold.
#[derive(Clone, Copy, Debug, PartialEq, Eq, Structural)]
pub enum ConfigField {
    ApiToken,
    ZoneId,
    RecordName,
}

impl ConfigField {
    /// The key under which the setting stands in the configuration text.
    pub open spec fn spec_key(self) -> Seq<char> {
        match self {
            ConfigField::ApiToken => "api_token"@,
            ConfigField::ZoneId => "zone_id"@,
            ConfigField::RecordName => "record_name"@,
        }
    }

    /// The key under which the setting stands in the configuration text.
    pub fn key(self) -> (key: &'static str)
        ensures
            key@ == self.spec_key(),
    {
        match self {
            ConfigField::ApiToken => "api_token",
            ConfigField::ZoneId => "zone_id",
            ConfigField::RecordName => "record_name",
        }
    }
}

/// Why no configuration could be loaded.
#[derive(Clone, Copy, Debug, PartialEq, Eq, Structural)]
pub enum ConfigError {
    /// The configuration text could not be read.
    Unreadable,
    /// The configuration text is not JSON that the parser can read.
    Malformed,
    /// The configuration holds no string under the key of this setting.
    MissingField(ConfigField),
}

impl ConfigError {
    /// What `message` returns.
    pub open spec fn spec_message(self) -> Seq<char> {
        match self {
            ConfigError::Unreadable => "error reading configuration file"@,
            ConfigError::Malformed => "failed to parse configuration file as JSON"@,
            ConfigError::MissingField(field) => field.spec_key()
                + " is not set in configuration file"@,
        }
    }

    /// A sentence for the person who runs the program.
    pub fn message(self) -> (text: String)
        ensures
            text@ == self.spec_message(),
    {
        match self {
            ConfigError::Unreadable => String::from_str("error reading configuration file"),
            ConfigError::Malformed => String::from_str(
                "failed to parse configuration file as JSON",
            ),
            ConfigError::MissingField(field) => String::from_str(field.key()).concat(
                " is not set in configuration file",
            ),
        }
    }
}

/// Why a run ended without the record being known to hold the public address.
#[derive(Clone, Copy, Debug, PartialEq, Eq, Structural)]
pub enum RunError {
    /// The configuration could not be loaded.
    Config(ConfigError),
    /// A request to the DNS provider or to the address service failed.
    Network,
    /// The zone holds no address record of the configured name.
    NotFound,
    /// A record that must be an address record is of another type.
    TypeMismatch,
    /// The provider answered an update with another address than the one asked for.
    Consistency,
    /// The text that the address service returned is no IPv4 address.
    Parse,
}

impl RunError {
    /// What `message` returns.
    pub open spec fn spec_message(self) -> Seq<char> {
        match self {
            RunError::Config(e) => e.spec_message(),
            RunError::Network => "request failed"@,
            RunError::NotFound => "no matching DNS A record was found"@,
            RunError::TypeMismatch => "failed to process returned cloudflare DNS record"@,
            RunError::Consistency => "DNS record update requested but IP did not change"@,
            RunError::Parse => "failed to parse IP from ipify"@,
        }
    }

    /// A sentence for the person who runs the program.
    pub fn message(self) -> (text: String)
        ensures
            text@ == self.spec_message(),
    {
        match self {
            RunError::Config(e) => e.message(),
            RunError::Network => String::from_str("request failed"),
            RunError::NotFound => String::from_str("no matching DNS A record was found"),
            RunError::TypeMismatch => String::from_str(
                "failed to process returned cloudflare DNS record",
            ),
            RunError::Consistency => String::from_str(
                "DNS record update requested but IP did not change",
            ),
            RunError::Parse => String::from_str("failed to parse IP from ipify"),
        }
    }
}

} // verus!
