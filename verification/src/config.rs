//! The configuration of a broker client: a map from the names of settings to
//! their values, kept in the broker client's own type.

use rdkafka::ClientConfig;
use vstd::prelude::*;

verus! {

/// `rdkafka::ClientConfig`, the configuration from which a producer or a
/// consumer is created.
#[verifier::external_type_specification]
#[verifier::external_body]
pub struct ExClientConfig(rdkafka::ClientConfig);

/// The settings that a configuration holds: what `rdkafka::ClientConfig::get`
/// finds under each name.
pub uninterp spec fn settings_of(config: ClientConfig) -> Map<Seq<char>, Seq<char>>;

/// No settings at all.
pub open spec fn no_settings() -> Map<Seq<char>, Seq<char>> {
    Map::empty()
}

/// `rdkafka::ClientConfig::new` makes a configuration without settings.
#[verifier::external_body]
pub(crate) fn new_config() -> (config: ClientConfig)
    ensures
        settings_of(config) == no_settings(),
{
    ClientConfig::new()
}

/// `rdkafka::ClientConfig::set` puts `value` under `key`, in place of what
/// was set under that name before, and leaves the other settings as they
/// are.
#[verifier::external_body]
pub(crate) fn set_config(config: &mut ClientConfig, key: &str, value: &str)
    ensures
        settings_of(*final(config)) == settings_of(*old(config)).insert(key@, value@),
{
    config.set(key, value);
}

} // verus!
