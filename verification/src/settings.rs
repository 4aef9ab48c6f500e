//! The settings of the client, from the environment.

use vstd::prelude::*;
use vstd::string::*;

verus! {

/// The region and the credentials that the client is built with.
pub struct ClientSettings {
    pub region: String,
    pub access_key: String,
    pub secret_key: String,
}

/// A value, or what stands in for it where it is not set.
pub open spec fn value_or(value: Option<Seq<char>>, default: Seq<char>) -> Seq<char> {
    match value {
        Some(text) => text,
        None => default,
    }
}

fn set_or(value: Option<String>, default: &str) -> (text: String)
    ensures
        text@ == value_or(value.deep_view(), default@),
{
    match value {
        Some(text) => text,
        None => default.to_owned(),
    }
}

impl ClientSettings {
    /// Takes the values of `CLOUDWATCH_AWS_REGION`, `CLOUDWATCH_AWS_ACCESS_KEY` and
    /// `CLOUDWATCH_AWS_SECRET_KEY`. Without a region the settings name `us-east-1`; a key that is
    /// not set is replaced by a placeholder.
    pub fn from_values(
        region: Option<String>,
        access_key: Option<String>,
        secret_key: Option<String>,
    ) -> (settings: ClientSettings)
        ensures
            settings.region@ == value_or(region.deep_view(), "us-east-1"@),
            settings.access_key@ == value_or(access_key.deep_view(), "MISSING_KEY"@),
            settings.secret_key@ == value_or(secret_key.deep_view(), "MISSING_SECRET"@),
    {
        ClientSettings {
            region: set_or(region, "us-east-1"),
            access_key: set_or(access_key, "MISSING_KEY"),
            secret_key: set_or(secret_key, "MISSING_SECRET"),
        }
    }
}

/// A value that is set is taken as it is; the default stands in only where none is set.
pub proof fn law_set_values_are_taken(value: Option<Seq<char>>, default: Seq<char>)
    ensures
        value matches Some(text) ==> value_or(value, default) == text,
        value is None ==> value_or(value, default) == default,
{
}

} // verus!
