use vstd::prelude::*;

verus! {

/// Failures a provider pipeline can report. Configuration, network and
/// response-parsing failures are fatal to a single provider's fetch only;
/// a date failure while folding events is fatal to that provider's whole
/// fold, since it signals a systemic contract violation in its data.
#[derive(Debug)]
pub enum ProviderError {
    /// A required credential or environment value is missing.
    ConfigError(String),
    /// A network or HTTP request failed.
    RequestError(String),
    /// A response body could not be parsed.
    ParseError(String),
    /// A timestamp could not be interpreted as a valid date.
    DateError(String),
}

} // verus!
