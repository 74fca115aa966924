//! What can be wrong with the settings that a run starts from.

use vstd::prelude::*;

verus! {

/// Why the settings are refused.
#[derive(Debug)]
pub enum ConfigError {
    /// The group of filters at this position, counted from 0, has no token.
    EmptyGroup { index: usize },
    /// A file for the chosen date was named, but no key to keep it under.
    MissingOutputKey,
    /// A key for the chosen date was named, but no file to keep it in.
    MissingOutputFile,
}

/// Puts the file for the chosen date together with the key to keep it
/// under. Both are given or neither is; one without the other is refused.
pub fn output_file_key<F, K>(file: Option<F>, key: Option<K>) -> (res: Result<
    Option<(F, K)>,
    ConfigError,
>)
    ensures
        match res {
            Ok(Some((f, k))) => file == Some(f) && key == Some(k),
            Ok(None) => file is None && key is None,
            Err(ConfigError::MissingOutputKey) => file is Some && key is None,
            Err(ConfigError::MissingOutputFile) => file is None && key is Some,
            Err(ConfigError::EmptyGroup { .. }) => false,
        },
{
    match (file, key) {
        (Some(f), Some(k)) => Ok(Some((f, k))),
        (None, None) => Ok(None),
        (Some(_), None) => Err(ConfigError::MissingOutputKey),
        (None, Some(_)) => Err(ConfigError::MissingOutputFile),
    }
}

} // verus!
