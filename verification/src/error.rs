//! What can go wrong when a herd is set up.

use vstd::prelude::*;
use vstd::string::StringExecFns;
use crate::age::InvalidAge;

verus! {

/// Why no shop could be set up.
#[derive(Debug)]
pub enum YakShopError {
    /// There is no herd file at the given path.
    ConfigFileNotFound(String),
    /// The herd file does not describe a herd; the text says why.
    ConfigFileParseError(String),
}

impl YakShopError {
    /// The error in words.
    pub open spec fn text(self) -> Seq<char> {
        match self {
            YakShopError::ConfigFileNotFound(path) => "Config file "@ + path@ + " not found"@,
            YakShopError::ConfigFileParseError(msg) => "Error parsing config file: "@ + msg@,
        }
    }

    /// A herd with an age that is refused is a herd file that does not
    /// describe a herd: the error says why the age was refused.
    pub fn invalid_age(reason: InvalidAge) -> (error: YakShopError)
        ensures
            error matches YakShopError::ConfigFileParseError(msg) && msg@ == reason.text(),
    {
        YakShopError::ConfigFileParseError(String::from_str(reason.message()))
    }

    /// The error in words.
    pub fn message(&self) -> (text: String)
        ensures
            text@ == self.text(),
    {
        match self {
            YakShopError::ConfigFileNotFound(path) => {
                let mut text = String::from_str("Config file ");
                text.append(path.as_str());
                text.append(" not found");
                text
            },
            YakShopError::ConfigFileParseError(msg) => {
                let mut text = String::from_str("Error parsing config file: ");
                text.append(msg.as_str());
                text
            },
        }
    }
}

} // verus!
