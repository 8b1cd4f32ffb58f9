use vstd::prelude::*;
use vstd::string::*;

verus! {

/// The text that opens every parse failure message.
pub open spec fn parse_failure_prefix() -> Seq<char> {
    "Failed to parse source map - Reason: "@
}

/// The message for a handle that names no live source map.
pub open spec fn not_found_text() -> Seq<char> {
    "Source map was not found, did you dispose it?"@
}

/// The message for a position that no token covers.
pub open spec fn no_token_text() -> Seq<char> {
    "Failed to lookup original position for given line and column"@
}

/// An original position: source file, 0-based line and 0-based column.
#[derive(Debug)]
pub struct LookupResult {
    pub source: String,
    pub line: u32,
    pub column: u32,
}

/// The three failures that reach the caller.
#[derive(Debug)]
pub enum BridgeError {
    /// The bytes are not a source map; the parser's reason is kept.
    ParseFailed(String),
    /// The handle was never issued or has been released.
    SourceMapNotFound,
    /// No token covers the requested generated position.
    LookupFailed,
}

impl BridgeError {
    /// The caller-facing text of this error.
    pub open spec fn message_spec(&self) -> Seq<char> {
        match self {
            BridgeError::ParseFailed(reason) => parse_failure_prefix() + reason@,
            BridgeError::SourceMapNotFound => not_found_text(),
            BridgeError::LookupFailed => no_token_text(),
        }
    }

    /// Formats this error as the message handed to the host.
    pub fn message(&self) -> (r: String)
        ensures
            r@ == self.message_spec(),
    {
        match self {
            BridgeError::ParseFailed(reason) => {
                let prefix = String::from_str("Failed to parse source map - Reason: ");
                proof {
                    reveal_strlit("Failed to parse source map - Reason: ");
                }
                prefix.concat(reason.as_str())
            },
            BridgeError::SourceMapNotFound => {
                proof {
                    reveal_strlit("Source map was not found, did you dispose it?");
                }
                String::from_str("Source map was not found, did you dispose it?")
            },
            BridgeError::LookupFailed => {
                proof {
                    reveal_strlit("Failed to lookup original position for given line and column");
                }
                String::from_str("Failed to lookup original position for given line and column")
            },
        }
    }
}

} // verus!
