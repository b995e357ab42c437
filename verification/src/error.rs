use vstd::prelude::*;
use vstd::string::StringExecFns;

verus! {

/// The simulator's failures: construction, a tick run, or a rejected
/// configuration. Per-agent math is total, so under normal operation none of
/// these arise from the pipeline itself.
#[derive(Debug)]
pub enum Error {
    Create(String),
    Run(String),
    Config(String),
}

impl Error {
    /// A human-readable description of the failure.
    pub fn message(&self) -> (r: String)
        ensures
            r@ == match self {
                Error::Create(e) => "Fish Shoal Simulator failed to create: "@ + e@,
                Error::Run(e) => "Fish Shoal Simulator failed to run: "@ + e@,
                Error::Config(e) => "Fish Shoal Simulator failed to config: "@ + e@,
            },
    {
        match self {
            Error::Create(e) => String::from_str("Fish Shoal Simulator failed to create: ").concat(
                e.as_str(),
            ),
            Error::Run(e) => String::from_str("Fish Shoal Simulator failed to run: ").concat(
                e.as_str(),
            ),
            Error::Config(e) => String::from_str("Fish Shoal Simulator failed to config: ").concat(
                e.as_str(),
            ),
        }
    }
}

} // verus!
