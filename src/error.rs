use vstd::prelude::*;

verus! {

/// The failures that stop a scan from starting.
#[derive(Clone, Debug)]
pub enum ScanError {
    /// No network interface carries the requested source address.
    InterfaceNotFound,
    /// A target expression could not be read; it holds the offending token.
    InvalidTarget(String),
}

} // verus!
