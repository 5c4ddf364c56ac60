use vstd::prelude::*;

pub mod datastream;
pub mod events;
pub mod list;
pub mod outputs;
pub mod run;
pub mod scalar;
pub mod tree;
pub mod value;

verus! {

/// Where a program's module is loaded from.
#[derive(Debug, PartialEq, Eq)]
pub enum ProgramSource {
    FilePath(String),
}

impl ProgramSource {
    /// The file path the module is read from.
    pub fn path(&self) -> (r: &String)
        ensures
            *self == ProgramSource::FilePath(*r),
    {
        match self {
            ProgramSource::FilePath(p) => p,
        }
    }
}

} // verus!
