//! The cache mode the workspace runs under.
use vstd::prelude::*;

verus! {

/// Whether the cache is read, written, both or neither.
#[derive(PartialEq, Eq, Structural, Clone, Copy, Debug)]
pub enum CacheMode {
    Off,
    Read,
    ReadWrite,
    Write,
}

impl CacheMode {
    /// Whether cached results may be read.
    pub fn is_readable(&self) -> (r: bool)
        ensures
            r == (*self == CacheMode::Read || *self == CacheMode::ReadWrite),
    {
        match self {
            CacheMode::Read | CacheMode::ReadWrite => true,
            _ => false,
        }
    }

    /// Whether results may be written to the cache.
    pub fn is_writable(&self) -> (r: bool)
        ensures
            r == (*self == CacheMode::ReadWrite || *self == CacheMode::Write),
    {
        match self {
            CacheMode::ReadWrite | CacheMode::Write => true,
            _ => false,
        }
    }

    /// Whether results are written and never read, as when forcing a cache update.
    pub fn is_write_only(&self) -> (r: bool)
        ensures
            r == (*self == CacheMode::Write),
    {
        match self {
            CacheMode::Write => true,
            _ => false,
        }
    }
}

}
