//! Interface and service versions: major.minor.patch triples with a
//! compatibility relation over major and minor alone.

use vstd::prelude::*;
use core::cmp::Ordering;

verus! {

/// What it means for an implementer at version `a` to satisfy a requirement
/// for version `b`: equal majors, and the implementer's minor is at least the
/// required minor. The patch component never participates.
pub open spec fn compatible(a: InterfaceVersion, b: InterfaceVersion) -> bool {
    a.major == b.major && a.minor >= b.minor
}

/// Total order on versions: by major, then minor, then patch.
pub open spec fn version_cmp(a: InterfaceVersion, b: InterfaceVersion) -> Ordering {
    if a.major > b.major {
        Ordering::Greater
    } else if a.major < b.major {
        Ordering::Less
    } else if a.minor > b.minor {
        Ordering::Greater
    } else if a.minor < b.minor {
        Ordering::Less
    } else if a.patch > b.patch {
        Ordering::Greater
    } else if a.patch < b.patch {
        Ordering::Less
    } else {
        Ordering::Equal
    }
}

/// Version of an interface or service. Contains major, minor and patch parts.
#[derive(Clone, Copy, PartialEq, Eq, Structural)]
pub struct InterfaceVersion {
    pub major: u32,
    pub minor: u32,
    pub patch: u32,
}

impl InterfaceVersion {
    /// Mix given version components into a single InterfaceVersion struct.
    pub fn new(major: u32, minor: u32, patch: u32) -> (v: Self)
        ensures
            v.major == major && v.minor == minor && v.patch == patch,
    {
        InterfaceVersion { major, minor, patch }
    }

    /// Major version of the interface.
    pub fn major(&self) -> (r: u32)
        ensures
            r == self.major,
    {
        self.major
    }

    /// Minor version of the interface.
    pub fn minor(&self) -> (r: u32)
        ensures
            r == self.minor,
    {
        self.minor
    }

    /// Patch number of the interface version.
    pub fn patch(&self) -> (r: u32)
        ensures
            r == self.patch,
    {
        self.patch
    }

    /// Check whether an implementer at this version can serve a requirement
    /// for version `other`: same major, and this minor is no older.
    pub fn is_compatible(&self, other: &InterfaceVersion) -> (r: bool)
        ensures
            r == compatible(*self, *other),
    {
        if self.major != other.major {
            false
        } else if self.minor < other.minor {
            false
        } else {
            true
        }
    }

    /// Total order on versions: by major, then minor, then patch.
    pub fn compare(&self, other: &InterfaceVersion) -> (r: Ordering)
        ensures
            r == version_cmp(*self, *other),
    {
        if self.major > other.major {
            Ordering::Greater
        } else if self.major < other.major {
            Ordering::Less
        } else if self.minor > other.minor {
            Ordering::Greater
        } else if self.minor < other.minor {
            Ordering::Less
        } else if self.patch > other.patch {
            Ordering::Greater
        } else if self.patch < other.patch {
            Ordering::Less
        } else {
            Ordering::Equal
        }
    }
}

/// Compatibility over a shared major is decided by the minors alone: an
/// implementer's version (M, m) is compatible with a required (M, m2) exactly
/// when m >= m2, and never compatible across different majors.
pub proof fn lemma_compatible_same_major(maj: u32, m: u32, m2: u32, p: u32, p2: u32)
    ensures
        compatible(
            InterfaceVersion { major: maj, minor: m, patch: p },
            InterfaceVersion { major: maj, minor: m2, patch: p2 },
        ) == (m >= m2),
        forall|a: InterfaceVersion, b: InterfaceVersion|
            a.major != b.major ==> !compatible(a, b),
{
}

} // verus!
