use vstd::prelude::*;

verus! {

/// The priority rank of a scope.  `Global` outranks `Runtime`, which outranks
/// every user rank; among user ranks a larger number means a higher priority.
#[derive(PartialEq, Eq, Structural, Hash, Debug)]
pub enum ScopePriority {
    Global,
    Runtime,
    User(u8),
}

/// Rank of `Runtime`, directly above the largest user rank.
pub const RUNTIME_RANK: u16 = 256;

/// Rank of `Global`, above every other rank.
pub const GLOBAL_RANK: u16 = 257;

impl ScopePriority {
    /// The numeric rank that induces the total priority order.
    pub open spec fn rank(&self) -> int {
        match self {
            ScopePriority::Global => GLOBAL_RANK as int,
            ScopePriority::Runtime => RUNTIME_RANK as int,
            ScopePriority::User(n) => *n as int,
        }
    }

    /// Executable form of [`Self::rank`].
    pub fn rank_value(&self) -> (r: u16)
        ensures
            r as int == self.rank(),
    {
        match self {
            ScopePriority::Global => GLOBAL_RANK,
            ScopePriority::Runtime => RUNTIME_RANK,
            ScopePriority::User(n) => *n as u16,
        }
    }
}

impl PartialOrd for ScopePriority {
    fn partial_cmp(&self, other: &Self) -> (r: Option<core::cmp::Ordering>) {
        let a = self.rank_value();
        let b = other.rank_value();
        if a < b {
            Some(core::cmp::Ordering::Less)
        } else if a == b {
            Some(core::cmp::Ordering::Equal)
        } else {
            Some(core::cmp::Ordering::Greater)
        }
    }
}

impl vstd::std_specs::cmp::PartialOrdSpecImpl for ScopePriority {
    open spec fn obeys_partial_cmp_spec() -> bool {
        true
    }

    open spec fn partial_cmp_spec(&self, other: &Self) -> Option<core::cmp::Ordering> {
        if self.rank() < other.rank() {
            Some(core::cmp::Ordering::Less)
        } else if self.rank() == other.rank() {
            Some(core::cmp::Ordering::Equal)
        } else {
            Some(core::cmp::Ordering::Greater)
        }
    }
}

} // verus!
