//! The load protections of a node, each of which a simulation can switch off.

use vstd::prelude::*;

verus! {

/// Which load protections are in force.
#[derive(Clone, Copy, Debug, PartialEq, Eq, Hash, Structural)]
pub struct ProtectionProfile {
    /// Every class keeps a reserved share of outbound capacity.
    pub class_reservations: bool,
    /// Control traffic yields to waiting lower traffic after a bounded burst.
    pub bounded_control_burst: bool,
    /// Persisting a storage batch yields after every entry.
    pub per_entry_yield: bool,
}

impl ProtectionProfile {
    /// Every protection in force.
    pub open spec fn full() -> ProtectionProfile {
        ProtectionProfile {
            class_reservations: true,
            bounded_control_burst: true,
            per_entry_yield: true,
        }
    }

    /// Every protection in force: the profile of a running node.
    pub fn production() -> (profile: Self)
        ensures
            profile == ProtectionProfile::full(),
    {
        ProtectionProfile {
            class_reservations: true,
            bounded_control_burst: true,
            per_entry_yield: true,
        }
    }

    /// Every protection but the class reservations.
    pub fn without_class_reservations() -> (profile: Self)
        ensures
            profile == (ProtectionProfile { class_reservations: false, ..ProtectionProfile::full() }),
    {
        ProtectionProfile {
            class_reservations: false,
            bounded_control_burst: true,
            per_entry_yield: true,
        }
    }

    /// Every protection but the bounded control burst.
    pub fn without_bounded_control_burst() -> (profile: Self)
        ensures
            profile == (ProtectionProfile {
                bounded_control_burst: false,
                ..ProtectionProfile::full()
            }),
    {
        ProtectionProfile {
            class_reservations: true,
            bounded_control_burst: false,
            per_entry_yield: true,
        }
    }

    /// Every protection but the yield after every persisted entry.
    pub fn without_per_entry_yield() -> (profile: Self)
        ensures
            profile == (ProtectionProfile { per_entry_yield: false, ..ProtectionProfile::full() }),
    {
        ProtectionProfile {
            class_reservations: true,
            bounded_control_burst: true,
            per_entry_yield: false,
        }
    }
}

/// In production every protection is in force, and each ablation switches off one of them only.
pub proof fn law_ablations_switch_off_one_protection(
    production: ProtectionProfile,
    unreserved: ProtectionProfile,
    unbounded: ProtectionProfile,
    unyielding: ProtectionProfile,
)
    requires
        call_ensures(ProtectionProfile::production, (), production),
        call_ensures(ProtectionProfile::without_class_reservations, (), unreserved),
        call_ensures(ProtectionProfile::without_bounded_control_burst, (), unbounded),
        call_ensures(ProtectionProfile::without_per_entry_yield, (), unyielding),
    ensures
        production.class_reservations && production.bounded_control_burst
            && production.per_entry_yield,
        !unreserved.class_reservations && unreserved.bounded_control_burst
            && unreserved.per_entry_yield,
        unbounded.class_reservations && !unbounded.bounded_control_burst
            && unbounded.per_entry_yield,
        unyielding.class_reservations && unyielding.bounded_control_burst
            && !unyielding.per_entry_yield,
{
}

} // verus!
