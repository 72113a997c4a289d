//! Finding a capability of a kind.
use crate::capabilities::kinds::Capability;
use crate::capabilities::kinds::ExtendedCapability;
use vstd::prelude::*;

verus! {

/// The first PCI Express capability, from one on.
pub open spec fn pcie_index(caps: Seq<Capability>, i: int) -> Option<int>
    decreases caps.len() - i,
{
    if i >= caps.len() {
        None
    } else if caps[i] is PciExpress {
        Some(i)
    } else {
        pcie_index(caps, i + 1)
    }
}

/// The first MSI capability, from one on.
pub open spec fn msi_index(caps: Seq<Capability>, i: int) -> Option<int>
    decreases caps.len() - i,
{
    if i >= caps.len() {
        None
    } else if caps[i] is Msi {
        Some(i)
    } else {
        msi_index(caps, i + 1)
    }
}

/// The first AER capability, from one on.
pub open spec fn aer_index(caps: Seq<ExtendedCapability>, i: int) -> Option<int>
    decreases caps.len() - i,
{
    if i >= caps.len() {
        None
    } else if caps[i] is Aer {
        Some(i)
    } else {
        aer_index(caps, i + 1)
    }
}

/// The first DPC capability, from one on.
pub open spec fn dpc_index(caps: Seq<ExtendedCapability>, i: int) -> Option<int>
    decreases caps.len() - i,
{
    if i >= caps.len() {
        None
    } else if caps[i] is Dpc {
        Some(i)
    } else {
        dpc_index(caps, i + 1)
    }
}

/// Whether an index that is returned is one that is described.
pub open spec fn same_index(r: Option<usize>, i: Option<int>) -> bool {
    match i {
        Some(i) => r == Some(i as usize) && 0 <= i <= usize::MAX,
        None => r is None,
    }
}

/// Finds the first PCI Express capability.
pub fn find_pcie(caps: &Vec<Capability>) -> (r: Option<usize>)
    ensures
        same_index(r, pcie_index(caps@, 0)),
        r matches Some(i) ==> i < caps.len() && caps@[i as int] is PciExpress,
{
    let mut i: usize = 0;
    while i < caps.len()
        invariant
            i <= caps.len(),
            pcie_index(caps@, 0) == pcie_index(caps@, i as int),
        decreases caps.len() - i,
    {
        if let Capability::PciExpress(_) = caps[i] {
            return Some(i);
        }
        i = i + 1;
    }
    None
}

/// Finds the first MSI capability.
pub fn find_msi(caps: &Vec<Capability>) -> (r: Option<usize>)
    ensures
        same_index(r, msi_index(caps@, 0)),
        r matches Some(i) ==> i < caps.len() && caps@[i as int] is Msi,
{
    let mut i: usize = 0;
    while i < caps.len()
        invariant
            i <= caps.len(),
            msi_index(caps@, 0) == msi_index(caps@, i as int),
        decreases caps.len() - i,
    {
        if let Capability::Msi(_) = caps[i] {
            return Some(i);
        }
        i = i + 1;
    }
    None
}

/// Finds the first AER capability.
pub fn find_aer(caps: &Vec<ExtendedCapability>) -> (r: Option<usize>)
    ensures
        same_index(r, aer_index(caps@, 0)),
        r matches Some(i) ==> i < caps.len() && caps@[i as int] is Aer,
{
    let mut i: usize = 0;
    while i < caps.len()
        invariant
            i <= caps.len(),
            aer_index(caps@, 0) == aer_index(caps@, i as int),
        decreases caps.len() - i,
    {
        if let ExtendedCapability::Aer(_) = caps[i] {
            return Some(i);
        }
        i = i + 1;
    }
    None
}

/// Finds the first DPC capability.
pub fn find_dpc(caps: &Vec<ExtendedCapability>) -> (r: Option<usize>)
    ensures
        same_index(r, dpc_index(caps@, 0)),
        r matches Some(i) ==> i < caps.len() && caps@[i as int] is Dpc,
{
    let mut i: usize = 0;
    while i < caps.len()
        invariant
            i <= caps.len(),
            dpc_index(caps@, 0) == dpc_index(caps@, i as int),
        decreases caps.len() - i,
    {
        if let ExtendedCapability::Dpc(_) = caps[i] {
            return Some(i);
        }
        i = i + 1;
    }
    None
}

/// An index that is described is one of a capability of the kind.
pub proof fn lemma_indices(caps: Seq<Capability>, exts: Seq<ExtendedCapability>, i: int)
    requires
        0 <= i,
    ensures
        pcie_index(caps, i) matches Some(k) ==> i <= k < caps.len() && caps[k] is PciExpress,
        msi_index(caps, i) matches Some(k) ==> i <= k < caps.len() && caps[k] is Msi,
        aer_index(exts, i) matches Some(k) ==> i <= k < exts.len() && exts[k] is Aer,
        dpc_index(exts, i) matches Some(k) ==> i <= k < exts.len() && exts[k] is Dpc,
    decreases caps.len() + exts.len() - i,
{
    if i < caps.len() || i < exts.len() {
        lemma_indices(caps, exts, i + 1);
    }
}

}
