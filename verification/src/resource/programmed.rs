//! Which registers a device tree is programmed by.
use crate::resource::device::DiscoveredBar;
use crate::resource::device::DiscoveredDevice;
use crate::resource::listing::lemma_selector;
use crate::resource::program::all_bar_writes;
use crate::resource::program::bar_writes;
use crate::resource::program::bars_programmable;
use crate::resource::program::bridge_writes;
use crate::resource::program::devfn_of;
use crate::resource::program::device_writes;
use crate::resource::program::programmable;
use crate::resource::program::tree_writes;
use crate::resource::program::ConfigWrite;
use vstd::prelude::*;

verus! {

/// Whether the device and function numbers of a tree are in range.
pub open spec fn numbers_fit(devices: Seq<DiscoveredDevice>) -> bool
    decreases devices,
{
    forall|i: int|
        #![trigger devices[i]]
        0 <= i < devices.len() ==> devices[i].device < 32 && devices[i].function < 8
            && numbers_fit(devices[i].children@)
}

/// Whether a write goes to a register of a device.
pub open spec fn goes_to(w: ConfigWrite, dev: DiscoveredDevice, offset: int) -> bool {
    w.bus == dev.bus && w.devfn == 8 * dev.device + dev.function && w.offset == offset
}

/// Whether writes put the address of a BAR into its registers: the lower half into the
/// first, and the upper half of a 64-bit BAR into the second.
pub open spec fn puts_address(
    writes: Seq<ConfigWrite>,
    dev: DiscoveredDevice,
    base: int,
    bar: DiscoveredBar,
) -> bool {
    let address = bar.address->0;
    &&& exists|k: int|
        #![trigger writes[k]]
        0 <= k < writes.len() && goes_to(writes[k], dev, base + 4 * bar.index) && writes[k].value
            == address % 0x1_0000_0000
    &&& bar.is_64bit ==> exists|k: int|
        #![trigger writes[k]]
        0 <= k < writes.len() && goes_to(writes[k], dev, base + 4 * bar.index + 4)
            && writes[k].value == address / 0x1_0000_0000
}

/// Whether writes put the address of every BAR and VF BAR of a device tree into its
/// registers.
pub open spec fn all_put(devices: Seq<DiscoveredDevice>, writes: Seq<ConfigWrite>) -> bool
    decreases devices,
{
    forall|i: int|
        #![trigger devices[i]]
        0 <= i < devices.len() ==> {
            &&& forall|j: int|
                #![trigger devices[i].bars@[j]]
                0 <= j < devices[i].bars@.len() ==> puts_address(
                    writes,
                    devices[i],
                    0x10,
                    devices[i].bars@[j],
                )
            &&& devices[i].sriov is Some ==> forall|j: int|
                #![trigger devices[i].sriov->0.vf_bars@[j]]
                0 <= j < devices[i].sriov->0.vf_bars@.len() ==> puts_address(
                    writes,
                    devices[i],
                    devices[i].sriov->0.cap_offset + 0x24,
                    devices[i].sriov->0.vf_bars@[j],
                )
            &&& all_put(devices[i].children@, writes)
        }
}

/// Whether an offset is that of a register of one of some BARs.
pub open spec fn is_register(bars: Seq<DiscoveredBar>, base: int, offset: int) -> bool {
    exists|j: int|
        #![trigger bars[j]]
        0 <= j < bars.len() && (offset == base + 4 * bars[j].index || (bars[j].is_64bit && offset
            == base + 4 * bars[j].index + 4))
}

/// Whether a write is one for a device: to a register of one of its BARs or VF BARs,
/// or of the windows of a bridge.
pub open spec fn is_own(w: ConfigWrite, dev: DiscoveredDevice) -> bool {
    &&& goes_to(w, dev, w.offset as int)
    &&& {
        ||| is_register(dev.bars@, 0x10, w.offset as int)
        ||| dev.sriov is Some && is_register(
            dev.sriov->0.vf_bars@,
            dev.sriov->0.cap_offset + 0x24,
            w.offset as int,
        )
        ||| dev.is_bridge && (w.offset == 0x1C || w.offset == 0x20 || w.offset == 0x24 || w.offset
            == 0x28 || w.offset == 0x2C)
    }
}

/// Whether a write is one for a device of a tree.
pub open spec fn is_for(w: ConfigWrite, devices: Seq<DiscoveredDevice>) -> bool
    decreases devices,
{
    exists|i: int|
        #![trigger devices[i]]
        0 <= i < devices.len() && (is_own(w, devices[i]) || is_for(w, devices[i].children@))
}

proof fn lemma_address_halves(address: u64)
    ensures
        address as u32 == address % 0x1_0000_0000,
        (address >> 32u64) as u32 == address / 0x1_0000_0000,
{
    assert(address as u32 == address % 0x1_0000_0000u64 && (address >> 32u64) as u32 == address
        / 0x1_0000_0000u64) by (bit_vector);
}

proof fn lemma_bars_put(
    dev: DiscoveredDevice,
    base: u16,
    bars: Seq<DiscoveredBar>,
    all: Seq<ConfigWrite>,
)
    requires
        dev.device < 32,
        dev.function < 8,
        bars_programmable(base as int, bars),
        forall|w: ConfigWrite|
            #![trigger all.contains(w)]
            all_bar_writes(
                dev.bus,
                devfn_of(dev.device, dev.function),
                base,
                bars,
            ).contains(w) ==> all.contains(w),
    ensures
        forall|j: int|
            #![trigger bars[j]]
            0 <= j < bars.len() ==> puts_address(all, dev, base as int, bars[j]),
        forall|w: ConfigWrite| #[trigger]
            all_bar_writes(
                dev.bus,
                devfn_of(dev.device, dev.function),
                base,
                bars,
            ).contains(w) ==> goes_to(w, dev, w.offset as int) && is_register(
                bars,
                base as int,
                w.offset as int,
            ),
    decreases bars.len(),
{
    let devfn = devfn_of(dev.device, dev.function);
    let writes = all_bar_writes(dev.bus, devfn, base, bars);
    lemma_selector(dev.device, dev.function);
    if bars.len() > 0 {
        let init = bars.drop_last();
        let bar = bars[bars.len() - 1];
        let old_part = all_bar_writes(dev.bus, devfn, base, init);
        let own = bar_writes(dev.bus, devfn, base, bar);
        assert(writes == old_part + own);
        assert forall|j: int| #![trigger init[j]] 0 <= j < init.len() implies init[j]
            == bars[j] by {}
        assert forall|w: ConfigWrite| #![trigger all.contains(w)] old_part.contains(
            w,
        ) implies all.contains(w) by {
            let k = choose|k: int| 0 <= k < old_part.len() && old_part[k] == w;
            assert(writes[k] == w);
        }
        lemma_bars_put(dev, base, init, all);
        lemma_address_halves(bar.address->0);
        let offset = (base + bar.index * 4) as u16;
        assert(bar.address is Some && base + bar.index * 4 + 4 <= u16::MAX);
        assert(own[0].offset == offset);
        assert(writes[old_part.len() as int] == own[0]);
        assert(writes.contains(own[0]));
        assert(all.contains(own[0]));
        let k = choose|k: int| 0 <= k < all.len() && all[k] == own[0];
        assert(goes_to(all[k], dev, base + 4 * bar.index));
        if bar.is_64bit {
            assert(writes[(old_part.len() + 1) as int] == own[1]);
            assert(writes.contains(own[1]));
            assert(all.contains(own[1]));
            let k = choose|k: int| 0 <= k < all.len() && all[k] == own[1];
            assert(goes_to(all[k], dev, base + 4 * bar.index + 4));
        }
        assert forall|j: int| #![trigger bars[j]] 0 <= j < bars.len() implies puts_address(
            all,
            dev,
            base as int,
            bars[j],
        ) by {
            if j < init.len() {
                assert(init[j] == bars[j]);
            }
        }
        assert forall|w: ConfigWrite| #[trigger]
            writes.contains(w) implies goes_to(w, dev, w.offset as int) && is_register(
            bars,
            base as int,
            w.offset as int,
        ) by {
            let k = choose|k: int| 0 <= k < writes.len() && writes[k] == w;
            if k < old_part.len() {
                assert(old_part[k] == w);
                assert(old_part.contains(w));
                assert(goes_to(w, dev, w.offset as int));
                let j = choose|j: int|
                    #![trigger init[j]]
                    0 <= j < init.len() && (w.offset == base + 4 * init[j].index || (
                    init[j].is_64bit && w.offset == base + 4 * init[j].index + 4));
                assert(init[j] == bars[j]);
            } else {
                assert(w == own[k - old_part.len()]);
                assert(bars[bars.len() - 1] == bar);
            }
        }
    }
}

proof fn lemma_all_put(devices: Seq<DiscoveredDevice>, all: Seq<ConfigWrite>)
    requires
        programmable(devices),
        numbers_fit(devices),
        forall|w: ConfigWrite|
            #![trigger all.contains(w)]
            tree_writes(devices).contains(w) ==> all.contains(w),
    ensures
        all_put(devices, all),
        forall|w: ConfigWrite|
            #![trigger is_for(w, devices)]
            tree_writes(devices).contains(w) ==> is_for(w, devices),
    decreases devices,
{
    if devices.len() > 0 {
        let init = devices.drop_last();
        let n = devices.len() - 1;
        let dev = devices[n];
        let writes = tree_writes(devices);
        let a = tree_writes(init);
        let b = device_writes(dev);
        let c = tree_writes(dev.children@);
        assert(writes == a + b + c);
        assert forall|i: int| #![trigger init[i]] 0 <= i < init.len() implies init[i]
            == devices[i] by {}
        assert forall|w: ConfigWrite| #![trigger all.contains(w)] (a.contains(w) || b.contains(w)
            || c.contains(w)) implies all.contains(w) by {
            if a.contains(w) {
                let k = choose|k: int| 0 <= k < a.len() && a[k] == w;
                assert(writes[k] == w);
            } else if b.contains(w) {
                let k = choose|k: int| 0 <= k < b.len() && b[k] == w;
                assert(writes[a.len() + k] == w);
            } else {
                let k = choose|k: int| 0 <= k < c.len() && c[k] == w;
                assert(writes[a.len() + b.len() + k] == w);
            }
            assert(writes.contains(w));
        }
        lemma_all_put(init, all);
        assert(decreases_to!(devices => dev.children@));
        lemma_all_put(dev.children@, all);
        let devfn = devfn_of(dev.device, dev.function);
        let own = all_bar_writes(dev.bus, devfn, 0x10, dev.bars@);
        assert forall|w: ConfigWrite| #![trigger all.contains(w)] own.contains(
            w,
        ) implies all.contains(w) by {
            let k = choose|k: int| 0 <= k < own.len() && own[k] == w;
            assert(b[k] == w);
            assert(b.contains(w));
        }
        lemma_bars_put(dev, 0x10, dev.bars@, all);
        if dev.sriov is Some {
            let base = (dev.sriov->0.cap_offset + 0x24) as u16;
            let vfs = all_bar_writes(dev.bus, devfn, base, dev.sriov->0.vf_bars@);
            assert forall|w: ConfigWrite| #![trigger all.contains(w)] vfs.contains(
                w,
            ) implies all.contains(w) by {
                let k = choose|k: int| 0 <= k < vfs.len() && vfs[k] == w;
                assert(b[own.len() + k] == w);
                assert(b.contains(w));
            }
            lemma_bars_put(dev, base, dev.sriov->0.vf_bars@, all);
        }
        assert forall|i: int| #![trigger devices[i]] 0 <= i < devices.len() implies {
            &&& forall|j: int|
                #![trigger devices[i].bars@[j]]
                0 <= j < devices[i].bars@.len() ==> puts_address(
                    all,
                    devices[i],
                    0x10,
                    devices[i].bars@[j],
                )
            &&& devices[i].sriov is Some ==> forall|j: int|
                #![trigger devices[i].sriov->0.vf_bars@[j]]
                0 <= j < devices[i].sriov->0.vf_bars@.len() ==> puts_address(
                    all,
                    devices[i],
                    devices[i].sriov->0.cap_offset + 0x24,
                    devices[i].sriov->0.vf_bars@[j],
                )
            &&& all_put(devices[i].children@, all)
        } by {
            if i < n {
                assert(init[i] == devices[i]);
            }
        }
        assert forall|w: ConfigWrite| #![trigger is_for(w, devices)] writes.contains(
            w,
        ) implies is_for(w, devices) by {
            let k = choose|k: int| 0 <= k < writes.len() && writes[k] == w;
            if k < a.len() {
                assert(a[k] == w);
                assert(a.contains(w));
                assert(is_for(w, init));
                let i = choose|i: int|
                    #![trigger init[i]]
                    0 <= i < init.len() && (is_own(w, init[i]) || is_for(w, init[i].children@));
                assert(devices[i] == init[i]);
            } else if k < a.len() + b.len() {
                lemma_own(dev, w, k - a.len());
                assert(devices[n] == dev);
            } else {
                assert(c[k - a.len() - b.len()] == w);
                assert(c.contains(w));
                assert(is_for(w, dev.children@));
                assert(devices[n] == dev);
            }
        }
    }
}

proof fn lemma_own(dev: DiscoveredDevice, w: ConfigWrite, k: int)
    requires
        dev.device < 32,
        dev.function < 8,
        bars_programmable(0x10, dev.bars@),
        dev.sriov is Some ==> bars_programmable(
            dev.sriov->0.cap_offset + 0x24,
            dev.sriov->0.vf_bars@,
        ) && dev.sriov->0.cap_offset + 0x24 <= u16::MAX,
        0 <= k < device_writes(dev).len(),
        device_writes(dev)[k] == w,
    ensures
        is_own(w, dev),
{
    let devfn = devfn_of(dev.device, dev.function);
    lemma_selector(dev.device, dev.function);
    let own = all_bar_writes(dev.bus, devfn, 0x10, dev.bars@);
    let vfs = match dev.sriov {
        Some(sriov) => all_bar_writes(
            dev.bus,
            devfn,
            (sriov.cap_offset + 0x24) as u16,
            sriov.vf_bars@,
        ),
        None => Seq::empty(),
    };
    let windows = if dev.is_bridge {
        bridge_writes(dev)
    } else {
        Seq::empty()
    };
    assert(device_writes(dev) == own + vfs + windows);
    if k < own.len() {
        assert(own[k] == w);
        assert(own.contains(w));
        lemma_bars_put(dev, 0x10, dev.bars@, own);
        assert(goes_to(w, dev, w.offset as int));
    } else if k < own.len() + vfs.len() {
        assert(vfs[k - own.len()] == w);
        assert(vfs.contains(w));
        let base = (dev.sriov->0.cap_offset + 0x24) as u16;
        lemma_bars_put(dev, base, dev.sriov->0.vf_bars@, vfs);
        assert(goes_to(w, dev, w.offset as int));
    } else {
        assert(windows[k - own.len() - vfs.len()] == w);
        assert(goes_to(w, dev, w.offset as int));
    }
}

/// Programming puts the address of every BAR and VF BAR of the tree into its registers,
/// and it writes to these registers and those of bridge windows alone: command
/// registers are left as they are.
pub proof fn law_programmed(devices: Seq<DiscoveredDevice>, w: ConfigWrite)
    requires
        programmable(devices),
        numbers_fit(devices),
    ensures
        all_put(devices, tree_writes(devices)),
        tree_writes(devices).contains(w) ==> is_for(w, devices),
        tree_writes(devices).contains(w) ==> w.offset >= 0x10,
{
    lemma_all_put(devices, tree_writes(devices));
    if tree_writes(devices).contains(w) {
        assert(is_for(w, devices));
        lemma_not_command(devices, w);
    }
}

proof fn lemma_not_command(devices: Seq<DiscoveredDevice>, w: ConfigWrite)
    requires
        is_for(w, devices),
    ensures
        w.offset >= 0x10,
    decreases devices,
{
    let i = choose|i: int|
        #![trigger devices[i]]
        0 <= i < devices.len() && (is_own(w, devices[i]) || is_for(w, devices[i].children@));
    if !is_own(w, devices[i]) {
        assert(decreases_to!(devices => devices[i].children@));
        lemma_not_command(devices[i].children@, w);
    }
}

}
