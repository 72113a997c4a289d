//! The BARs that a probe finds are those that the registers tell of.
use crate::resource::device::DiscoveredBar;
use crate::resource::hearing::all_answered;
use crate::resource::hearing::lemma_answer;
use crate::resource::hearing::lemma_preserving_read;
use crate::resource::hearing::lemma_probe_one;
use crate::resource::hearing::lemma_probe_walk;
use crate::resource::hearing::lemma_read;
use crate::resource::hearing::lemma_way;
use crate::resource::hearing::lemma_write;
use crate::resource::hearing::on_the_way;
use crate::resource::hearing::reads_in;
use crate::resource::probe::bars_probe;
use crate::resource::probe::last_vf_bus;
use crate::resource::probe::preserving_read;
use crate::resource::probe::probe_one;
use crate::resource::probe::probe_walk;
use crate::resource::probe::sriov_probe;
use crate::resource::probe::wide;
use crate::resource::session::ConfigAccess;
use crate::resource::session::Trace;
use vstd::prelude::*;

verus! {

/// What the BAR registers of a function hold, by index.
pub type Sounded = spec_fn(int) -> u32;

/// Whether the BAR registers of a function answer as registers do: with what the
/// device makes of all ones right behind a write of them, and otherwise with what they
/// hold.
pub open spec fn answers_probes(
    u: Trace,
    bus: u8,
    devfn: u8,
    base: int,
    held: Sounded,
    mask: Sounded,
) -> bool {
    forall|k: int|
        #![trigger u.log[k]]
        0 <= k < u.log.len() ==> match u.log[k] {
            ConfigAccess::Read { bus: b, devfn: d, offset } if b == bus && d == devfn && base
                <= offset < base + 24 && (offset - base) % 4 == 0 && reads_in(u.log.take(k))
                < u.responses.len() => u.responses[reads_in(u.log.take(k))] == if k > 0 && u.log[k
                - 1] == (ConfigAccess::Write { bus, devfn, offset, value: 0xFFFF_FFFF }) {
                mask((offset - base) / 4)
            } else {
                held((offset - base) / 4)
            },
            _ => true,
        }
}

/// Whether a BAR takes two registers.
pub open spec fn takes_two(mask: Sounded, max_bars: int, i: int) -> bool {
    mask(i) & 4 != 0 && i + 1 < max_bars
}

/// The number in the address bits of a BAR's registers.
pub open spec fn address_bits(values: Sounded, two: bool, i: int) -> int {
    (values(i) & !0xFu32) + if two {
        values(i + 1) * 0x1_0000_0000
    } else {
        0
    }
}

/// Whether there is a memory BAR at a register: one that is not for ports, and of
/// whose address bits some can be set.
pub open spec fn is_memory_bar(mask: Sounded, max_bars: int, i: int) -> bool {
    &&& mask(i) != 0
    &&& mask(i) & 1 == 0
    &&& address_bits(mask, takes_two(mask, max_bars, i), i) != 0
}

/// Whether a BAR is as its registers tell: its size is what the address bits that can
/// be set leave room for, in 32 or 64 bits, and the address that it held is kept if
/// it is to be preserved.
pub open spec fn is_sounded(
    bar: DiscoveredBar,
    held: Sounded,
    mask: Sounded,
    max_bars: int,
    preserve: bool,
) -> bool {
    let i = bar.index as int;
    let two = takes_two(mask, max_bars, i);
    let address = address_bits(held, two, i);
    &&& i < max_bars
    &&& is_memory_bar(mask, max_bars, i)
    &&& bar.size + address_bits(mask, two, i) == if two {
        0x1_0000_0000_0000_0000int
    } else {
        0x1_0000_0000
    }
    &&& bar.is_64bit <==> mask(i) & 4 != 0
    &&& bar.is_prefetchable <==> mask(i) & 8 != 0
    &&& bar.address is None
    &&& match bar.pinned_address {
        Some(a) => preserve && a == address && address != 0,
        None => !preserve || address == 0,
    }
}

/// Whether every memory BAR below an index is among those that were found. The
/// register behind the first one of a 64-bit BAR is its upper half.
pub open spec fn all_found(
    bars: Seq<DiscoveredBar>,
    mask: Sounded,
    max_bars: int,
    below: int,
) -> bool {
    forall|i: int|
        #![trigger mask(i)]
        0 <= i < below && i < max_bars && is_memory_bar(mask, max_bars, i) ==> exists|k: int|
            #![trigger bars[k]]
            0 <= k < bars.len() && (bars[k].index == i || (bars[k].index == i - 1
                && bars[k].is_64bit))
}

/// Two registers as one number.
pub proof fn lemma_wide(upper: u32, lower: u32)
    ensures
        wide(upper, lower) == lower + upper * 0x1_0000_0000,
{
    assert(((upper as u64) << 32u64) | (lower as u64) == (lower as u64) + (upper as u64)
        * 0x1_0000_0000u64) by (bit_vector);
}

/// A trace that does not end with a write to a BAR register.
spec fn rests(t: Trace, bus: u8, devfn: u8, base: int) -> bool {
    t.log.len() == 0 || match t.log.last() {
        ConfigAccess::Write { bus: b, devfn: d, offset, value } => !(base <= offset < base + 24),
        _ => true,
    }
}

proof fn lemma_held(
    t: Trace,
    u: Trace,
    bus: u8,
    devfn: u8,
    base: u16,
    preserve: bool,
    i: int,
    held: Sounded,
    mask: Sounded,
)
    requires
        all_answered(t),
        answers_probes(u, bus, devfn, base as int, held, mask),
        base + 24 <= 0xFFFF,
        0 <= i < 6,
        rests(t, bus, devfn, base as int),
        preserving_read(t, bus, devfn, (base + i * 4) as u16, preserve).found is Some,
        on_the_way(
            preserving_read(t, bus, devfn, (base + i * 4) as u16, preserve).trace,
            u,
        ),
    ensures
        preserve ==> preserving_read(t, bus, devfn, (base + i * 4) as u16, preserve).found
            == Some(held(i)),
        all_answered(preserving_read(t, bus, devfn, (base + i * 4) as u16, preserve).trace),
{
    let offset = (base + i * 4) as u16;
    lemma_preserving_read(t, bus, devfn, offset, preserve);
    if preserve {
        lemma_answer(t, u, bus, devfn, offset);
        let k = t.log.len() as int;
        assert((offset - base) % 4 == 0 && (offset - base) / 4 == i);
        if k > 0 {
            assert(u.log.take(k)[k - 1] == u.log[k - 1]);
        }
    }
}

proof fn lemma_masked(
    t: Trace,
    u: Trace,
    bus: u8,
    devfn: u8,
    base: u16,
    i: int,
    held: Sounded,
    mask: Sounded,
)
    requires
        all_answered(t),
        answers_probes(u, bus, devfn, base as int, held, mask),
        base + 24 <= 0xFFFF,
        0 <= i < 6,
        ({
            let offset = (base + i * 4) as u16;
            let back = t.write(bus, devfn, offset, 0xFFFF_FFFF).read(bus, devfn, offset);
            back.found is Some && on_the_way(back.trace, u)
        }),
    ensures
        ({
            let offset = (base + i * 4) as u16;
            let back = t.write(bus, devfn, offset, 0xFFFF_FFFF).read(bus, devfn, offset);
            &&& back.found == Some(mask(i))
            &&& all_answered(back.trace)
            &&& rests(back.trace, bus, devfn, base as int)
        }),
{
    let offset = (base + i * 4) as u16;
    let w = t.write(bus, devfn, offset, 0xFFFF_FFFF);
    lemma_write(t, bus, devfn, offset, 0xFFFF_FFFF);
    lemma_answer(w, u, bus, devfn, offset);
    lemma_read(w, bus, devfn, offset);
    let k = w.log.len() as int;
    assert((offset - base) % 4 == 0 && (offset - base) / 4 == i);
    assert(u.log.take(k)[k - 1] == u.log[k - 1]);
    assert(w.log.last() == (ConfigAccess::Write { bus, devfn, offset, value: 0xFFFF_FFFF }));
}

proof fn lemma_one_sounded(
    t: Trace,
    u: Trace,
    bus: u8,
    devfn: u8,
    base: u16,
    max_bars: u8,
    preserve: bool,
    i: u8,
    held: Sounded,
    mask: Sounded,
)
    requires
        all_answered(t),
        answers_probes(u, bus, devfn, base as int, held, mask),
        base + 24 <= 0xFFFF,
        i < max_bars <= 6,
        rests(t, bus, devfn, base as int),
        probe_one(t, bus, devfn, base, max_bars, preserve, i).found is Some,
        on_the_way(probe_one(t, bus, devfn, base, max_bars, preserve, i).trace, u),
    ensures
        ({
            let p = probe_one(t, bus, devfn, base, max_bars, preserve, i);
            let probed = p.found->0;
            &&& all_answered(p.trace)
            &&& rests(p.trace, bus, devfn, base as int)
            &&& match probed.bar {
                Some(bar) => bar.index == i && is_sounded(
                    bar,
                    held,
                    mask,
                    max_bars as int,
                    preserve,
                ),
                None => !is_memory_bar(mask, max_bars as int, i as int),
            }
            &&& probed.next == i + 1 || probed.next == i + 2
            &&& probed.next == i + 2 && i + 1 < max_bars ==> (probed.bar is Some
                && probed.bar->0.is_64bit) || !is_memory_bar(mask, max_bars as int, i + 1)
        }),
{
    let offset = (base + i * 4) as u16;
    let p = probe_one(t, bus, devfn, base, max_bars, preserve, i);
    let before = preserving_read(t, bus, devfn, offset, preserve);
    lemma_preserving_read(t, bus, devfn, offset, preserve);
    let w = before.trace.write(bus, devfn, offset, 0xFFFF_FFFF);
    lemma_write(before.trace, bus, devfn, offset, 0xFFFF_FFFF);
    let back = w.read(bus, devfn, offset);
    lemma_read(w, bus, devfn, offset);
    lemma_way(before.trace, w, back.trace);
    let readback = back.found->0;
    let two = !(readback == 0 || readback & 1 != 0) && readback & 4 != 0 && i + 1 < max_bars;
    if two {
        let up = (base + (i + 1) * 4) as u16;
        let before_up = preserving_read(back.trace, bus, devfn, up, preserve);
        lemma_preserving_read(back.trace, bus, devfn, up, preserve);
        let w_up = before_up.trace.write(bus, devfn, up, 0xFFFF_FFFF);
        lemma_write(before_up.trace, bus, devfn, up, 0xFFFF_FFFF);
        let back_up = w_up.read(bus, devfn, up);
        lemma_read(w_up, bus, devfn, up);
        assert(p.trace == back_up.trace);
        lemma_way(before_up.trace, w_up, back_up.trace);
        lemma_way(before_up.trace, back_up.trace, u);
        lemma_way(back.trace, before_up.trace, u);
        lemma_way(before.trace, back.trace, u);
        lemma_held(t, u, bus, devfn, base, preserve, i as int, held, mask);
        lemma_masked(before.trace, u, bus, devfn, base, i as int, held, mask);
        lemma_held(back.trace, u, bus, devfn, base, preserve, i + 1, held, mask);
        lemma_masked(before_up.trace, u, bus, devfn, base, i + 1, held, mask);
        lemma_wide(mask(i + 1), mask(i as int) & !0xFu32);
        lemma_wide(held(i + 1), held(i as int) & !0xFu32);
    } else {
        assert(p.trace == back.trace);
        lemma_way(before.trace, back.trace, u);
        lemma_held(t, u, bus, devfn, base, preserve, i as int, held, mask);
        lemma_masked(before.trace, u, bus, devfn, base, i as int, held, mask);
    }
}

proof fn lemma_walk_sounded(
    t: Trace,
    u: Trace,
    bus: u8,
    devfn: u8,
    base: u16,
    max_bars: u8,
    preserve: bool,
    i: u8,
    bars: Seq<DiscoveredBar>,
    held: Sounded,
    mask: Sounded,
)
    requires
        all_answered(t),
        answers_probes(u, bus, devfn, base as int, held, mask),
        base + 24 <= 0xFFFF,
        max_bars <= 6,
        rests(t, bus, devfn, base as int),
        probe_walk(t, bus, devfn, base, max_bars, preserve, i, bars).found is Some,
        on_the_way(probe_walk(t, bus, devfn, base, max_bars, preserve, i, bars).trace, u),
        forall|k: int|
            #![trigger bars[k]]
            0 <= k < bars.len() ==> is_sounded(bars[k], held, mask, max_bars as int, preserve),
        all_found(bars, mask, max_bars as int, i as int),
    ensures
        ({
            let r = probe_walk(t, bus, devfn, base, max_bars, preserve, i, bars).found->0;
            &&& forall|k: int|
                #![trigger r[k]]
                0 <= k < r.len() ==> is_sounded(r[k], held, mask, max_bars as int, preserve)
            &&& all_found(r, mask, max_bars as int, max_bars as int)
        }),
    decreases 256 - i,
{
    if i < max_bars {
        let p = probe_one(t, bus, devfn, base, max_bars, preserve, i);
        let probed = p.found->0;
        let next = match probed.bar {
            Some(bar) => bars.push(bar),
            None => bars,
        };
        let rest = probe_walk(p.trace, bus, devfn, base, max_bars, preserve, probed.next, next);
        lemma_probe_one(t, bus, devfn, base, max_bars, preserve, i);
        lemma_probe_walk(p.trace, bus, devfn, base, max_bars, preserve, probed.next, next);
        lemma_way(p.trace, rest.trace, u);
        lemma_one_sounded(t, u, bus, devfn, base, max_bars, preserve, i, held, mask);
        assert(all_found(next, mask, max_bars as int, probed.next as int)) by {
            assert forall|j: int|
                #![trigger mask(j)]
                0 <= j < probed.next && j < max_bars && is_memory_bar(
                    mask,
                    max_bars as int,
                    j,
                ) implies exists|k: int|
                #![trigger next[k]]
                0 <= k < next.len() && (next[k].index == j || (next[k].index == j - 1
                    && next[k].is_64bit)) by {
                if j < i {
                    let k = choose|k: int|
                        #![trigger bars[k]]
                        0 <= k < bars.len() && (bars[k].index == j || (bars[k].index == j - 1
                            && bars[k].is_64bit));
                    assert(next[k] == bars[k]);
                } else {
                    assert(probed.bar is Some);
                    assert(next[next.len() - 1] == probed.bar->0);
                }
            }
        }
        assert forall|k: int| #![trigger next[k]] 0 <= k < next.len() implies is_sounded(
            next[k],
            held,
            mask,
            max_bars as int,
            preserve,
        ) by {
            if k < bars.len() {
                assert(next[k] == bars[k]);
            }
        }
        lemma_walk_sounded(
            p.trace,
            u,
            bus,
            devfn,
            base,
            max_bars,
            preserve,
            probed.next,
            next,
            held,
            mask,
        );
    }
}

/// A probe finds the memory BARs of a function and no others, each with the size that
/// its registers leave room for, its kind, and the address that it held where that is
/// to be preserved.
pub proof fn law_bars_sounded(
    t: Trace,
    bus: u8,
    devfn: u8,
    base: u16,
    max_bars: u8,
    preserve: bool,
    held: Sounded,
    mask: Sounded,
)
    requires
        all_answered(t),
        base + 24 <= 0xFFFF,
        max_bars <= 6,
        t.log.len() == 0 || match t.log.last() {
            ConfigAccess::Write { offset, .. } => !(base <= offset < base + 24),
            _ => true,
        },
        probe_walk(t, bus, devfn, base, max_bars, preserve, 0, Seq::empty()).found is Some,
        answers_probes(
            probe_walk(t, bus, devfn, base, max_bars, preserve, 0, Seq::empty()).trace,
            bus,
            devfn,
            base as int,
            held,
            mask,
        ),
    ensures
        ({
            let r = probe_walk(
                t,
                bus,
                devfn,
                base,
                max_bars,
                preserve,
                0,
                Seq::empty(),
            ).found->0;
            &&& forall|k: int|
                #![trigger r[k]]
                0 <= k < r.len() ==> is_sounded(r[k], held, mask, max_bars as int, preserve)
            &&& all_found(r, mask, max_bars as int, max_bars as int)
        }),
{
    let u = probe_walk(t, bus, devfn, base, max_bars, preserve, 0, Seq::empty()).trace;
    crate::resource::hearing::lemma_same(u);
    lemma_walk_sounded(
        t,
        u,
        bus,
        devfn,
        base,
        max_bars,
        preserve,
        0,
        Seq::empty(),
        held,
        mask,
    );
}

/// The probe of a function looks at two BAR registers of a bridge and at six of any
/// other function, and it stops the function from decoding memory first.
pub proof fn law_function_sounded(
    t: Trace,
    bus: u8,
    devfn: u8,
    is_bridge: bool,
    preserve: bool,
    held: Sounded,
    mask: Sounded,
)
    requires
        all_answered(t),
        bars_probe(t, bus, devfn, is_bridge, preserve).found is Some,
        answers_probes(
            bars_probe(t, bus, devfn, is_bridge, preserve).trace,
            bus,
            devfn,
            0x10,
            held,
            mask,
        ),
    ensures
        ({
            let run = bars_probe(t, bus, devfn, is_bridge, preserve);
            let r = run.found->0;
            let max_bars = if is_bridge {
                2int
            } else {
                6
            };
            let n = t.log.len() as int;
            let command = t.responses[t.pos] as u16;
            &&& forall|k: int|
                #![trigger r[k]]
                0 <= k < r.len() ==> is_sounded(r[k], held, mask, max_bars, preserve)
            &&& all_found(r, mask, max_bars, max_bars)
            &&& run.trace.log.len() > n
            &&& run.trace.log[n] == (ConfigAccess::Read { bus, devfn, offset: 0x04 })
            &&& command & 2 != 0 ==> {
                &&& run.trace.log.len() > n + 1
                &&& run.trace.log[n + 1] == (ConfigAccess::Write {
                    bus,
                    devfn,
                    offset: 0x04,
                    value: (command & !2u16) as u32,
                })
            }
        }),
{
    let run = bars_probe(t, bus, devfn, is_bridge, preserve);
    let c = t.read(bus, devfn, 0x04);
    lemma_read(t, bus, devfn, 0x04);
    let cmd = c.found->0;
    let off = if (cmd as u16) & 2 != 0 {
        c.trace.write(bus, devfn, 0x04, ((cmd as u16) & !2u16) as u32)
    } else {
        c.trace
    };
    lemma_write(c.trace, bus, devfn, 0x04, ((cmd as u16) & !2u16) as u32);
    let max_bars: u8 = if is_bridge {
        2
    } else {
        6
    };
    assert(run == probe_walk(off, bus, devfn, 0x10, max_bars, preserve, 0, Seq::empty()));
    law_bars_sounded(off, bus, devfn, 0x10, max_bars, preserve, held, mask);
    lemma_probe_walk(off, bus, devfn, 0x10, max_bars, preserve, 0, Seq::empty());
    let n = t.log.len() as int;
    let start = run.trace.log.take(off.log.len() as int);
    assert(start[n] == run.trace.log[n]);
    if (cmd as u16) & 2 != 0 {
        assert(start[n + 1] == run.trace.log[n + 1]);
    }
}

/// The routing identifier of a VF, counted from zero.
pub open spec fn vf_identifier(bus: u8, devfn: u8, offset: u16, stride: u16, vf: int) -> int {
    bus * 256 + devfn + offset + stride * vf
}

/// The last bus that a VF is on: no VF is on a later one, and one is on it. There is
/// none where the identifiers of the VFs do not fit 16 bits.
pub proof fn law_last_vf_bus(bus: u8, devfn: u8, total_vfs: u16, offset: u16, stride: u16, vf: int)
    requires
        0 <= vf < total_vfs,
    ensures
        last_vf_bus(bus, devfn, total_vfs, offset, stride) matches Some(last) ==> {
            &&& vf_identifier(bus, devfn, offset, stride, vf) / 256 <= last
            &&& vf_identifier(bus, devfn, offset, stride, total_vfs - 1) / 256 == last
        },
        last_vf_bus(bus, devfn, total_vfs, offset, stride) is None <==> vf_identifier(
            bus,
            devfn,
            offset,
            stride,
            total_vfs - 1,
        ) > 0xFFFF,
{
    let (s, n) = (stride as int, total_vfs as int);
    assert(s * vf <= s * (n - 1)) by (nonlinear_arith)
        requires
            0 <= vf <= n - 1,
            s >= 0,
    ;
    assert((n - 1) * s == s * (n - 1)) by (nonlinear_arith);
}

/// The probe of an SR-IOV capability reads how many VFs there can be and where they
/// are. It finds the capability unless there are no VFs, they have no stride, or their
/// identifiers do not fit 16 bits, and it finds the BARs that the registers tell of.
pub proof fn law_sriov_sounded(
    t: Trace,
    bus: u8,
    devfn: u8,
    at: u16,
    preserve: bool,
    held: Sounded,
    mask: Sounded,
)
    requires
        all_answered(t),
        at + 0x24 + 24 <= 0xFFFF,
        sriov_probe(t, bus, devfn, Some(at), preserve).found is Some,
        answers_probes(
            sriov_probe(t, bus, devfn, Some(at), preserve).trace,
            bus,
            devfn,
            at + 0x24,
            held,
            mask,
        ),
    ensures
        ({
            let run = sriov_probe(t, bus, devfn, Some(at), preserve);
            let n = t.log.len() as int;
            let total = (t.responses[t.pos] >> 16u32) as u16;
            let (offset, stride) = (
                t.responses[t.pos + 1] as u16,
                (t.responses[t.pos + 1] >> 16u32) as u16,
            );
            let last = vf_identifier(bus, devfn, offset, stride, total - 1);
            &&& run.trace.log.len() > n
            &&& run.trace.log[n] == (ConfigAccess::Read { bus, devfn, offset: (at + 0x0C) as u16 })
            &&& total > 0 ==> run.trace.log.len() > n + 1 && run.trace.log[n + 1] == (
            ConfigAccess::Read { bus, devfn, offset: (at + 0x14) as u16 })
            &&& match run.found->0 {
                None => total == 0 || stride == 0 || last > 0xFFFF,
                Some(f) => {
                    &&& total > 0 && stride > 0 && last <= 0xFFFF
                    &&& f.total_vfs == total
                    &&& f.cap_offset == at
                    &&& f.max_vf_bus == last / 256
                    &&& forall|k: int|
                        #![trigger f.vf_bars[k]]
                        0 <= k < f.vf_bars.len() ==> is_sounded(
                            f.vf_bars[k],
                            held,
                            mask,
                            6,
                            preserve,
                        )
                    &&& all_found(f.vf_bars, mask, 6, 6)
                },
            }
        }),
{
    let run = sriov_probe(t, bus, devfn, Some(at), preserve);
    let n = t.log.len() as int;
    let first = t.read(bus, devfn, (at + 0x0C) as u16);
    lemma_read(t, bus, devfn, (at + 0x0C) as u16);
    let total = (t.responses[t.pos] >> 16u32) as u16;
    if total > 0 {
        let second = first.trace.read(bus, devfn, (at + 0x14) as u16);
        lemma_read(first.trace, bus, devfn, (at + 0x14) as u16);
        let (offset, stride) = (
            t.responses[t.pos + 1] as u16,
            (t.responses[t.pos + 1] >> 16u32) as u16,
        );
        law_last_vf_bus(bus, devfn, total, offset, stride, 0);
        let last = last_vf_bus(bus, devfn, total, offset, stride);
        if stride != 0 && last is Some {
            let base = (at + 0x24) as u16;
            let b = probe_walk(second.trace, bus, devfn, base, 6, preserve, 0, Seq::empty());
            assert(run.trace == b.trace);
            law_bars_sounded(second.trace, bus, devfn, base, 6, preserve, held, mask);
            lemma_probe_walk(second.trace, bus, devfn, base, 6, preserve, 0, Seq::empty());
            let start = run.trace.log.take(second.trace.log.len() as int);
            assert(start[n] == run.trace.log[n]);
            assert(start[n + 1] == run.trace.log[n + 1]);
        }
    }
}

}
