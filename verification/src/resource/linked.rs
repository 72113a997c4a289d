//! Capabilities that are found are those that the lists of a function lead to.
use crate::regs::DEVICE_VENDOR;
use crate::regs::EXT_CAP_ID_ARI;
use crate::regs::EXT_CAP_START;
use crate::resource::hearing::all_answered;
use crate::resource::hearing::lemma_answer;
use crate::resource::hearing::lemma_ari_walk;
use crate::resource::hearing::lemma_ext_cap_walk;
use crate::resource::hearing::lemma_pcie_cap_walk;
use crate::resource::hearing::lemma_read;
use crate::resource::hearing::lemma_same;
use crate::resource::hearing::lemma_way;
use crate::resource::hearing::on_the_way;
use crate::resource::hearing::reads_in;
use crate::resource::session::ConfigAccess;
use crate::resource::session::Trace;
use crate::resource::walk::ari_functions;
use crate::resource::walk::ari_walk;
use crate::resource::walk::byte_read;
use crate::resource::walk::ext_cap;
use crate::resource::walk::ext_cap_walk;
use crate::resource::walk::next_ext_cap;
use crate::resource::walk::pcie_cap_walk;
use vstd::prelude::*;

verus! {

/// What the dwords of a function's config space hold, by offset.
pub type Space = spec_fn(u16) -> u32;

/// Whether every read of a function was answered with what its config space holds.
pub open spec fn answers(u: Trace, bus: u8, devfn: u8, space: Space) -> bool {
    forall|k: int|
        #![trigger u.log[k]]
        0 <= k < u.log.len() ==> match u.log[k] {
            ConfigAccess::Read { bus: b, devfn: d, offset } if b == bus && d == devfn && reads_in(
                u.log.take(k),
            ) < u.responses.len() => u.responses[reads_in(u.log.take(k))] == space(offset),
            _ => true,
        }
}

/// Whether there is an extended capability at an offset.
pub open spec fn has_header(space: Space, at: u16) -> bool {
    space(at) != 0 && space(at) != 0xFFFF_FFFF
}

/// Whether one extended capability points to another, behind it: bits 20 to 31 of its
/// header, without the lowest two of them, are the offset of the next.
pub open spec fn points_to(space: Space, at: u16, next: u16) -> bool {
    &&& has_header(space, at)
    &&& next == ((space(at) >> 20u32) & 0xFFC) as u16
    &&& next > at
}

/// Whether offsets are those of extended capabilities of which each points to the
/// next.
pub open spec fn is_chain(space: Space, path: Seq<u16>) -> bool {
    &&& path.len() > 0
    &&& path[0] >= 0x100
    &&& path[0] & 0x3u16 == 0
    &&& forall|k: int|
        #![trigger path[k]]
        0 < k < path.len() ==> points_to(space, path[k - 1], path[k]) && path[k] >= 0x100
            && path[k] & 0x3u16 == 0
}

/// Whether there is an extended capability of a kind at an offset.
pub open spec fn is_kind(space: Space, id: u16, at: u16) -> bool {
    has_header(space, at) && (space(at) & 0xFFFF) as u16 == id
}

proof fn lemma_space(t: Trace, u: Trace, bus: u8, devfn: u8, offset: u16, space: Space)
    requires
        all_answered(t),
        answers(u, bus, devfn, space),
        t.read(bus, devfn, offset).found is Some,
        on_the_way(t.read(bus, devfn, offset).trace, u),
    ensures
        t.read(bus, devfn, offset).found == Some(space(offset)),
        all_answered(t.read(bus, devfn, offset).trace),
{
    lemma_answer(t, u, bus, devfn, offset);
    lemma_read(t, bus, devfn, offset);
}

proof fn lemma_ext_linked(
    t: Trace,
    u: Trace,
    bus: u8,
    devfn: u8,
    id: u16,
    offset: u16,
    space: Space,
    before: Seq<u16>,
)
    requires
        all_answered(t),
        answers(u, bus, devfn, space),
        ext_cap_walk(t, bus, devfn, id, offset).found is Some,
        on_the_way(ext_cap_walk(t, bus, devfn, id, offset).trace, u),
        offset >= 0x100 && offset & 0x3u16 == 0 ==> is_chain(space, before.push(offset)),
        forall|k: int|
            #![trigger before[k]]
            0 <= k < before.len() ==> !is_kind(space, id, before[k]),
    ensures
        match ext_cap_walk(t, bus, devfn, id, offset).found->0 {
            Some(at) => {
                &&& is_kind(space, id, at)
                &&& exists|path: Seq<u16>|
                    #![trigger is_chain(space, path)]
                    {
                        &&& is_chain(space, path)
                        &&& path.len() > before.len()
                        &&& path.take(before.len() as int) == before
                        &&& path[before.len() as int] == offset
                        &&& path.last() == at
                        &&& forall|k: int|
                            #![trigger path[k]]
                            0 <= k < path.len() - 1 ==> !is_kind(space, id, path[k])
                    }
            },
            None => forall|path: Seq<u16>|
                #![trigger is_chain(space, path)]
                is_chain(space, path) && path[0] == offset ==> !is_kind(space, id, path.last()),
        },
    decreases 0x1_0000 - offset,
{
    if !(offset < EXT_CAP_START || offset & 0x3u16 != 0) {
        let h = t.read(bus, devfn, offset);
        lemma_read(t, bus, devfn, offset);
        let header = h.found->0;
        let goes = !(header == 0 || header == 0xFFFF_FFFF) && (header & 0xFFFF) as u16 != id && !(
        next_ext_cap(header) == 0 || next_ext_cap(header) <= offset);
        let next = next_ext_cap(header);
        if goes {
            let rest = ext_cap_walk(h.trace, bus, devfn, id, next);
            lemma_ext_cap_walk(h.trace, bus, devfn, id, next);
            lemma_way(h.trace, rest.trace, u);
        }
        lemma_space(t, u, bus, devfn, offset, space);
        let here = before.push(offset);
        if goes {
            if next >= 0x100 && next & 0x3u16 == 0 {
                let there = here.push(next);
                assert(is_chain(space, there)) by {
                    assert forall|k: int| #![trigger there[k]] 0 < k < there.len() implies points_to(
                        space,
                        there[k - 1],
                        there[k],
                    ) && there[k] >= 0x100 && there[k] & 0x3u16 == 0 by {
                        if k < here.len() {
                            assert(there[k] == here[k] && there[k - 1] == here[k - 1]);
                        } else {
                            assert(there[k - 1] == offset);
                        }
                    }
                    assert(there[0] == here[0]);
                }
            }
            assert forall|k: int| #![trigger here[k]] 0 <= k < here.len() implies !is_kind(
                space,
                id,
                here[k],
            ) by {
                if k < before.len() {
                    assert(here[k] == before[k]);
                }
            }
            lemma_ext_linked(h.trace, u, bus, devfn, id, next, space, here);
            let found = ext_cap_walk(h.trace, bus, devfn, id, next).found->0;
            match found {
                Some(at) => {
                    let path = choose|path: Seq<u16>|
                        #![trigger is_chain(space, path)]
                        {
                            &&& is_chain(space, path)
                            &&& path.len() > here.len()
                            &&& path.take(here.len() as int) == here
                            &&& path[here.len() as int] == next
                            &&& path.last() == at
                            &&& forall|k: int|
                                #![trigger path[k]]
                                0 <= k < path.len() - 1 ==> !is_kind(space, id, path[k])
                        };
                    assert(path.take(before.len() as int) =~= path.take(here.len() as int).take(
                        before.len() as int,
                    ));
                    assert(here.take(before.len() as int) =~= before);
                    let n = before.len() as int;
                    assert(path[n] == path.take(here.len() as int)[n]);
                },
                None => {
                    assert forall|path: Seq<u16>|
                        #![trigger is_chain(space, path)]
                        is_chain(space, path) && path[0] == offset implies !is_kind(
                        space,
                        id,
                        path.last(),
                    ) by {
                        if path.len() > 1 {
                            let rest = path.drop_first();
                            assert(points_to(space, path[0], path[1]));
                            assert(is_chain(space, rest)) by {
                                assert forall|k: int|
                                    #![trigger rest[k]]
                                    0 < k < rest.len() implies points_to(
                                    space,
                                    rest[k - 1],
                                    rest[k],
                                ) && rest[k] >= 0x100 && rest[k] & 0x3u16 == 0 by {
                                    assert(rest[k] == path[k + 1] && rest[k - 1] == path[k]);
                                }
                            }
                            assert(rest[0] == next);
                            assert(rest.last() == path.last());
                        }
                    }
                },
            }
        } else if ext_cap_walk(t, bus, devfn, id, offset).found->0 is Some {
            assert(here.take(before.len() as int) =~= before);
            assert forall|k: int| #![trigger here[k]] 0 <= k < here.len() - 1 implies !is_kind(
                space,
                id,
                here[k],
            ) by {
                assert(here[k] == before[k]);
            }
            assert(is_chain(space, here));
        } else {
            assert forall|path: Seq<u16>|
                #![trigger is_chain(space, path)]
                is_chain(space, path) && path[0] == offset implies !is_kind(
                space,
                id,
                path.last(),
            ) by {
                if path.len() > 1 {
                    assert(points_to(space, path[0], path[1]));
                }
            }
        }
    }
}

/// The extended capability that is found is the first of its kind on the list that
/// starts at 0x100, and none is found only where the list leads to none.
pub proof fn law_extended_found(t: Trace, bus: u8, devfn: u8, id: u16, space: Space)
    requires
        all_answered(t),
        ext_cap(t, bus, devfn, id).found is Some,
        answers(ext_cap(t, bus, devfn, id).trace, bus, devfn, space),
    ensures
        match ext_cap(t, bus, devfn, id).found->0 {
            Some(at) => {
                &&& is_kind(space, id, at)
                &&& exists|path: Seq<u16>|
                    #![trigger is_chain(space, path)]
                    {
                        &&& is_chain(space, path)
                        &&& path[0] == 0x100
                        &&& path.last() == at
                        &&& forall|k: int|
                            #![trigger path[k]]
                            0 <= k < path.len() - 1 ==> !is_kind(space, id, path[k])
                    }
            },
            None => forall|path: Seq<u16>|
                #![trigger is_chain(space, path)]
                is_chain(space, path) && path[0] == 0x100 ==> !is_kind(space, id, path.last()),
        },
{
    let u = ext_cap(t, bus, devfn, id).trace;
    lemma_same(u);
    let none = Seq::<u16>::empty();
    if 0x100u16 & 0x3u16 == 0 {
        assert(is_chain(space, none.push(0x100)));
    }
    lemma_ext_linked(t, u, bus, devfn, id, 0x100, space, none);
}

/// The byte at an offset.
pub open spec fn byte_at(space: Space, at: u16) -> u8 {
    (space(at & !0x3u16) >> (((at & 0x3u16) * 8) as u32)) as u8
}

proof fn lemma_byte(t: Trace, u: Trace, bus: u8, devfn: u8, offset: u16, space: Space)
    requires
        all_answered(t),
        answers(u, bus, devfn, space),
        byte_read(t, bus, devfn, offset).found is Some,
        on_the_way(byte_read(t, bus, devfn, offset).trace, u),
    ensures
        byte_read(t, bus, devfn, offset).found == Some(byte_at(space, offset)),
        all_answered(byte_read(t, bus, devfn, offset).trace),
{
    lemma_space(t, u, bus, devfn, offset & !0x3u16, space);
}

/// Whether offsets are those of capabilities of which each points to the next, in the
/// byte behind its identifier.
pub open spec fn is_list(space: Space, path: Seq<u16>) -> bool {
    &&& path.len() > 0
    &&& forall|k: int|
        #![trigger path[k]]
        0 <= k < path.len() ==> 0x40 <= path[k] && path[k] != 0xFF && (k > 0 ==> path[k]
            == byte_at(space, (path[k - 1] + 1) as u16))
}

/// The PCI Express capability that is found is on the list of capabilities that it is
/// looked for on, and none is found only where the list leads to none in as many steps
/// as are taken.
pub proof fn law_express_found(
    t: Trace,
    u: Trace,
    bus: u8,
    devfn: u8,
    ptr: u16,
    steps: nat,
    space: Space,
)
    requires
        all_answered(t),
        answers(u, bus, devfn, space),
        pcie_cap_walk(t, bus, devfn, ptr, steps).found is Some,
        on_the_way(pcie_cap_walk(t, bus, devfn, ptr, steps).trace, u),
    ensures
        match pcie_cap_walk(t, bus, devfn, ptr, steps).found->0 {
            Some(at) => {
                &&& byte_at(space, at) == 0x10
                &&& exists|path: Seq<u16>|
                    #![trigger is_list(space, path)]
                    is_list(space, path) && path[0] == ptr && path.last() == at && path.len()
                        <= steps
            },
            None => forall|path: Seq<u16>|
                #![trigger is_list(space, path)]
                is_list(space, path) && path[0] == ptr && path.len() <= steps ==> byte_at(
                    space,
                    path.last(),
                ) != 0x10,
        },
    decreases steps,
{
    if !(steps == 0 || ptr < 0x40 || ptr == 0xFF) {
        let id = byte_read(t, bus, devfn, ptr);
        let cap_id = id.found->0;
        if cap_id == 0x10 {
            lemma_byte(t, u, bus, devfn, ptr, space);
            let path = seq![ptr];
            assert(is_list(space, path));
            assert(path[0] == ptr && path.last() == ptr);
        } else {
            let n = byte_read(id.trace, bus, devfn, (ptr + 1) as u16);
            let p = n.found->0 as u16;
            let rest = pcie_cap_walk(n.trace, bus, devfn, p, (steps - 1) as nat);
            lemma_pcie_cap_walk(n.trace, bus, devfn, p, (steps - 1) as nat);
            lemma_way(n.trace, rest.trace, u);
            lemma_read(id.trace, bus, devfn, (ptr + 1) as u16 & !0x3u16);
            lemma_way(id.trace, n.trace, u);
            lemma_byte(t, u, bus, devfn, ptr, space);
            lemma_byte(id.trace, u, bus, devfn, (ptr + 1) as u16, space);
            law_express_found(n.trace, u, bus, devfn, p, (steps - 1) as nat, space);
            match rest.found->0 {
                Some(at) => {
                    let path = choose|path: Seq<u16>|
                        #![trigger is_list(space, path)]
                        is_list(space, path) && path[0] == p && path.last() == at && path.len()
                            <= steps - 1;
                    let whole = seq![ptr] + path;
                    assert(is_list(space, whole)) by {
                        assert forall|k: int| #![trigger whole[k]] 0 <= k < whole.len() implies 0x40
                            <= whole[k] && whole[k] != 0xFF && (k > 0 ==> whole[k] == byte_at(
                            space,
                            (whole[k - 1] + 1) as u16,
                        )) by {
                            if k > 0 {
                                assert(whole[k] == path[k - 1]);
                                if k > 1 {
                                    assert(whole[k - 1] == path[k - 2]);
                                }
                            }
                        }
                    }
                    assert(whole[0] == ptr && whole.last() == at);
                },
                None => {
                    assert forall|path: Seq<u16>|
                        #![trigger is_list(space, path)]
                        is_list(space, path) && path[0] == ptr && path.len()
                            <= steps implies byte_at(space, path.last()) != 0x10 by {
                        if path.len() > 1 {
                            let tail = path.drop_first();
                            assert(path[1] == byte_at(space, (path[0] + 1) as u16));
                            assert(is_list(space, tail)) by {
                                assert forall|k: int|
                                    #![trigger tail[k]]
                                    0 <= k < tail.len() implies 0x40 <= tail[k] && tail[k] != 0xFF
                                    && (k > 0 ==> tail[k] == byte_at(
                                    space,
                                    (tail[k - 1] + 1) as u16,
                                )) by {
                                    assert(tail[k] == path[k + 1]);
                                    if k > 0 {
                                        assert(tail[k - 1] == path[k]);
                                    }
                                }
                            }
                            assert(tail[0] == p);
                            assert(tail.last() == path.last());
                        }
                    }
                },
            }
        }
    }
}

/// What the dwords of the functions of a device hold, by function number.
pub type Functions = spec_fn(u8) -> Space;

/// Whether a function of an ARI device is there.
pub open spec fn answers_at_all(functions: Functions, f: u8) -> bool {
    functions(f)(0x00) != 0xFFFF_FFFF
}

/// Whether a function of an ARI device names another as the next: in bits 8 to 15 of
/// the register of its ARI capability.
pub open spec fn names_next(functions: Functions, f: u8, next: u8) -> bool {
    exists|path: Seq<u16>|
        #![trigger is_chain(functions(f), path)]
        {
            &&& is_chain(functions(f), path)
            &&& path[0] == 0x100
            &&& is_kind(functions(f), 0x000E, path.last())
            &&& next == (functions(f)((path.last() + 4) as u16) >> 8u32) as u8
        }
}

/// Whether a function has no ARI capability.
pub open spec fn names_none(functions: Functions, f: u8) -> bool {
    forall|path: Seq<u16>|
        #![trigger is_chain(functions(f), path)]
        is_chain(functions(f), path) && path[0] == 0x100 ==> !is_kind(
            functions(f),
            0x000E,
            path.last(),
        )
}

/// Whether function numbers are those that the functions of an ARI device name, one
/// after the other and by increasing number, each of a function that is there.
pub open spec fn is_ari_list(functions: Functions, list: Seq<u8>) -> bool {
    forall|i: int|
        #![trigger list[i]]
        0 <= i < list.len() ==> {
            &&& answers_at_all(functions, list[i])
            &&& i == 0 ==> list[i] == 0
            &&& i > 0 ==> list[i - 1] < list[i] && names_next(functions, list[i - 1], list[i])
        }
}

proof fn lemma_ari_listed(
    t: Trace,
    u: Trace,
    bus: u8,
    func: u8,
    steps: nat,
    list: Seq<u8>,
    functions: Functions,
)
    requires
        all_answered(t),
        forall|f: u8| #![trigger functions(f)] answers(u, bus, f, functions(f)),
        ari_walk(t, bus, func, steps, list).found is Some,
        on_the_way(ari_walk(t, bus, func, steps, list).trace, u),
        is_ari_list(functions, list),
        list.len() == 0 ==> func == 0,
        list.len() > 0 ==> list.last() < func && names_next(functions, list.last(), func),
        steps + func >= 256,
    ensures
        ({
            let r = ari_walk(t, bus, func, steps, list).found->0;
            &&& is_ari_list(functions, r)
            &&& r.len() >= list.len()
            &&& r.len() == 0 ==> !answers_at_all(functions, 0)
            &&& r.len() > 0 ==> {
                ||| names_none(functions, r.last())
                ||| exists|next: u8| #[trigger]
                    names_next(functions, r.last(), next) && (next <= r.last() || !answers_at_all(
                        functions,
                        next,
                    ))
            }
        }),
    decreases steps,
{
    if steps > 0 {
        let whole = ari_walk(t, bus, func, steps, list);
        let v = t.read(bus, func, DEVICE_VENDOR);
        lemma_read(t, bus, func, DEVICE_VENDOR);
        let space = functions(func);
        if v.found->0 == 0xFFFF_FFFF {
            lemma_space(t, u, bus, func, DEVICE_VENDOR, space);
        } else {
            let a = ext_cap(v.trace, bus, func, EXT_CAP_ID_ARI);
            lemma_ext_cap_walk(v.trace, bus, func, EXT_CAP_ID_ARI, EXT_CAP_START);
            let longer = list.push(func);
            match a.found->0 {
                None => {
                    lemma_way(v.trace, a.trace, u);
                    lemma_space(t, u, bus, func, DEVICE_VENDOR, space);
                    lemma_ari_pushed(list, func, functions);
                    lemma_ari_cap(v.trace, u, bus, func, space);
                },
                Some(off) => {
                    let o = (off + 4) as u16;
                    let c = a.trace.read(bus, func, o);
                    lemma_read(a.trace, bus, func, o);
                    let next = (c.found->0 >> 8u32) as u8;
                    if next > func {
                        lemma_ari_walk(c.trace, bus, next, (steps - 1) as nat, longer);
                        lemma_way(c.trace, whole.trace, u);
                    }
                    lemma_way(a.trace, c.trace, u);
                    lemma_way(v.trace, a.trace, u);
                    lemma_space(t, u, bus, func, DEVICE_VENDOR, space);
                    lemma_ari_cap(v.trace, u, bus, func, space);
                    lemma_space(a.trace, u, bus, func, o, space);
                    lemma_ari_pushed(list, func, functions);
                    assert(names_next(functions, func, next));
                    if next > func {
                        lemma_ari_listed(
                            c.trace,
                            u,
                            bus,
                            next,
                            (steps - 1) as nat,
                            longer,
                            functions,
                        );
                    }
                },
            }
        }
    }
}

proof fn lemma_ari_cap(t: Trace, u: Trace, bus: u8, func: u8, space: Space)
    requires
        all_answered(t),
        answers(u, bus, func, space),
        ext_cap(t, bus, func, 0x000E).found is Some,
        on_the_way(ext_cap(t, bus, func, 0x000E).trace, u),
    ensures
        match ext_cap(t, bus, func, 0x000E).found->0 {
            Some(at) => exists|path: Seq<u16>|
                #![trigger is_chain(space, path)]
                is_chain(space, path) && path[0] == 0x100 && path.last() == at && is_kind(
                    space,
                    0x000E,
                    at,
                ),
            None => forall|path: Seq<u16>|
                #![trigger is_chain(space, path)]
                is_chain(space, path) && path[0] == 0x100 ==> !is_kind(
                    space,
                    0x000E,
                    path.last(),
                ),
        },
        all_answered(ext_cap(t, bus, func, 0x000E).trace),
{
    let none = Seq::<u16>::empty();
    if 0x100u16 & 0x3u16 == 0 {
        assert(is_chain(space, none.push(0x100)));
    }
    lemma_ext_cap_walk(t, bus, func, 0x000E, 0x100);
    lemma_ext_linked(t, u, bus, func, 0x000E, 0x100, space, none);
}

proof fn lemma_ari_pushed(list: Seq<u8>, func: u8, functions: Functions)
    requires
        is_ari_list(functions, list),
        answers_at_all(functions, func),
        list.len() == 0 ==> func == 0,
        list.len() > 0 ==> list.last() < func && names_next(functions, list.last(), func),
    ensures
        is_ari_list(functions, list.push(func)),
{
    let longer = list.push(func);
    assert forall|i: int| #![trigger longer[i]] 0 <= i < longer.len() implies {
        &&& answers_at_all(functions, longer[i])
        &&& i == 0 ==> longer[i] == 0
        &&& i > 0 ==> longer[i - 1] < longer[i] && names_next(functions, longer[i - 1], longer[i])
    } by {
        if i < list.len() {
            assert(longer[i] == list[i]);
            if i > 0 {
                assert(longer[i - 1] == list[i - 1]);
            }
        }
    }
}

/// The functions of an ARI device are listed from function 0 on, each the one that the
/// one before it names, up to one that names none, names one before it, or names one
/// that is not there.
pub proof fn law_ari_listed(t: Trace, bus: u8, functions: Functions)
    requires
        all_answered(t),
        ari_functions(t, bus).found is Some,
        forall|f: u8|
            #![trigger functions(f)]
            answers(ari_functions(t, bus).trace, bus, f, functions(f)),
    ensures
        ({
            let r = ari_functions(t, bus).found->0;
            &&& is_ari_list(functions, r)
            &&& r.len() == 0 ==> !answers_at_all(functions, 0)
            &&& r.len() > 0 ==> {
                ||| names_none(functions, r.last())
                ||| exists|next: u8| #[trigger]
                    names_next(functions, r.last(), next) && (next <= r.last() || !answers_at_all(
                        functions,
                        next,
                    ))
            }
        }),
{
    lemma_same(ari_functions(t, bus).trace);
    lemma_ari_listed(
        t,
        ari_functions(t, bus).trace,
        bus,
        0,
        256,
        Seq::empty(),
        functions,
    );
}

}
