//! The order in which switches are connected.
use crate::pcie::names::downstream_name;
use crate::pcie::names::downstream_port_name;
use vstd::prelude::*;
use vstd::string::StrSliceExecFns;

verus! {

/// A switch and where it is connected.
#[derive(Debug)]
pub struct GenericSwitchDefinition {
    /// The name of the switch.
    pub name: String,
    /// The number of downstream ports.
    pub num_downstream_ports: u8,
    /// The name of the port that the switch is connected to.
    pub parent_port: String,
}

impl GenericSwitchDefinition {
    /// Creates a definition.
    pub fn new(name: String, num_downstream_ports: u8, parent_port: String) -> (r: Self)
        ensures
            r.name@ == name@,
            r.num_downstream_ports == num_downstream_ports,
            r.parent_port@ == parent_port@,
    {
        GenericSwitchDefinition { name, num_downstream_ports, parent_port }
    }
}

/// The names of the first downstream ports of a switch.
pub open spec fn port_names(switch: Seq<char>, count: int) -> Seq<Seq<char>> {
    Seq::new(count as nat, |i: int| downstream_name(switch, i))
}

/// The names of the first switches and of their downstream ports.
pub open spec fn switch_names(defs: Seq<GenericSwitchDefinition>, n: int) -> Seq<Seq<char>>
    decreases n,
{
    if n <= 0 {
        Seq::empty()
    } else {
        switch_names(defs, n - 1).push(defs[n - 1].name@) + port_names(
            defs[n - 1].name@,
            defs[n - 1].num_downstream_ports as int,
        )
    }
}

/// Names as sequences.
pub open spec fn texts(names: Seq<String>) -> Seq<Seq<char>> {
    Seq::new(names.len(), |i: int| names[i]@)
}

/// All names: those of root ports, of switches, and of their downstream ports.
pub open spec fn all_names(
    root_ports: Seq<String>,
    defs: Seq<GenericSwitchDefinition>,
) -> Seq<Seq<char>> {
    texts(root_ports) + switch_names(defs, defs.len() as int)
}

/// Whether a name occurs before a place.
pub open spec fn occurs_before(names: Seq<Seq<char>>, j: int) -> bool {
    exists|i: int| 0 <= i < j && #[trigger] names[i] == names[j]
}

proof fn lemma_switch_names(defs: Seq<GenericSwitchDefinition>, n: int, i: int)
    requires
        0 <= i < n <= defs.len(),
    ensures
        ({
            let names = switch_names(defs, n);
            let at = switch_names(defs, i).len() as int;
            &&& at + defs[i].num_downstream_ports < names.len()
            &&& names[at] == defs[i].name@
            &&& forall|p: int|
                0 <= p < defs[i].num_downstream_ports ==> #[trigger] names[at + 1 + p]
                    == downstream_name(defs[i].name@, p)
            &&& i + 1 < n ==> at + 1 + defs[i].num_downstream_ports == switch_names(
                defs,
                i + 1,
            ).len()
        }),
    decreases n,
{
    let names = switch_names(defs, n);
    let before = switch_names(defs, n - 1);
    let ports = port_names(defs[n - 1].name@, defs[n - 1].num_downstream_ports as int);
    assert(names == before.push(defs[n - 1].name@) + ports);
    let at = switch_names(defs, i).len() as int;
    if i < n - 1 {
        lemma_switch_names(defs, n - 1, i);
        assert forall|p: int| 0 <= p < defs[i].num_downstream_ports implies #[trigger] names[at + 1
            + p] == downstream_name(defs[i].name@, p) by {
            assert(names[at + 1 + p] == before[at + 1 + p]);
        }
    } else {
        assert forall|p: int| 0 <= p < defs[i].num_downstream_ports implies #[trigger] names[at + 1
            + p] == downstream_name(defs[i].name@, p) by {
            assert(names[at + 1 + p] == ports[p]);
        }
    }
}

proof fn lemma_names_grow(defs: Seq<GenericSwitchDefinition>, i: int, j: int)
    requires
        0 <= i < j <= defs.len(),
    ensures
        switch_names(defs, i).len() + 1 + defs[i].num_downstream_ports <= switch_names(
            defs,
            j,
        ).len(),
    decreases j,
{
    if i < j - 1 {
        lemma_names_grow(defs, i, j - 1);
    }
}

/// Where no name was there before, all names differ: those of root ports, those of
/// switches, and those of the ports of one switch, each from the others and from
/// those of its own sort.
pub proof fn law_names_differ(root_ports: Seq<String>, defs: Seq<GenericSwitchDefinition>)
    requires
        forall|j: int|
            0 <= j < all_names(root_ports, defs).len() ==> !#[trigger] occurs_before(
                all_names(root_ports, defs),
                j,
            ),
    ensures
        forall|a: int, b: int|
            #![trigger root_ports[a], root_ports[b]]
            0 <= a < b < root_ports.len() ==> root_ports[a]@ != root_ports[b]@,
        forall|a: int, i: int|
            #![trigger root_ports[a], defs[i]]
            0 <= a < root_ports.len() && 0 <= i < defs.len() ==> root_ports[a]@ != defs[i].name@,
        forall|i: int, j: int|
            #![trigger defs[i], defs[j]]
            0 <= i < j < defs.len() ==> defs[i].name@ != defs[j].name@,
        forall|i: int, p: int, q: int|
            #![trigger downstream_name(defs[i].name@, p), downstream_name(defs[i].name@, q)]
            0 <= i < defs.len() && 0 <= p < q < defs[i].num_downstream_ports ==> downstream_name(
                defs[i].name@,
                p,
            ) != downstream_name(defs[i].name@, q),
        forall|a: int, i: int, p: int|
            #![trigger root_ports[a], downstream_name(defs[i].name@, p)]
            0 <= a < root_ports.len() && 0 <= i < defs.len() && 0 <= p
                < defs[i].num_downstream_ports ==> root_ports[a]@ != downstream_name(
                defs[i].name@,
                p,
            ),
{
    let names = all_names(root_ports, defs);
    let n = defs.len() as int;
    let r = root_ports.len() as int;
    let s = switch_names(defs, n);
    assert forall|a: int, b: int| 0 <= a < b < names.len() implies #[trigger] names[a]
        != #[trigger] names[b] by {
        assert(!occurs_before(names, b));
    }
    assert forall|k: int| 0 <= k < s.len() implies #[trigger] s[k] == names[r + k] by {}
    assert forall|a: int| 0 <= a < r implies #[trigger] root_ports[a]@ == names[a] by {}
    assert forall|a: int, i: int|
        #![trigger root_ports[a], defs[i]]
        0 <= a < r && 0 <= i < n implies root_ports[a]@ != defs[i].name@ by {
        lemma_switch_names(defs, n, i);
        let at = switch_names(defs, i).len() as int;
        assert(s[at] == names[r + at]);
        assert(root_ports[a]@ == names[a]);
    }
    assert forall|i: int, j: int|
        #![trigger defs[i], defs[j]]
        0 <= i < j < n implies defs[i].name@ != defs[j].name@ by {
        lemma_switch_names(defs, n, i);
        lemma_switch_names(defs, n, j);
        lemma_names_grow(defs, i, j);
        let (x, y) = (switch_names(defs, i).len() as int, switch_names(defs, j).len() as int);
        assert(s[x] == names[r + x] && s[y] == names[r + y]);
    }
    assert forall|i: int, p: int, q: int|
        #![trigger downstream_name(defs[i].name@, p), downstream_name(defs[i].name@, q)]
        0 <= i < n && 0 <= p < q < defs[i].num_downstream_ports implies downstream_name(
        defs[i].name@,
        p,
    ) != downstream_name(defs[i].name@, q) by {
        lemma_switch_names(defs, n, i);
        let at = switch_names(defs, i).len() as int;
        assert(s[at + 1 + p] == names[r + (at + 1 + p)]);
        assert(s[at + 1 + q] == names[r + (at + 1 + q)]);
    }
    assert forall|a: int, i: int, p: int|
        #![trigger root_ports[a], downstream_name(defs[i].name@, p)]
        0 <= a < r && 0 <= i < n && 0 <= p < defs[i].num_downstream_ports implies root_ports[a]@
        != downstream_name(defs[i].name@, p) by {
        lemma_switch_names(defs, n, i);
        let at = switch_names(defs, i).len() as int;
        assert(s[at + 1 + p] == names[r + (at + 1 + p)]);
        assert(root_ports[a]@ == names[a]);
    }
}

/// Checks that all names are different: those of root ports, of switches, and of
/// their downstream ports. Returns the first name that was there before.
pub fn validate_names(root_ports: &Vec<String>, defs: &Vec<GenericSwitchDefinition>) -> (r: Result<
    (),
    String,
>)
    ensures
        ({
            let names = all_names(root_ports@, defs@);
            match r {
                Ok(_) => forall|j: int| 0 <= j < names.len() ==> !occurs_before(names, j),
                Err(name) => exists|j: int|
                    {
                        &&& 0 <= j < names.len()
                        &&& names[j] == name@
                        &&& #[trigger] occurs_before(names, j)
                        &&& forall|k: int| 0 <= k < j ==> !occurs_before(names, k)
                    },
            }
        }),
{
    let names: Vec<String> = collect_names(root_ports, defs);
    let ghost model = all_names(root_ports@, defs@);
    let mut j: usize = 0;
    while j < names.len()
        invariant
            j <= names@.len(),
            texts(names@) == model,
            forall|k: int| 0 <= k < j ==> !occurs_before(model, k),
            model == all_names(root_ports@, defs@),
        decreases names.len() - j,
    {
        let mut i: usize = 0;
        while i < j
            invariant
                i <= j < names@.len(),
                texts(names@) == model,
                forall|k: int| 0 <= k < j ==> !occurs_before(model, k),
                forall|k: int| 0 <= k < i ==> #[trigger] model[k] != model[j as int],
                model == all_names(root_ports@, defs@),
            decreases j - i,
        {
            if names[i] == names[j] {
                proof {
                    assert(texts(names@)[i as int] == names@[i as int]@);
                    assert(texts(names@)[j as int] == names@[j as int]@);
                    assert(model[i as int] == model[j as int]);
                    assert(occurs_before(model, j as int));
                }
                return Err(names[j].clone());
            }
            proof {
                assert(texts(names@)[i as int] == names@[i as int]@);
                assert(texts(names@)[j as int] == names@[j as int]@);
            }
            i = i + 1;
        }
        j = j + 1;
    }
    proof {
        assert(model.len() == names@.len());
    }
    Ok(())
}

fn collect_names(root_ports: &Vec<String>, defs: &Vec<GenericSwitchDefinition>) -> (r: Vec<String>)
    ensures
        texts(r@) == all_names(root_ports@, defs@),
{
    let mut names: Vec<String> = Vec::new();
    let mut i: usize = 0;
    while i < root_ports.len()
        invariant
            i <= root_ports@.len(),
            texts(names@) == texts(root_ports@).take(i as int),
        decreases root_ports.len() - i,
    {
        let ghost before = names@;
        names.push(root_ports[i].clone());
        proof {
            assert(texts(names@) =~= texts(before).push(root_ports@[i as int]@));
            assert(texts(root_ports@).take(i + 1) =~= texts(root_ports@).take(i as int).push(
                root_ports@[i as int]@,
            ));
        }
        i = i + 1;
    }
    assert(texts(root_ports@).take(root_ports@.len() as int) =~= texts(root_ports@));
    let mut s: usize = 0;
    assert(texts(names@) =~= texts(root_ports@) + switch_names(defs@, 0));
    while s < defs.len()
        invariant
            s <= defs@.len(),
            texts(names@) == texts(root_ports@) + switch_names(defs@, s as int),
        decreases defs.len() - s,
    {
        let ghost base = texts(names@);
        let ghost own = defs@[s as int].name@;
        let ghost before = names@;
        names.push(defs[s].name.clone());
        proof {
            assert(texts(names@) =~= texts(before).push(own));
        }
        let mut p: u8 = 0;
        assert(texts(names@) =~= base.push(own) + port_names(own, 0));
        while p < defs[s].num_downstream_ports
            invariant
                s < defs@.len(),
                p <= defs@[s as int].num_downstream_ports,
                own == defs@[s as int].name@,
                texts(names@) == base.push(own) + port_names(own, p as int),
            decreases defs[s as int].num_downstream_ports - p,
        {
            let ghost before = names@;
            names.push(downstream_port_name(&defs[s].name, p as usize));
            proof {
                assert(texts(names@) =~= texts(before).push(downstream_name(own, p as int)));
                assert(port_names(own, p + 1) =~= port_names(own, p as int).push(
                    downstream_name(own, p as int),
                ));
                assert(texts(names@) =~= base.push(own) + port_names(own, p + 1));
            }
            p = p + 1;
        }
        proof {
            let count = defs@[s as int].num_downstream_ports as int;
            assert(switch_names(defs@, s + 1) == switch_names(defs@, s as int).push(own)
                + port_names(own, count));
            assert(texts(names@) =~= texts(root_ports@) + switch_names(defs@, s + 1));
        }
        s = s + 1;
    }
    names
}

/// The last definition before a place with a name.
pub open spec fn definition_of(defs: Seq<GenericSwitchDefinition>, name: Seq<char>, n: int) -> Option<
    int,
>
    decreases n,
{
    if n <= 0 {
        None
    } else if defs[n - 1].name@ == name {
        Some(n - 1)
    } else {
        definition_of(defs, name, n - 1)
    }
}

/// The switch with a name.
pub open spec fn switch_named(defs: Seq<GenericSwitchDefinition>, name: Seq<char>) -> Option<int> {
    definition_of(defs, name, defs.len() as int)
}

fn find_switch(defs: &Vec<GenericSwitchDefinition>, name: &String) -> (r: Option<usize>)
    ensures
        match switch_named(defs@, name@) {
            Some(i) => r == Some(i as usize) && 0 <= i < defs.len(),
            None => r is None,
        },
{
    let mut n: usize = defs.len();
    while n > 0
        invariant
            n <= defs.len(),
            definition_of(defs@, name@, defs@.len() as int) == definition_of(
                defs@,
                name@,
                n as int,
            ),
        decreases n,
    {
        if defs[n - 1].name == *name {
            return Some(n - 1);
        }
        n = n - 1;
    }
    None
}

/// The switch that a switch names as its parent.
pub open spec fn next_switch(defs: Seq<GenericSwitchDefinition>, i: int) -> Option<int> {
    switch_named(defs, defs[i].parent_port@)
}

/// Whether the way from a switch over its parents ends after so many steps.
pub open spec fn way_ends(defs: Seq<GenericSwitchDefinition>, i: int, steps: int) -> bool
    decreases steps,
{
    match next_switch(defs, i) {
        None => true,
        Some(j) => steps > 0 && way_ends(defs, j, steps - 1),
    }
}

/// Whether switches are a cycle: each names the next as its parent, and the last
/// is the first.
pub open spec fn is_cycle(defs: Seq<GenericSwitchDefinition>, cycle: Seq<usize>) -> bool {
    &&& cycle.len() >= 2
    &&& cycle[0] == cycle.last()
    &&& forall|k: int|
        0 <= k < cycle.len() - 1 ==> next_switch(defs, (#[trigger] cycle[k]) as int) == Some(
            cycle[k + 1] as int,
        )
}

/// Whether switches are on the way from the first over its parents.
pub open spec fn is_way(defs: Seq<GenericSwitchDefinition>, way: Seq<usize>) -> bool {
    &&& way.len() > 0
    &&& forall|k: int| 0 <= k < way.len() ==> (#[trigger] way[k]) < defs.len()
    &&& forall|k: int|
        0 <= k < way.len() - 1 ==> next_switch(defs, (#[trigger] way[k]) as int) == Some(
            way[k + 1] as int,
        )
}

proof fn lemma_way_ends(defs: Seq<GenericSwitchDefinition>, way: Seq<usize>, k: int)
    requires
        is_way(defs, way),
        next_switch(defs, way.last() as int) is None,
        0 <= k < way.len(),
    ensures
        way_ends(defs, way[k] as int, way.len() - 1 - k),
    decreases way.len() - k,
{
    if k < way.len() - 1 {
        lemma_way_ends(defs, way, k + 1);
        assert(next_switch(defs, way[k] as int) == Some(way[k + 1] as int));
    }
}

proof fn lemma_more_steps(defs: Seq<GenericSwitchDefinition>, i: int, a: int, b: int)
    requires
        way_ends(defs, i, a),
        a <= b,
    ensures
        way_ends(defs, i, b),
    decreases a,
{
    match next_switch(defs, i) {
        None => {},
        Some(j) => {
            lemma_more_steps(defs, j, a - 1, b - 1);
        },
    }
}

proof fn lemma_definition_in_range(defs: Seq<GenericSwitchDefinition>, name: Seq<char>, n: int)
    requires
        0 <= n <= defs.len(),
    ensures
        definition_of(defs, name, n) matches Some(i) ==> 0 <= i < n && defs[i].name@ == name,
    decreases n,
{
    if n > 0 {
        lemma_definition_in_range(defs, name, n - 1);
    }
}

/// Different numbers below a bound are at most as many as the bound.
proof fn lemma_distinct_bounded(s: Seq<usize>, n: int)
    requires
        0 <= n,
        s.no_duplicates(),
        forall|k: int| 0 <= k < s.len() ==> (#[trigger] s[k]) < n,
    ensures
        s.len() <= n,
    decreases n,
{
    if n == 0 {
        if s.len() > 0 {
            assert(s[0] < 0);
        }
    } else if exists|p: int| 0 <= p < s.len() && s[p] == n - 1 {
        let p = choose|p: int| 0 <= p < s.len() && s[p] == n - 1;
        let rest = s.remove(p);
        assert forall|k: int| 0 <= k < rest.len() implies (#[trigger] rest[k]) < n - 1 by {
            if k < p {
                assert(rest[k] == s[k]);
            } else {
                assert(rest[k] == s[k + 1]);
            }
        }
        assert(rest.no_duplicates()) by {
            assert forall|a: int, b: int| 0 <= a < b < rest.len() implies rest[a] != rest[b] by {
                let x = if a < p {
                    a
                } else {
                    a + 1
                };
                let y = if b < p {
                    b
                } else {
                    b + 1
                };
                assert(rest[a] == s[x] && rest[b] == s[y]);
            }
        }
        lemma_distinct_bounded(rest, n - 1);
    } else {
        assert forall|k: int| 0 <= k < s.len() implies (#[trigger] s[k]) < n - 1 by {
            assert(s[k] != n - 1);
        }
        lemma_distinct_bounded(s, n - 1);
    }
}

fn position(way: &Vec<usize>, x: usize) -> (r: Option<usize>)
    ensures
        match r {
            Some(p) => p < way.len() && way@[p as int] == x,
            None => forall|k: int| 0 <= k < way@.len() ==> #[trigger] way@[k] != x,
        },
{
    let mut p: usize = 0;
    while p < way.len()
        invariant
            p <= way@.len(),
            forall|k: int| 0 <= k < p ==> #[trigger] way@[k] != x,
        decreases way.len() - p,
    {
        if way[p] == x {
            return Some(p);
        }
        p = p + 1;
    }
    None
}

/// Follows the parents of a switch. Returns a cycle if there is one on the way.
fn follow(defs: &Vec<GenericSwitchDefinition>, start: usize) -> (r: Option<Vec<usize>>)
    requires
        start < defs.len(),
    ensures
        match r {
            Some(cycle) => is_cycle(defs@, cycle@),
            None => way_ends(defs@, start as int, defs@.len() as int),
        },
{
    let mut way: Vec<usize> = Vec::new();
    way.push(start);
    let mut at: usize = start;
    proof {
        lemma_distinct_bounded(way@, defs@.len() as int);
    }
    loop
        invariant
            is_way(defs@, way@),
            way@.no_duplicates(),
            way@.len() <= defs@.len(),
            way@[0] == start,
            at == way@.last(),
            at < defs@.len(),
        decreases defs@.len() - way@.len(),
    {
        match find_switch(defs, &defs[at].parent_port) {
            None => {
                proof {
                    lemma_way_ends(defs@, way@, 0);
                    lemma_more_steps(
                        defs@,
                        start as int,
                        way@.len() - 1,
                        defs@.len() as int,
                    );
                }
                return None;
            },
            Some(next) => {
                if let Some(p) = position(&way, next) {
                    let mut cycle: Vec<usize> = Vec::new();
                    let mut k: usize = p;
                    while k < way.len()
                        invariant
                            p <= k <= way@.len(),
                            p < way@.len(),
                            cycle@ == way@.subrange(p as int, k as int),
                        decreases way.len() - k,
                    {
                        cycle.push(way[k]);
                        assert(way@.subrange(p as int, k + 1) =~= way@.subrange(
                            p as int,
                            k as int,
                        ).push(way@[k as int]));
                        k = k + 1;
                    }
                    cycle.push(next);
                    proof {
                        assert forall|j: int| 0 <= j < cycle@.len() - 1 implies next_switch(
                            defs@,
                            (#[trigger] cycle@[j]) as int,
                        ) == Some(cycle@[j + 1] as int) by {
                            assert(cycle@[j] == way@[p + j]);
                            if j + 1 < cycle@.len() - 1 {
                                assert(cycle@[j + 1] == way@[p + j + 1]);
                            }
                        }
                    }
                    return Some(cycle);
                }
                let ghost before = way@;
                way.push(next);
                at = next;
                proof {
                    assert forall|k: int| 0 <= k < way@.len() - 1 implies next_switch(
                        defs@,
                        (#[trigger] way@[k]) as int,
                    ) == Some(way@[k + 1] as int) by {
                        assert(way@[k] == before[k]);
                        if k + 1 < before.len() {
                            assert(way@[k + 1] == before[k + 1]);
                        }
                    }
                    assert forall|k: int| 0 <= k < way@.len() implies (#[trigger] way@[k])
                        < defs@.len() by {
                        if k < before.len() {
                            assert(way@[k] == before[k]);
                        }
                    }
                    assert(way@.no_duplicates()) by {
                        assert forall|a: int, b: int| 0 <= a < b < way@.len() implies way@[a]
                            != way@[b] by {
                            if b < before.len() {
                                assert(way@[a] == before[a] && way@[b] == before[b]);
                            } else {
                                assert(way@[a] == before[a]);
                            }
                        }
                    }
                    lemma_distinct_bounded(way@, defs@.len() as int);
                }
            },
        }
    }
}

/// Looks for switches that name each other as parents in a circle. Returns one
/// such cycle, or `None` if the way from every switch over its parents ends.
pub fn detect_cycle(defs: &Vec<GenericSwitchDefinition>) -> (r: Option<Vec<usize>>)
    ensures
        match r {
            Some(cycle) => is_cycle(defs@, cycle@),
            None => no_cycle(defs@),
        },
{
    let mut i: usize = 0;
    while i < defs.len()
        invariant
            i <= defs@.len(),
            forall|j: int| 0 <= j < i ==> #[trigger] way_ends(defs@, j, defs@.len() as int),
        decreases defs.len() - i,
    {
        if let Some(cycle) = follow(defs, i) {
            return Some(cycle);
        }
        i = i + 1;
    }
    None
}

/// A way that ends is on no cycle: no switch of a cycle has a way that ends.
pub proof fn law_cycle_never_ends(
    defs: Seq<GenericSwitchDefinition>,
    cycle: Seq<usize>,
    k: int,
    steps: int,
)
    requires
        is_cycle(defs, cycle),
        0 <= k < cycle.len(),
    ensures
        !way_ends(defs, cycle[k] as int, steps),
    decreases steps,
{
    let at = if k == cycle.len() - 1 {
        0
    } else {
        k
    };
    assert(cycle[at] == cycle[k]);
    assert(next_switch(defs, cycle[at] as int) == Some(cycle[at + 1] as int));
    if steps > 0 {
        law_cycle_never_ends(defs, cycle, at + 1, steps - 1);
    }
}

/// What is between the name of a switch and the number of a downstream port.
pub open spec fn separator() -> Seq<char> {
    "-downstream-"@
}

/// Whether the separator is at a place.
pub open spec fn separator_at(s: Seq<char>, p: int) -> bool {
    0 <= p && p + separator().len() <= s.len() && s.subrange(p, p + separator().len())
        == separator()
}

/// The first place, from one on, where the separator is.
pub open spec fn first_separator(s: Seq<char>, p: int) -> Option<int>
    decreases s.len() - p + 1,
{
    if p > s.len() {
        None
    } else if separator_at(s, p) {
        Some(p)
    } else {
        first_separator(s, p + 1)
    }
}

/// What a port is a port of: the switch, if the name is that of a downstream
/// port of a switch; else the name itself.
pub open spec fn owner_of(port: Seq<char>) -> Seq<char> {
    match first_separator(port, 0) {
        Some(p) => port.take(p),
        None => port,
    }
}

fn port_owner(port: &String) -> (r: String)
    ensures
        r@ == owner_of(port@),
{
    let sep: String = "-downstream-".to_owned();
    let len: usize = port.as_str().unicode_len();
    let sep_len: usize = sep.as_str().unicode_len();
    let mut p: usize = 0;
    proof {
        reveal_strlit("-downstream-");
    }
    while sep_len <= len - p
        invariant
            p <= len,
            len == port@.len(),
            sep@ == separator(),
            sep_len == sep@.len(),
            sep_len > 0,
            first_separator(port@, 0) == first_separator(port@, p as int),
        decreases len - p,
    {
        let part: String = port.as_str().substring_char(p, p + sep_len).to_owned();
        if part == sep {
            return port.as_str().substring_char(0, p).to_owned();
        }
        p = p + 1;
    }
    proof {
        lemma_no_separator(port@, p as int);
    }
    port.clone()
}

proof fn lemma_no_separator(s: Seq<char>, p: int)
    requires
        0 <= p,
        p + separator().len() > s.len(),
    ensures
        first_separator(s, p) is None,
    decreases s.len() - p + 1,
{
    if p <= s.len() {
        lemma_no_separator(s, p + 1);
    }
}

/// The switch that has the port that a switch is connected to; `None` if that is
/// a port of the root complex.
pub open spec fn parent_switch(defs: Seq<GenericSwitchDefinition>, i: int) -> Option<int> {
    switch_named(defs, owner_of(defs[i].parent_port@))
}

/// Whether a switch is connected to the root complex over so many other switches
/// at most.
pub open spec fn rooted(defs: Seq<GenericSwitchDefinition>, i: int, steps: nat) -> bool
    decreases steps,
{
    match parent_switch(defs, i) {
        None => true,
        Some(j) => steps > 0 && rooted(defs, j, (steps - 1) as nat),
    }
}

/// Whether switches are in an order in which each comes after the switch that it
/// is connected to.
pub open spec fn is_ordered(defs: Seq<GenericSwitchDefinition>, order: Seq<usize>) -> bool {
    forall|p: int|
        0 <= p < order.len() ==> match parent_switch(defs, (#[trigger] order[p]) as int) {
            Some(j) => exists|q: int| 0 <= q < p && #[trigger] order[q] == j,
            None => true,
        }
}

/// Whether every switch in a list is one, and is there once.
pub open spec fn is_selection(defs: Seq<GenericSwitchDefinition>, order: Seq<usize>) -> bool {
    &&& order.no_duplicates()
    &&& forall|p: int| 0 <= p < order.len() ==> (#[trigger] order[p]) < defs.len()
}

/// Orders switches so that each comes after the switch that it is connected to.
/// Switches that are not connected to the root complex in the end are left out.
pub fn topological_sort(defs: &Vec<GenericSwitchDefinition>) -> (r: Vec<usize>)
    ensures
        is_order(defs@, r@),
{
    let n: usize = defs.len();
    let mut order: Vec<usize> = Vec::new();
    let mut progress: bool = true;
    while progress
        invariant
            n == defs@.len(),
            n == defs.len(),
            is_selection(defs@, order@),
            is_ordered(defs@, order@),
            all_rooted(defs@, order@),
            order@.len() <= n,
            !progress ==> forall|i: int|
                0 <= i < n ==> #[trigger] settled(defs@, order@, i),
        decreases
            n - order@.len(),
            if progress {
                1int
            } else {
                0int
            },
    {
        progress = false;
        let ghost start = order@;
        let mut i: usize = 0;
        while i < n
            invariant
                i <= n,
                n == defs@.len(),
                n == defs.len(),
                is_selection(defs@, order@),
                is_ordered(defs@, order@),
                all_rooted(defs@, order@),
                order@.len() <= n,
                start.len() <= order@.len(),
                progress ==> start.len() < order@.len(),
                !progress ==> order@ == start && forall|j: int|
                    0 <= j < i ==> #[trigger] settled(defs@, order@, j),
            decreases n - i,
        {
            if position(&order, i).is_none() {
                let owner: String = port_owner(&defs[i].parent_port);
                let ready: bool = match find_switch(defs, &owner) {
                    None => true,
                    Some(j) => position(&order, j).is_some(),
                };
                if ready {
                    let ghost before = order@;
                    order.push(i);
                    progress = true;
                    proof {
                        lemma_pushed(defs@, before, i);
                        lemma_distinct_bounded(order@, n as int);
                    }
                } else {
                    assert(settled(defs@, order@, i as int));
                }
            } else {
                assert(settled(defs@, order@, i as int));
            }
            i = i + 1;
        }
    }
    proof {
        assert forall|i: int| 0 <= i < defs@.len() implies (order@.contains(i as usize)
            <==> #[trigger] is_rooted(defs@, i)) by {
            if order@.contains(i as usize) {
                let p = choose|p: int| 0 <= p < order@.len() && order@[p] == i as usize;
                assert(is_rooted(defs@, order@[p] as int));
            }
            if is_rooted(defs@, i) {
                let steps = choose|steps: nat| #[trigger] rooted(defs@, i, steps);
                lemma_rooted_placed(defs@, order@, i, steps);
            }
        }
    }
    order
}

/// Whether a switch is connected to the root complex in the end.
pub open spec fn is_rooted(defs: Seq<GenericSwitchDefinition>, i: int) -> bool {
    exists|steps: nat| #[trigger] rooted(defs, i, steps)
}

/// Whether all switches in a list are connected to the root complex in the end.
pub open spec fn all_rooted(defs: Seq<GenericSwitchDefinition>, order: Seq<usize>) -> bool {
    forall|p: int| 0 <= p < order.len() ==> is_rooted(defs, (#[trigger] order[p]) as int)
}

/// Whether a switch is in a list, or is connected to a switch that is not.
pub open spec fn settled(defs: Seq<GenericSwitchDefinition>, order: Seq<usize>, i: int) -> bool {
    order.contains(i as usize) || (parent_switch(defs, i) is Some && !order.contains(
        parent_switch(defs, i)->0 as usize,
    ))
}

proof fn lemma_pushed(defs: Seq<GenericSwitchDefinition>, order: Seq<usize>, i: usize)
    requires
        i < defs.len(),
        is_selection(defs, order),
        is_ordered(defs, order),
        all_rooted(defs, order),
        forall|k: int| 0 <= k < order.len() ==> #[trigger] order[k] != i,
        match parent_switch(defs, i as int) {
            Some(j) => exists|q: int| 0 <= q < order.len() && #[trigger] order[q] == j,
            None => true,
        },
    ensures
        is_selection(defs, order.push(i)),
        is_ordered(defs, order.push(i)),
        all_rooted(defs, order.push(i)),
{
    let next = order.push(i);
    assert forall|a: int, b: int| 0 <= a < b < next.len() implies next[a] != next[b] by {
        if b < order.len() {
            assert(next[a] == order[a] && next[b] == order[b]);
        } else {
            assert(next[a] == order[a]);
        }
    }
    assert forall|p: int| 0 <= p < next.len() implies match parent_switch(
        defs,
        (#[trigger] next[p]) as int,
    ) {
        Some(j) => exists|q: int| 0 <= q < p && #[trigger] next[q] == j,
        None => true,
    } by {
        if p < order.len() {
            assert(next[p] == order[p]);
            if parent_switch(defs, order[p] as int) is Some {
                let j = parent_switch(defs, order[p] as int)->0;
                let q = choose|q: int| 0 <= q < p && #[trigger] order[q] == j;
                assert(next[q] == j);
            }
        } else if parent_switch(defs, i as int) is Some {
            let j = parent_switch(defs, i as int)->0;
            let q = choose|q: int| 0 <= q < order.len() && #[trigger] order[q] == j;
            assert(next[q] == j);
        }
    }
    assert forall|p: int| 0 <= p < next.len() implies is_rooted(
        defs,
        (#[trigger] next[p]) as int,
    ) by {
        if p < order.len() {
            assert(next[p] == order[p]);
        } else {
            match parent_switch(defs, i as int) {
                None => {
                    assert(rooted(defs, i as int, 0));
                },
                Some(j) => {
                    let q = choose|q: int| 0 <= q < order.len() && #[trigger] order[q] == j;
                    assert(is_rooted(defs, order[q] as int));
                    let steps = choose|steps: nat| #[trigger] rooted(defs, j, steps);
                    assert(rooted(defs, i as int, (steps + 1) as nat));
                },
            }
        }
    }
}

proof fn lemma_rooted_placed(
    defs: Seq<GenericSwitchDefinition>,
    order: Seq<usize>,
    i: int,
    steps: nat,
)
    requires
        0 <= i < defs.len(),
        defs.len() <= usize::MAX,
        forall|k: int| 0 <= k < defs.len() ==> #[trigger] settled(defs, order, k),
        rooted(defs, i, steps),
    ensures
        order.contains(i as usize),
    decreases steps,
{
    assert(settled(defs, order, i));
    if let Some(j) = parent_switch(defs, i) {
        lemma_definition_in_range(defs, owner_of(defs[i].parent_port@), defs.len() as int);
        lemma_rooted_placed(defs, order, j, (steps - 1) as nat);
    }
}

/// Why switches cannot be connected.
#[derive(Debug)]
pub enum TopologyError {
    /// Switches name each other as parents in a circle.
    Cycle(Vec<usize>),
    /// The way from a switch over the switches whose ports it is connected to
    /// never gets to the root complex.
    Unrooted(usize),
    /// The port that a switch is to be connected to is not there, or not free.
    ParentUnavailable(usize),
}

/// A port that a switch can be connected to.
#[derive(Debug, Clone, Copy, PartialEq, Eq, Structural)]
pub enum ParentPort {
    /// A root port.
    Root(usize),
    /// A downstream port of a switch.
    Switch {
        /// The switch.
        switch: usize,
        /// The number of the port.
        port: u8,
    },
}

/// A switch and the port that it is connected to.
#[derive(Debug, Clone, Copy, PartialEq, Eq, Structural)]
pub struct SwitchPlacement {
    /// The switch.
    pub switch: usize,
    /// The port.
    pub parent: ParentPort,
}

/// Whether there is such a port, with a name.
pub open spec fn is_port(
    root_ports: Seq<String>,
    defs: Seq<GenericSwitchDefinition>,
    port: ParentPort,
    name: Seq<char>,
) -> bool {
    match port {
        ParentPort::Root(k) => k < root_ports.len() && root_ports[k as int]@ == name,
        ParentPort::Switch { switch, port } => {
            &&& switch < defs.len()
            &&& port < defs[switch as int].num_downstream_ports
            &&& downstream_name(defs[switch as int].name@, port as int) == name
        },
    }
}

/// Whether a port is that of the root complex or of a switch that is connected.
pub open spec fn is_reachable(placements: Seq<SwitchPlacement>, port: ParentPort) -> bool {
    match port {
        ParentPort::Root(_) => true,
        ParentPort::Switch { switch, .. } => exists|p: int|
            0 <= p < placements.len() && (#[trigger] placements[p]).switch == switch,
    }
}

/// Whether placements connect the first switches of an order to the ports that
/// they name, each to its own, and parents before children.
pub open spec fn placements_ok(
    root_ports: Seq<String>,
    defs: Seq<GenericSwitchDefinition>,
    order: Seq<usize>,
    placements: Seq<SwitchPlacement>,
) -> bool {
    &&& placements.len() <= order.len()
    &&& forall|p: int|
        0 <= p < placements.len() ==> {
            &&& (#[trigger] placements[p]).switch == order[p]
            &&& is_port(
                root_ports,
                defs,
                placements[p].parent,
                defs[order[p] as int].parent_port@,
            )
            &&& is_reachable(placements.take(p), placements[p].parent)
        }
    &&& forall|p: int, q: int|
        0 <= p < q < placements.len() ==> (#[trigger] placements[p]).parent != (
        #[trigger] placements[q]).parent
}

/// Whether no port with a name is free.
pub open spec fn no_free_port(
    root_ports: Seq<String>,
    defs: Seq<GenericSwitchDefinition>,
    name: Seq<char>,
    placements: Seq<SwitchPlacement>,
) -> bool {
    forall|port: ParentPort| #[trigger]
        is_port(root_ports, defs, port, name) && is_reachable(placements, port) ==> is_taken(
            placements,
            port,
        )
}

/// Whether a switch is connected to a port.
pub open spec fn is_taken(placements: Seq<SwitchPlacement>, port: ParentPort) -> bool {
    exists|p: int| 0 <= p < placements.len() && (#[trigger] placements[p]).parent == port
}

fn taken(placements: &Vec<SwitchPlacement>, port: ParentPort) -> (r: bool)
    ensures
        r == is_taken(placements@, port),
{
    let mut p: usize = 0;
    while p < placements.len()
        invariant
            p <= placements@.len(),
            forall|q: int| 0 <= q < p ==> (#[trigger] placements@[q]).parent != port,
        decreases placements.len() - p,
    {
        if placements[p].parent == port {
            return true;
        }
        p = p + 1;
    }
    false
}

fn find_free_root_port(
    root_ports: &Vec<String>,
    defs: &Vec<GenericSwitchDefinition>,
    name: &String,
    placements: &Vec<SwitchPlacement>,
) -> (r: Option<ParentPort>)
    ensures
        match r {
            Some(port) => {
                &&& is_port(root_ports@, defs@, port, name@)
                &&& is_reachable(placements@, port)
                &&& !is_taken(placements@, port)
            },
            None => forall|k: usize| #[trigger]
                is_port(root_ports@, defs@, ParentPort::Root(k), name@) ==> is_taken(
                    placements@,
                    ParentPort::Root(k),
                ),
        },
{
    let mut k: usize = 0;
    while k < root_ports.len()
        invariant
            k <= root_ports@.len(),
            forall|j: usize|
                j < k && #[trigger] is_port(root_ports@, defs@, ParentPort::Root(j), name@)
                    ==> is_taken(placements@, ParentPort::Root(j)),
        decreases root_ports.len() - k,
    {
        if root_ports[k] == *name && !taken(placements, ParentPort::Root(k)) {
            return Some(ParentPort::Root(k));
        }
        k = k + 1;
    }
    None
}

fn find_free_switch_port(
    root_ports: &Vec<String>,
    defs: &Vec<GenericSwitchDefinition>,
    switch: usize,
    name: &String,
    placements: &Vec<SwitchPlacement>,
) -> (r: Option<ParentPort>)
    requires
        switch < defs@.len(),
    ensures
        match r {
            Some(port) => {
                &&& is_port(root_ports@, defs@, port, name@)
                &&& port matches ParentPort::Switch { switch: s, .. } && s == switch
                &&& !is_taken(placements@, port)
            },
            None => forall|port: u8| #[trigger]
                is_port(root_ports@, defs@, ParentPort::Switch { switch, port }, name@)
                    ==> is_taken(placements@, ParentPort::Switch { switch, port }),
        },
{
    let count: u8 = defs[switch].num_downstream_ports;
    let mut port: u8 = 0;
    while port < count
        invariant
            port <= count,
            switch < defs@.len(),
            count == defs@[switch as int].num_downstream_ports,
            forall|j: u8|
                j < port && #[trigger] is_port(
                    root_ports@,
                    defs@,
                    ParentPort::Switch { switch, port: j },
                    name@,
                ) ==> is_taken(placements@, ParentPort::Switch { switch, port: j }),
        decreases count - port,
    {
        let candidate: ParentPort = ParentPort::Switch { switch, port };
        let port_name: String = downstream_port_name(
            &defs[switch].name,
            port as usize,
        );
        if port_name == *name && !taken(placements, candidate) {
            return Some(candidate);
        }
        port = port + 1;
    }
    None
}

fn find_free_port(
    root_ports: &Vec<String>,
    defs: &Vec<GenericSwitchDefinition>,
    name: &String,
    placements: &Vec<SwitchPlacement>,
) -> (r: Option<ParentPort>)
    requires
        forall|p: int| 0 <= p < placements@.len() ==> (#[trigger] placements@[p]).switch
            < defs@.len(),
    ensures
        match r {
            Some(port) => {
                &&& is_port(root_ports@, defs@, port, name@)
                &&& is_reachable(placements@, port)
                &&& !is_taken(placements@, port)
            },
            None => no_free_port(root_ports@, defs@, name@, placements@),
        },
{
    let root_port: Option<ParentPort> = find_free_root_port(root_ports, defs, name, placements);
    if root_port.is_some() {
        return root_port;
    }
    let mut p: usize = 0;
    while p < placements.len()
        invariant
            p <= placements@.len(),
            forall|q: int| 0 <= q < placements@.len() ==> (#[trigger] placements@[q]).switch
                < defs@.len(),
            forall|q: int, port: u8|
                0 <= q < p && #[trigger] is_port(
                    root_ports@,
                    defs@,
                    ParentPort::Switch { switch: placements@[q].switch, port },
                    name@,
                ) ==> is_taken(
                    placements@,
                    ParentPort::Switch { switch: placements@[q].switch, port },
                ),
        decreases placements.len() - p,
    {
        let switch: usize = placements[p].switch;
        let port: Option<ParentPort> = find_free_switch_port(
            root_ports,
            defs,
            switch,
            name,
            placements,
        );
        if port.is_some() {
            assert(placements@[p as int].switch == switch);
            return port;
        }
        p = p + 1;
    }
    proof {
        assert forall|port: ParentPort| #[trigger]
            is_port(root_ports@, defs@, port, name@) && is_reachable(
                placements@,
                port,
            ) implies is_taken(placements@, port) by {
            match port {
                ParentPort::Root(k) => {
                    assert(is_port(root_ports@, defs@, ParentPort::Root(k), name@));
                },
                ParentPort::Switch { switch, port: k } => {
                    let q = choose|q: int|
                        0 <= q < placements@.len() && (#[trigger] placements@[q]).switch == switch;
                    assert(is_port(
                        root_ports@,
                        defs@,
                        ParentPort::Switch { switch: placements@[q].switch, port: k },
                        name@,
                    ));
                },
            }
        }
    }
    None
}

/// Whether the way from every switch over its parents ends.
pub open spec fn no_cycle(defs: Seq<GenericSwitchDefinition>) -> bool {
    forall|i: int| 0 <= i < defs.len() ==> #[trigger] way_ends(defs, i, defs.len() as int)
}

/// Whether a list holds every switch that is connected to the root complex in the
/// end, and nothing else, each after the switch that it is connected to.
pub open spec fn is_order(defs: Seq<GenericSwitchDefinition>, order: Seq<usize>) -> bool {
    &&& is_selection(defs, order)
    &&& is_ordered(defs, order)
    &&& forall|i: int|
        0 <= i < defs.len() ==> (order.contains(i as usize) <==> #[trigger] is_rooted(defs, i))
}

/// Whether placements connect all switches of some order.
pub open spec fn all_placed(
    root_ports: Seq<String>,
    defs: Seq<GenericSwitchDefinition>,
    order: Seq<usize>,
    placements: Seq<SwitchPlacement>,
) -> bool {
    &&& placements_ok(root_ports, defs, order, placements)
    &&& is_order(defs, order)
    &&& placements.len() == order.len()
}

/// Whether placements connect the switches of some order up to one for which no
/// port is free.
pub open spec fn stuck_at(
    root_ports: Seq<String>,
    defs: Seq<GenericSwitchDefinition>,
    order: Seq<usize>,
    placements: Seq<SwitchPlacement>,
    i: int,
) -> bool {
    &&& placements_ok(root_ports, defs, order, placements)
    &&& is_order(defs, order)
    &&& placements.len() < order.len()
    &&& order[placements.len() as int] == i
    &&& no_free_port(root_ports, defs, defs[i].parent_port@, placements)
}

/// Whether the switches up to one, in some order, have their ports, and no port is
/// free for that one.
pub open spec fn is_stuck(
    root_ports: Seq<String>,
    defs: Seq<GenericSwitchDefinition>,
    i: int,
) -> bool {
    exists|order: Seq<usize>, placements: Seq<SwitchPlacement>| #[trigger]
        stuck_at(root_ports, defs, order, placements, i)
}

/// Whether placements connect all switches, in some order.
pub open spec fn is_placed(
    root_ports: Seq<String>,
    defs: Seq<GenericSwitchDefinition>,
    placements: Seq<SwitchPlacement>,
) -> bool {
    exists|order: Seq<usize>| #[trigger] all_placed(root_ports, defs, order, placements)
}

/// Whether the way from every switch gets to the root complex.
pub open spec fn no_unrooted(defs: Seq<GenericSwitchDefinition>) -> bool {
    forall|i: int| 0 <= i < defs.len() ==> #[trigger] is_rooted(defs, i)
}

fn find_unrooted(defs: &Vec<GenericSwitchDefinition>, order: &Vec<usize>) -> (r: Option<usize>)
    requires
        is_order(defs@, order@),
    ensures
        match r {
            Some(i) => {
                &&& i < defs@.len()
                &&& !is_rooted(defs@, i as int)
                &&& forall|j: int| 0 <= j < i ==> #[trigger] is_rooted(defs@, j)
            },
            None => no_unrooted(defs@),
        },
{
    let mut i: usize = 0;
    while i < defs.len()
        invariant
            i <= defs@.len(),
            is_order(defs@, order@),
            forall|j: int| 0 <= j < i ==> #[trigger] is_rooted(defs@, j),
        decreases defs.len() - i,
    {
        proof {
            assert(order@.contains(i as int as usize) <==> is_rooted(defs@, i as int));
        }
        match position(order, i) {
            None => {
                return Some(i);
            },
            Some(p) => {
                assert(order@[p as int] == i);
            },
        }
        i = i + 1;
    }
    None
}

/// Works out which port each switch is connected to, parents before children. A
/// switch is connected to the port that it names, a root port or a downstream
/// port of a switch that is connected before it, and nothing else is connected
/// there.
pub fn build_switch_topology(root_ports: &Vec<String>, defs: &Vec<GenericSwitchDefinition>) -> (r:
    Result<Vec<SwitchPlacement>, TopologyError>)
    ensures
        match r {
            Err(TopologyError::Cycle(cycle)) => is_cycle(defs@, cycle@),
            Err(TopologyError::Unrooted(i)) => {
                &&& no_cycle(defs@)
                &&& i < defs@.len()
                &&& !is_rooted(defs@, i as int)
                &&& forall|j: int| 0 <= j < i ==> #[trigger] is_rooted(defs@, j)
            },
            Err(TopologyError::ParentUnavailable(i)) => {
                &&& no_cycle(defs@)
                &&& no_unrooted(defs@)
                &&& is_stuck(root_ports@, defs@, i as int)
            },
            Ok(placements) => {
                &&& no_cycle(defs@)
                &&& no_unrooted(defs@)
                &&& is_placed(root_ports@, defs@, placements@)
            },
        },
{
    if let Some(cycle) = detect_cycle(defs) {
        return Err(TopologyError::Cycle(cycle));
    }
    let order: Vec<usize> = topological_sort(defs);
    if let Some(i) = find_unrooted(defs, &order) {
        return Err(TopologyError::Unrooted(i));
    }
    let mut placements: Vec<SwitchPlacement> = Vec::new();
    let mut p: usize = 0;
    while p < order.len()
        invariant
            p <= order@.len(),
            p == placements@.len(),
            is_order(defs@, order@),
            no_cycle(defs@),
            no_unrooted(defs@),
            placements_ok(root_ports@, defs@, order@, placements@),
        decreases order.len() - p,
    {
        let i: usize = order[p];
        proof {
            assert(order@[p as int] < defs@.len());
            assert forall|q: int| 0 <= q < placements@.len() implies (
            #[trigger] placements@[q]).switch < defs@.len() by {
                assert(order@[q] < defs@.len());
            }
        }
        match find_free_port(root_ports, defs, &defs[i].parent_port, &placements) {
            None => {
                assert(stuck_at(root_ports@, defs@, order@, placements@, i as int));
                assert(is_stuck(root_ports@, defs@, i as int));
                return Err(TopologyError::ParentUnavailable(i));
            },
            Some(port) => {
                let ghost before = placements@;
                placements.push(SwitchPlacement { switch: i, parent: port });
                proof {
                    lemma_connected(root_ports@, defs@, order@, before, port);
                    assert(placements@ == before.push(
                        SwitchPlacement { switch: i, parent: port },
                    ));
                }
            },
        }
        p = p + 1;
    }
    assert(all_placed(root_ports@, defs@, order@, placements@));
    assert(is_placed(root_ports@, defs@, placements@));
    Ok(placements)
}

proof fn lemma_connected(
    root_ports: Seq<String>,
    defs: Seq<GenericSwitchDefinition>,
    order: Seq<usize>,
    before: Seq<SwitchPlacement>,
    port: ParentPort,
)
    requires
        placements_ok(root_ports, defs, order, before),
        before.len() < order.len(),
        is_port(root_ports, defs, port, defs[order[before.len() as int] as int].parent_port@),
        is_reachable(before, port),
        !is_taken(before, port),
    ensures
        placements_ok(
            root_ports,
            defs,
            order,
            before.push(SwitchPlacement { switch: order[before.len() as int], parent: port }),
        ),
{
    let after = before.push(SwitchPlacement { switch: order[before.len() as int], parent: port });
    assert forall|p: int| 0 <= p < after.len() implies {
        &&& (#[trigger] after[p]).switch == order[p]
        &&& is_port(root_ports, defs, after[p].parent, defs[order[p] as int].parent_port@)
        &&& is_reachable(after.take(p), after[p].parent)
    } by {
        assert(after.take(p) =~= before.take(p));
        if p < before.len() {
            assert(after[p] == before[p]);
        } else {
            assert(before.take(p) =~= before);
        }
    }
    assert forall|a: int, b: int| 0 <= a < b < after.len() implies (#[trigger] after[a]).parent != (
    #[trigger] after[b]).parent by {
        assert(after[a] == before[a]);
        if b < before.len() {
            assert(after[b] == before[b]);
        }
    }
}

/// The switches of a topology that is built are connected to the ports that they
/// name, which are root ports or ports of switches that were connected before
/// them, and no two to one port.
pub proof fn law_connected_to_parents(
    root_ports: Seq<String>,
    defs: Seq<GenericSwitchDefinition>,
    placements: Seq<SwitchPlacement>,
    i: int,
)
    requires
        0 <= i < defs.len() <= usize::MAX,
        no_unrooted(defs),
        is_placed(root_ports, defs, placements),
    ensures
        exists|p: int|
            {
                &&& 0 <= p < placements.len()
                &&& (#[trigger] placements[p]).switch == i
                &&& is_port(root_ports, defs, placements[p].parent, defs[i].parent_port@)
                &&& is_reachable(placements.take(p), placements[p].parent)
                &&& forall|q: int|
                    0 <= q < placements.len() && q != p ==> (#[trigger] placements[q]).parent
                        != placements[p].parent
            },
{
    let order = choose|order: Seq<usize>| #[trigger]
        all_placed(root_ports, defs, order, placements);
    assert(is_rooted(defs, i));
    assert(order.contains(i as usize));
    let p = choose|p: int| 0 <= p < order.len() && order[p] == i as usize;
    assert(placements[p].switch == i);
}

}
