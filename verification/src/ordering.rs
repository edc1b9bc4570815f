use crate::text::{contains_name, names_of, str_eq};
use vstd::prelude::*;

verus! {

pub open spec fn edge_names(s: Seq<(String, String)>) -> Seq<(Seq<char>, Seq<char>)> {
    Seq::new(s.len(), |i: int| (s[i].0@, s[i].1@))
}

/// Whether `x` can be placed next: it is not placed, and every file of
/// the graph that must come before it is.
pub open spec fn is_ready(
    nodes: Seq<Seq<char>>,
    edges: Seq<(Seq<char>, Seq<char>)>,
    placed: Seq<Seq<char>>,
    x: Seq<char>,
) -> bool {
    !placed.contains(x) && forall|e: int|
        0 <= e < edges.len() && (#[trigger] edges[e]).1 == x && nodes.contains(edges[e].0)
            ==> placed.contains(edges[e].0)
}

/// The first place from `from` on of a file that can be placed next, or -1.
pub open spec fn first_ready(
    nodes: Seq<Seq<char>>,
    edges: Seq<(Seq<char>, Seq<char>)>,
    placed: Seq<Seq<char>>,
    from: int,
) -> int
    decreases nodes.len() - from,
{
    if from < 0 || from >= nodes.len() {
        -1
    } else if is_ready(nodes, edges, placed, nodes[from]) {
        from
    } else {
        first_ready(nodes, edges, placed, from + 1)
    }
}

/// What is placed after at most `rounds` more rounds, each of which
/// places the first file that can be placed, if there is one.
pub open spec fn extended(
    nodes: Seq<Seq<char>>,
    edges: Seq<(Seq<char>, Seq<char>)>,
    placed: Seq<Seq<char>>,
    rounds: nat,
) -> Seq<Seq<char>>
    decreases rounds,
{
    if rounds == 0 {
        placed
    } else {
        let i = first_ready(nodes, edges, placed, 0);
        if i < 0 {
            placed
        } else {
            extended(nodes, edges, placed.push(nodes[i]), (rounds - 1) as nat)
        }
    }
}

/// The files of a graph in the order in which they can be compiled, as
/// far as there is one: round by round the first file, in the order in
/// which the files came, of which everything that must come before it is
/// placed. Where files wait for each other in a circle, they and what
/// waits for them are missing.
pub open spec fn compile_order(nodes: Seq<Seq<char>>, edges: Seq<(Seq<char>, Seq<char>)>) -> Seq<
    Seq<char>,
> {
    extended(nodes, edges, Seq::empty(), nodes.len())
}

/// Whether in `order` every file stands after the files of the graph
/// that must come before it.
pub open spec fn respects(
    nodes: Seq<Seq<char>>,
    edges: Seq<(Seq<char>, Seq<char>)>,
    order: Seq<Seq<char>>,
) -> bool {
    forall|k: int, e: int|
        0 <= k < order.len() && 0 <= e < edges.len() && (#[trigger] edges[e]).1 == (
        #[trigger] order[k]) && nodes.contains(edges[e].0) ==> exists|j: int|
            0 <= j < k && order[j] == edges[e].0
}

/// Whether `order` holds files of the graph, none twice, each after the
/// files that must come before it.
pub open spec fn is_sound(
    nodes: Seq<Seq<char>>,
    edges: Seq<(Seq<char>, Seq<char>)>,
    order: Seq<Seq<char>>,
) -> bool {
    &&& order.no_duplicates()
    &&& forall|k: int| 0 <= k < order.len() ==> nodes.contains(#[trigger] order[k])
    &&& respects(nodes, edges, order)
}

/// Whether `x` must come after one of the files of `s`.
#[verifier::opaque]
pub open spec fn waits_within(edges: Seq<(Seq<char>, Seq<char>)>, s: Set<Seq<char>>, x: Seq<char>) -> bool {
    exists|e: int| 0 <= e < edges.len() && (#[trigger] edges[e]).1 == x && s.contains(edges[e].0)
}

/// Whether the files of `s` hold each other up: there are some, they are
/// files of the graph, and each of them must come after another of them.
pub open spec fn is_blocked(
    nodes: Seq<Seq<char>>,
    edges: Seq<(Seq<char>, Seq<char>)>,
    s: Set<Seq<char>>,
) -> bool {
    &&& exists|x: Seq<char>| s.contains(x)
    &&& forall|x: Seq<char>| #[trigger]
        s.contains(x) ==> nodes.contains(x) && waits_within(edges, s, x)
}

proof fn lemma_waits_for(edges: Seq<(Seq<char>, Seq<char>)>, s: Set<Seq<char>>, x: Seq<char>) -> (e:
    int)
    requires
        waits_within(edges, s, x),
    ensures
        0 <= e < edges.len(),
        edges[e].1 == x,
        s.contains(edges[e].0),
{
    reveal(waits_within);
    choose|e: int| 0 <= e < edges.len() && (#[trigger] edges[e]).1 == x && s.contains(edges[e].0)
}

proof fn lemma_waits_by(edges: Seq<(Seq<char>, Seq<char>)>, s: Set<Seq<char>>, x: Seq<char>, e: int)
    requires
        0 <= e < edges.len(),
        edges[e].1 == x,
        s.contains(edges[e].0),
    ensures
        waits_within(edges, s, x),
{
    reveal(waits_within);
}

/// Whether some files of the graph wait for each other in a circle.
pub open spec fn has_cycle(nodes: Seq<Seq<char>>, edges: Seq<(Seq<char>, Seq<char>)>) -> bool {
    exists|s: Set<Seq<char>>| is_blocked(nodes, edges, s)
}

proof fn lemma_first_ready(
    nodes: Seq<Seq<char>>,
    edges: Seq<(Seq<char>, Seq<char>)>,
    placed: Seq<Seq<char>>,
    from: int,
)
    requires
        0 <= from,
    ensures
        ({
            let i = first_ready(nodes, edges, placed, from);
            &&& i == -1 || (from <= i < nodes.len() && is_ready(nodes, edges, placed, nodes[i]))
            &&& forall|j: int|
                from <= j < nodes.len() && (i == -1 || j < i) ==> !is_ready(
                    nodes,
                    edges,
                    placed,
                    #[trigger] nodes[j],
                )
        }),
    decreases nodes.len() - from,
{
    if from < nodes.len() && !is_ready(nodes, edges, placed, nodes[from]) {
        lemma_first_ready(nodes, edges, placed, from + 1);
    }
}

proof fn lemma_extended(
    nodes: Seq<Seq<char>>,
    edges: Seq<(Seq<char>, Seq<char>)>,
    placed: Seq<Seq<char>>,
    rounds: nat,
)
    requires
        is_sound(nodes, edges, placed),
    ensures
        ({
            let order = extended(nodes, edges, placed, rounds);
            &&& is_sound(nodes, edges, order)
            &&& order.len() <= placed.len() + rounds
            &&& order.len() < placed.len() + rounds ==> first_ready(nodes, edges, order, 0) < 0
        }),
    decreases rounds,
{
    if rounds > 0 {
        let i = first_ready(nodes, edges, placed, 0);
        lemma_first_ready(nodes, edges, placed, 0);
        if i >= 0 {
            let x = nodes[i];
            let next = placed.push(x);
            assert forall|k: int, e: int|
                0 <= k < next.len() && 0 <= e < edges.len() && (#[trigger] edges[e]).1 == (
                #[trigger] next[k]) && nodes.contains(edges[e].0) implies exists|j: int|
                0 <= j < k && next[j] == edges[e].0 by {
                if k < placed.len() {
                    assert(placed[k] == next[k]);
                    let j = choose|j: int| 0 <= j < k && placed[j] == edges[e].0;
                    assert(next[j] == edges[e].0);
                } else {
                    assert(placed.contains(edges[e].0));
                    let j = choose|j: int| 0 <= j < placed.len() && placed[j] == edges[e].0;
                    assert(next[j] == edges[e].0);
                }
            }
            assert forall|a: int, b: int| 0 <= a < next.len() && 0 <= b < next.len() && a
                != b implies next[a] != next[b] by {
                if a < placed.len() && b < placed.len() {
                    assert(placed[a] != placed[b]);
                } else if a < placed.len() {
                    assert(placed.contains(placed[a]));
                } else {
                    assert(placed.contains(placed[b]));
                }
            }
            assert forall|k: int| 0 <= k < next.len() implies nodes.contains(#[trigger] next[k]) by {
                if k < placed.len() {
                    assert(next[k] == placed[k]);
                }
            }
            lemma_extended(nodes, edges, next, (rounds - 1) as nat);
        }
    }
}

/// The compile order holds files of the graph, none twice, each after
/// the files that must come before it.
pub proof fn lemma_compile_order_is_sound(
    nodes: Seq<Seq<char>>,
    edges: Seq<(Seq<char>, Seq<char>)>,
)
    ensures
        is_sound(nodes, edges, compile_order(nodes, edges)),
        compile_order(nodes, edges).len() <= nodes.len(),
{
    lemma_extended(nodes, edges, Seq::empty(), nodes.len());
}

proof fn lemma_first_member(order: Seq<Seq<char>>, s: Set<Seq<char>>, upto: int) -> (k: int)
    requires
        0 <= upto <= order.len(),
        exists|i: int| 0 <= i < upto && s.contains(order[i]),
    ensures
        0 <= k < upto,
        s.contains(order[k]),
        forall|j: int| 0 <= j < k ==> !s.contains(order[j]),
    decreases upto,
{
    if exists|i: int| 0 <= i < upto - 1 && s.contains(order[i]) {
        lemma_first_member(order, s, upto - 1)
    } else {
        upto - 1
    }
}

/// Of two lists without repetition, the shorter being part of the
/// longer, the longer holds something that the shorter lacks.
proof fn lemma_something_is_missing(part: Seq<Seq<char>>, whole: Seq<Seq<char>>) -> (x: Seq<char>)
    requires
        part.no_duplicates(),
        whole.no_duplicates(),
        part.len() < whole.len(),
    ensures
        whole.contains(x),
        !part.contains(x),
{
    part.unique_seq_to_set();
    whole.unique_seq_to_set();
    vstd::seq_lib::seq_to_set_is_finite(part);
    vstd::seq_lib::seq_to_set_is_finite(whole);
    if forall|y: Seq<char>| whole.contains(y) ==> part.contains(y) {
        assert forall|y: Seq<char>| whole.to_set().contains(y) implies part.to_set().contains(y) by {
            assert(whole.contains(y));
        }
        vstd::set_lib::lemma_len_subset(whole.to_set(), part.to_set());
        assert(false);
    }
    choose|y: Seq<char>| whole.contains(y) && !part.contains(y)
}

/// Of two lists without repetition and of the same length, one being
/// part of the other, each holds what the other holds.
proof fn lemma_nothing_is_missing(part: Seq<Seq<char>>, whole: Seq<Seq<char>>)
    requires
        part.no_duplicates(),
        whole.no_duplicates(),
        part.len() == whole.len(),
        forall|k: int| 0 <= k < part.len() ==> whole.contains(#[trigger] part[k]),
    ensures
        forall|x: Seq<char>| whole.contains(x) <==> part.contains(x),
{
    part.unique_seq_to_set();
    whole.unique_seq_to_set();
    vstd::seq_lib::seq_to_set_is_finite(part);
    vstd::seq_lib::seq_to_set_is_finite(whole);
    assert forall|x: Seq<char>| part.to_set().contains(x) implies whole.to_set().contains(x) by {
        let k = choose|k: int| 0 <= k < part.len() && part[k] == x;
        assert(whole.contains(part[k]));
    }
    vstd::set_lib::lemma_subset_equality(part.to_set(), whole.to_set());
    assert forall|x: Seq<char>| whole.contains(x) <==> part.contains(x) by {
        assert(whole.to_set().contains(x) == part.to_set().contains(x));
    }
}

/// Where the compile order leaves files out, the files left out hold
/// each other up.
pub proof fn lemma_incomplete_order_has_cycle(
    nodes: Seq<Seq<char>>,
    edges: Seq<(Seq<char>, Seq<char>)>,
)
    requires
        nodes.no_duplicates(),
        compile_order(nodes, edges).len() < nodes.len(),
    ensures
        has_cycle(nodes, edges),
{
    let order = compile_order(nodes, edges);
    lemma_extended(nodes, edges, Seq::empty(), nodes.len());
    let s = Set::new(|x: Seq<char>| nodes.contains(x) && !order.contains(x));
    let missing = lemma_something_is_missing(order, nodes);
    assert(s.contains(missing));
    lemma_first_ready(nodes, edges, order, 0);
    assert forall|x: Seq<char>| #[trigger] s.contains(x) implies nodes.contains(x) && waits_within(
        edges,
        s,
        x,
    ) by {
        let i = choose|i: int| 0 <= i < nodes.len() && nodes[i] == x;
        assert(!is_ready(nodes, edges, order, nodes[i]));
        let e = choose|e: int|
            0 <= e < edges.len() && (#[trigger] edges[e]).1 == x && nodes.contains(edges[e].0)
                && !order.contains(edges[e].0);
        assert(s.contains(edges[e].0));
        lemma_waits_by(edges, s, x, e);
    }
    assert(is_blocked(nodes, edges, s));
}

/// An order that holds every file of the graph, each after the files
/// that must come before it, shows that no files hold each other up.
pub proof fn lemma_full_order_excludes_cycle(
    nodes: Seq<Seq<char>>,
    edges: Seq<(Seq<char>, Seq<char>)>,
    order: Seq<Seq<char>>,
)
    requires
        respects(nodes, edges, order),
        forall|x: Seq<char>| nodes.contains(x) ==> order.contains(x),
    ensures
        !has_cycle(nodes, edges),
{
    if has_cycle(nodes, edges) {
        let s = choose|s: Set<Seq<char>>| is_blocked(nodes, edges, s);
        let x = choose|x: Seq<char>| s.contains(x);
        assert(nodes.contains(x));
        assert(order.contains(x));
        let at = choose|i: int| 0 <= i < order.len() && order[i] == x;
        assert(s.contains(order[at]));
        let k = lemma_first_member(order, s, order.len() as int);
        assert(s.contains(order[k]));
        let e = lemma_waits_for(edges, s, order[k]);
        assert(s.contains(edges[e].0));
        assert(nodes.contains(edges[e].0));
        let j = choose|j: int| 0 <= j < k && order[j] == edges[e].0;
        assert(false);
    }
}

/// The compile order leaves files out exactly when some files of the
/// graph wait for each other in a circle; else it holds every file.
pub proof fn lemma_order_is_complete_unless_cyclic(
    nodes: Seq<Seq<char>>,
    edges: Seq<(Seq<char>, Seq<char>)>,
)
    requires
        nodes.no_duplicates(),
    ensures
        compile_order(nodes, edges).len() < nodes.len() <==> has_cycle(nodes, edges),
        compile_order(nodes, edges).len() == nodes.len() ==> forall|x: Seq<char>|
            nodes.contains(x) <==> compile_order(nodes, edges).contains(x),
{
    let order = compile_order(nodes, edges);
    lemma_extended(nodes, edges, Seq::empty(), nodes.len());
    if order.len() < nodes.len() {
        lemma_incomplete_order_has_cycle(nodes, edges);
    } else {
        lemma_nothing_is_missing(order, nodes);
        lemma_full_order_excludes_cycle(nodes, edges, order);
    }
}

/// Whether `x` can be placed next.
fn node_is_ready(
    nodes: &Vec<String>,
    edges: &Vec<(String, String)>,
    placed: &Vec<String>,
    x: &str,
) -> (r: bool)
    ensures
        r == is_ready(names_of(nodes@), edge_names(edges@), names_of(placed@), x@),
{
    if contains_name(placed, x) {
        return false;
    }
    let mut e: usize = 0;
    while e < edges.len()
        invariant
            e <= edges.len(),
            forall|k: int|
                0 <= k < e && (#[trigger] edge_names(edges@)[k]).1 == x@ && names_of(
                    nodes@,
                ).contains(edge_names(edges@)[k].0) ==> names_of(placed@).contains(
                    edge_names(edges@)[k].0,
                ),
        decreases edges.len() - e,
    {
        assert(edge_names(edges@)[e as int] == (edges@[e as int].0@, edges@[e as int].1@));
        if str_eq(edges[e].1.as_str(), x) && contains_name(nodes, edges[e].0.as_str())
            && !contains_name(placed, edges[e].0.as_str()) {
            return false;
        }
        e = e + 1;
    }
    true
}

/// The place of the first file that can be placed next.
fn find_ready(nodes: &Vec<String>, edges: &Vec<(String, String)>, placed: &Vec<String>) -> (r:
    Option<usize>)
    ensures
        match r {
            Some(i) => i < nodes.len() && first_ready(
                names_of(nodes@),
                edge_names(edges@),
                names_of(placed@),
                0,
            ) == i as int,
            None => first_ready(names_of(nodes@), edge_names(edges@), names_of(placed@), 0) == -1,
        },
{
    let mut i: usize = 0;
    while i < nodes.len()
        invariant
            i <= nodes.len(),
            first_ready(names_of(nodes@), edge_names(edges@), names_of(placed@), 0) == first_ready(
                names_of(nodes@),
                edge_names(edges@),
                names_of(placed@),
                i as int,
            ),
        decreases nodes.len() - i,
    {
        assert(names_of(nodes@)[i as int] == nodes@[i as int]@);
        if node_is_ready(nodes, edges, placed, nodes[i].as_str()) {
            return Some(i);
        }
        i = i + 1;
    }
    None
}

/// Puts the files of a graph in an order in which they can be compiled.
pub fn topological_order(nodes: &Vec<String>, edges: &Vec<(String, String)>) -> (order: Vec<String>)
    ensures
        names_of(order@) == compile_order(names_of(nodes@), edge_names(edges@)),
{
    let mut placed: Vec<String> = Vec::new();
    let mut round: usize = 0;
    assert(names_of(placed@) =~= Seq::<Seq<char>>::empty());
    while round < nodes.len()
        invariant
            round <= nodes.len(),
            extended(
                names_of(nodes@),
                edge_names(edges@),
                names_of(placed@),
                (nodes.len() - round) as nat,
            ) == compile_order(names_of(nodes@), edge_names(edges@)),
        decreases nodes.len() - round,
    {
        let ghost before = names_of(placed@);
        match find_ready(nodes, edges, &placed) {
            Some(i) => {
                placed.push(nodes[i].clone());
                assert(names_of(placed@) =~= before.push(names_of(nodes@)[i as int]));
            },
            None => {
                return placed;
            },
        }
        round = round + 1;
    }
    placed
}

} // verus!
