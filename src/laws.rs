use vstd::prelude::*;

use crate::definitions::FlowElement;
use crate::engine::{
    all_identified, build_edges, build_vertices, process_elements, resolve,
    BPMNEngine,
};
use crate::graph::{has_key, insert_entry, key_index, lemma_insert_entry, lemma_lookup_at, lookup, unique_keys, Graph};

verus! {

/// No two flow nodes among `elems` share an identifier.
pub open spec fn distinct_node_ids(elems: Seq<FlowElement>) -> bool {
    forall|i: int, j: int|
        0 <= i < j < elems.len() && (#[trigger] elems[i]).is_node() && (#[trigger] elems[j]).is_node()
            ==> node_key(elems[i]) != node_key(elems[j])
}

/// The identifier of a flow node, as characters.
pub open spec fn node_key(e: FlowElement) -> Seq<char> {
    e.spec_id()->Some_0@
}

/// The (source, target, label) edge a sequence flow stands for.
pub open spec fn flow_edge(e: FlowElement) -> (Seq<char>, Seq<char>, ()) {
    (e->SequenceFlow_0.source_ref@, e->SequenceFlow_0.target_ref@, ())
}

/// Building from identified flow nodes with distinct identifiers: one vertex
/// per flow node, each found under its identifier with the node itself as
/// payload, and no other vertex.
pub proof fn lemma_build_vertices(elems: Seq<FlowElement>)
    requires
        all_identified(elems),
        distinct_node_ids(elems),
    ensures
        unique_keys(build_vertices(elems)),
        build_vertices(elems).len() == elems.filter(|e: FlowElement| e.is_node()).len(),
        forall|i: int|
            0 <= i < elems.len() && (#[trigger] elems[i]).is_node() ==> lookup(
                build_vertices(elems),
                node_key(elems[i]),
            ) == Some(elems[i]),
        forall|k: Seq<char>|
            has_key(build_vertices(elems), k) ==> exists|i: int|
                0 <= i < elems.len() && (#[trigger] elems[i]).is_node() && node_key(elems[i]) == k,
    decreases elems.len(),
{
    reveal(Seq::filter);
    if elems.len() > 0 {
        let p = elems.drop_last();
        let e = elems.last();
        let n = elems.len() - 1;
        assert forall|i: int| 0 <= i < p.len() && (#[trigger] p[i]).is_node() implies p[i].spec_id() is Some by {
            assert(p[i] == elems[i]);
        }
        assert forall|i: int, j: int|
            0 <= i < j < p.len() && (#[trigger] p[i]).is_node() && (#[trigger] p[j]).is_node()
                implies node_key(p[i]) != node_key(p[j]) by {
            assert(p[i] == elems[i] && p[j] == elems[j]);
        }
        lemma_build_vertices(p);
        let prev = build_vertices(p);
        if e.is_node() {
            assert(elems[n].is_node());
            let k = node_key(e);
            if has_key(prev, k) {
                let i = choose|i: int| 0 <= i < p.len() && (#[trigger] p[i]).is_node() && node_key(p[i]) == k;
                assert(p[i] == elems[i]);
                assert(node_key(elems[i]) != node_key(elems[n]));
            }
            lemma_insert_entry(prev, k, e);
            let cur = insert_entry(prev, k, e);
            assert forall|i: int|
                0 <= i < elems.len() && (#[trigger] elems[i]).is_node() implies lookup(
                    cur,
                    node_key(elems[i]),
                ) == Some(elems[i]) by {
                if i < n {
                    assert(p[i] == elems[i]);
                    assert(node_key(elems[i]) != node_key(elems[n]));
                }
            }
            assert forall|k2: Seq<char>| has_key(cur, k2) implies exists|i: int|
                0 <= i < elems.len() && (#[trigger] elems[i]).is_node() && node_key(elems[i]) == k2 by {
                if k2 == k {
                    assert(elems[n].is_node() && node_key(elems[n]) == k2);
                } else {
                    lemma_lookup_at(cur, key_index(cur, k2));
                    assert(has_key(prev, k2));
                    let i = choose|i: int| 0 <= i < p.len() && (#[trigger] p[i]).is_node() && node_key(p[i]) == k2;
                    assert(p[i] == elems[i]);
                }
            }
        } else {
            assert forall|i: int|
                0 <= i < elems.len() && (#[trigger] elems[i]).is_node() implies lookup(
                    prev,
                    node_key(elems[i]),
                ) == Some(elems[i]) by {
                assert(p[i] == elems[i]);
            }
            assert forall|k2: Seq<char>| has_key(prev, k2) implies exists|i: int|
                0 <= i < elems.len() && (#[trigger] elems[i]).is_node() && node_key(elems[i]) == k2 by {
                let i = choose|i: int| 0 <= i < p.len() && (#[trigger] p[i]).is_node() && node_key(p[i]) == k2;
                assert(p[i] == elems[i]);
            }
        }
    }
}

/// Building yields exactly one edge per sequence flow, from its source to its
/// target, in document order.
pub proof fn lemma_build_edges(elems: Seq<FlowElement>)
    ensures
        build_edges(elems) == elems.filter(|e: FlowElement| e is SequenceFlow).map_values(
            |e: FlowElement| flow_edge(e),
        ),
    decreases elems.len(),
{
    reveal(Seq::filter);
    if elems.len() > 0 {
        lemma_build_edges(elems.drop_last());
        let f = elems.drop_last().filter(|e: FlowElement| e is SequenceFlow);
        if elems.last() is SequenceFlow {
            assert(f.push(elems.last()).map_values(|e: FlowElement| flow_edge(e)) =~= f.map_values(
                |e: FlowElement| flow_edge(e),
            ).push(flow_edge(elems.last())));
        }
    } else {
        assert(elems.filter(|e: FlowElement| e is SequenceFlow).map_values(
            |e: FlowElement| flow_edge(e),
        ) =~= Seq::empty());
    }
}

/// For a document whose processes hold N flow nodes, all identified and with
/// distinct identifiers, and M sequence flows, the graph `BPMNEngine::new`
/// builds has exactly N vertices (each node under its own identifier) and
/// exactly the M (source, target) edges, in document order; the targets of
/// each source are thus grouped in document order.
pub proof fn law_build_counts(roots: Seq<crate::definitions::RootElement>)
    requires
        all_identified(process_elements(roots)),
        distinct_node_ids(process_elements(roots)),
    ensures
        ({
            let elems = process_elements(roots);
            &&& build_vertices(elems).len() == elems.filter(|e: FlowElement| e.is_node()).len()
            &&& forall|i: int|
                0 <= i < elems.len() && (#[trigger] elems[i]).is_node() ==> lookup(
                    build_vertices(elems),
                    node_key(elems[i]),
                ) == Some(elems[i])
            &&& build_edges(elems).len() == elems.filter(|e: FlowElement| e is SequenceFlow).len()
            &&& build_edges(elems) == elems.filter(|e: FlowElement| e is SequenceFlow).map_values(
                |e: FlowElement| flow_edge(e),
            )
        }),
{
    lemma_build_vertices(process_elements(roots));
    lemma_build_edges(process_elements(roots));
}

/// `resolve` succeeds exactly when every identifier names a vertex, and then
/// yields their payloads in order.
pub proof fn lemma_resolve(g: Graph<FlowElement, ()>, ts: Seq<Seq<char>>)
    ensures
        resolve(g, ts) is Ok <==> forall|i: int| 0 <= i < ts.len() ==> (#[trigger] g.vertex(ts[i])) is Some,
        (forall|i: int| 0 <= i < ts.len() ==> (#[trigger] g.vertex(ts[i])) is Some) ==> resolve(g, ts)
            == Ok::<Seq<FlowElement>, Seq<char>>(ts.map_values(|t: Seq<char>| g.vertex(t)->Some_0)),
    decreases ts.len(),
{
    if ts.len() == 0 {
        assert(ts.map_values(|t: Seq<char>| g.vertex(t)->Some_0) =~= Seq::empty());
    } else {
        let p = ts.drop_last();
        lemma_resolve(g, p);
        if forall|i: int| 0 <= i < ts.len() ==> (#[trigger] g.vertex(ts[i])) is Some {
            assert forall|i: int| 0 <= i < p.len() implies (#[trigger] g.vertex(p[i])) is Some by {
                assert(p[i] == ts[i]);
                assert(g.vertex(ts[i]) is Some);
            }
            assert(g.vertex(ts[ts.len() - 1]) is Some);
            assert(ts.map_values(|t: Seq<char>| g.vertex(t)->Some_0) =~= p.map_values(
                |t: Seq<char>| g.vertex(t)->Some_0,
            ).push(g.vertex(ts.last())->Some_0));
        } else {
            let i = choose|i: int| 0 <= i < ts.len() && !(#[trigger] g.vertex(ts[i]) is Some);
            if i < ts.len() - 1 {
                assert(p[i] == ts[i]);
            }
        }
    }
}

/// Before navigation starts, the options are exactly the start-event
/// vertices of the graph, whatever their place in the document: each option
/// is a start event held by some vertex, and every start event held by a
/// vertex is an option.
pub proof fn law_fresh_options(e: BPMNEngine)
    requires
        e.wf(),
        e.cursor() is None,
    ensures
        e.spec_options() is Ok,
        forall|x: FlowElement|
            e.spec_options()->Ok_0.contains(x) <==> (x is StartEvent && exists|k: Seq<char>|
                #[trigger] e.graph().vertex(k) == Some(x)),
{
    let s = e.graph().vertex_entries();
    let pay = s.map_values(|p: (Seq<char>, FlowElement)| p.1);
    let pred = |x: FlowElement| x is StartEvent;
    assert(e.spec_options()->Ok_0 == pay.filter(pred));
    pay.filter_lemma(pred);
    assert forall|x: FlowElement|
        e.spec_options()->Ok_0.contains(x) implies (x is StartEvent && exists|k: Seq<char>|
            #[trigger] e.graph().vertex(k) == Some(x)) by {
        let j = choose|j: int| 0 <= j < pay.filter(pred).len() && pay.filter(pred)[j] == x;
        assert(pred(pay.filter(pred)[j]));
        pay.lemma_filter_contains_rev(pred, x);
        let i = choose|i: int| 0 <= i < pay.len() && pay[i] == x;
        lemma_lookup_at(s, i);
        assert(e.graph().vertex(s[i].0) == Some(x));
    }
    assert forall|x: FlowElement|
        (x is StartEvent && exists|k: Seq<char>| #[trigger] e.graph().vertex(k) == Some(x)) implies e.spec_options()->Ok_0.contains(x) by {
        let k = choose|k: Seq<char>| #[trigger] e.graph().vertex(k) == Some(x);
        let i = key_index(s, k);
        assert(pay[i] == x);
        assert(pred(pay[i]));
    }
}

/// After the cursor moves to `v` (what `next` ensures), the options are the
/// payloads of `v`'s edge targets, in the order the edges were added,
/// provided each target names a vertex.
pub proof fn law_advance_options(before: BPMNEngine, after: BPMNEngine, v: Seq<char>)
    requires
        before.wf(),
        after.graph() == before.graph(),
        after.cursor() == Some(v),
        after.graph().vertex(v) is Some,
        forall|i: int|
            0 <= i < after.graph().adjacent_of(v).len() ==> (#[trigger] after.graph().vertex(
                after.graph().adjacent_of(v)[i],
            )) is Some,
    ensures
        after.spec_options() == Ok::<Seq<FlowElement>, Seq<char>>(
            after.graph().adjacent_of(v).map_values(|t: Seq<char>| after.graph().vertex(t)->Some_0),
        ),
{
    lemma_resolve(after.graph(), after.graph().adjacent_of(v));
}

/// Moving the cursor to an identifier `x` that names no vertex: the options
/// are then empty when no edge leaves `x`, and fail on a dangling target when
/// some edge leaving `x` leads nowhere.
pub proof fn law_advance_unknown(before: BPMNEngine, after: BPMNEngine, x: Seq<char>)
    requires
        before.wf(),
        after.graph() == before.graph(),
        after.cursor() == Some(x),
        after.graph().vertex(x) is None,
        after.graph().adjacent_of(x).len() == 0 || exists|i: int|
            0 <= i < after.graph().adjacent_of(x).len() && (#[trigger] after.graph().vertex(
                after.graph().adjacent_of(x)[i],
            )) is None,
    ensures
        after.graph().adjacent_of(x).len() == 0 ==> after.spec_options() == Ok::<
            Seq<FlowElement>,
            Seq<char>,
        >(Seq::empty()),
        after.graph().adjacent_of(x).len() > 0 ==> after.spec_options() is Err,
{
    lemma_resolve(after.graph(), after.graph().adjacent_of(x));
    if after.graph().adjacent_of(x).len() == 0 {
        assert(after.graph().adjacent_of(x).map_values(|t: Seq<char>| after.graph().vertex(t)->Some_0)
            =~= Seq::empty());
    }
}

/// Each vertex that building yields holds a flow node whose identifier is
/// the vertex's key.
pub proof fn lemma_build_keys(elems: Seq<FlowElement>)
    requires
        all_identified(elems),
    ensures
        forall|i: int|
            0 <= i < build_vertices(elems).len() ==> (#[trigger] build_vertices(elems)[i]).1.spec_id() is Some
                && node_key(build_vertices(elems)[i].1) == build_vertices(elems)[i].0,
    decreases elems.len(),
{
    if elems.len() > 0 {
        let p = elems.drop_last();
        assert forall|i: int| 0 <= i < p.len() && (#[trigger] p[i]).is_node() implies p[i].spec_id() is Some by {
            assert(p[i] == elems[i]);
        }
        lemma_build_keys(p);
        assert(elems[elems.len() - 1] == elems.last());
    }
}

/// No two entries of `s` hold nodes with the same identifier.
pub open spec fn distinct_keys(s: Seq<FlowElement>) -> bool {
    forall|i: int, j: int| 0 <= i < j < s.len() ==> node_key(#[trigger] s[i]) != node_key(#[trigger] s[j])
}

proof fn lemma_filter_distinct(s: Seq<FlowElement>, pred: spec_fn(FlowElement) -> bool)
    requires
        distinct_keys(s),
    ensures
        distinct_keys(s.filter(pred)),
    decreases s.len(),
{
    reveal(Seq::filter);
    if s.len() > 0 {
        let p = s.drop_last();
        assert forall|i: int, j: int| 0 <= i < j < p.len() implies node_key(#[trigger] p[i]) != node_key(
            #[trigger] p[j],
        ) by {
            assert(p[i] == s[i] && p[j] == s[j]);
        }
        lemma_filter_distinct(p, pred);
        let f = p.filter(pred);
        if pred(s.last()) {
            let g = f.push(s.last());
            assert forall|i: int, j: int| 0 <= i < j < g.len() implies node_key(#[trigger] g[i]) != node_key(
                #[trigger] g[j],
            ) by {
                if j == g.len() - 1 {
                    assert(f.contains(g[i]));
                    p.lemma_filter_contains_rev(pred, g[i]);
                    let q = choose|q: int| 0 <= q < p.len() && p[q] == g[i];
                    assert(s[q] == p[q]);
                    assert(node_key(s[q]) != node_key(s[s.len() - 1]));
                } else {
                    assert(g[i] == f[i] && g[j] == f[j]);
                }
            }
        }
    }
}

/// Before navigation starts on an engine built from a document, no start
/// event is listed twice: the options carry pairwise distinct identifiers.
pub proof fn law_fresh_options_distinct(roots: Seq<crate::definitions::RootElement>, e: BPMNEngine)
    requires
        all_identified(process_elements(roots)),
        e.wf(),
        e.cursor() is None,
        e.graph().vertex_entries() == build_vertices(process_elements(roots)),
    ensures
        e.spec_options() is Ok,
        distinct_keys(e.spec_options()->Ok_0),
{
    let s = e.graph().vertex_entries();
    lemma_build_keys(process_elements(roots));
    let pay = s.map_values(|p: (Seq<char>, FlowElement)| p.1);
    assert forall|i: int, j: int| 0 <= i < j < pay.len() implies node_key(#[trigger] pay[i]) != node_key(
        #[trigger] pay[j],
    ) by {
        assert(pay[i] == s[i].1 && pay[j] == s[j].1);
        assert(node_key(s[i].1) == s[i].0);
        assert(node_key(s[j].1) == s[j].0);
    }
    lemma_filter_distinct(pay, |x: FlowElement| x is StartEvent);
}

} // verus!
