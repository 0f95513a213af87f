use vstd::prelude::*;

use crate::definitions::{opt_view, Definitions, FlowElement, Id, RootElement};
use crate::error::Error;
use crate::graph::{insert_entry, Graph};

verus! {

/// The flow elements of every process among `roots`, in document order.
pub open spec fn process_elements(roots: Seq<RootElement>) -> Seq<FlowElement>
    decreases roots.len(),
{
    if roots.len() == 0 {
        Seq::empty()
    } else {
        let rest = process_elements(roots.drop_last());
        match roots.last() {
            RootElement::Process(p) => rest + p.flow_elements@,
            _ => rest,
        }
    }
}

/// Every flow node among `elems` carries an identifier.
pub open spec fn all_identified(elems: Seq<FlowElement>) -> bool {
    forall|i: int| 0 <= i < elems.len() && (#[trigger] elems[i]).is_node() ==> elems[i].spec_id() is Some
}

/// The vertices that building from `elems` yields: each flow node, in
/// document order, inserted under its identifier.
pub open spec fn build_vertices(elems: Seq<FlowElement>) -> Seq<(Seq<char>, FlowElement)>
    decreases elems.len(),
{
    if elems.len() == 0 {
        Seq::empty()
    } else {
        let prev = build_vertices(elems.drop_last());
        let e = elems.last();
        if e.is_node() && e.spec_id() is Some {
            insert_entry(prev, e.spec_id()->Some_0@, e)
        } else {
            prev
        }
    }
}

/// The edges that building from `elems` yields: one per sequence flow, from
/// its source to its target, in document order.
pub open spec fn build_edges(elems: Seq<FlowElement>) -> Seq<(Seq<char>, Seq<char>, ())>
    decreases elems.len(),
{
    if elems.len() == 0 {
        Seq::empty()
    } else {
        let prev = build_edges(elems.drop_last());
        match elems.last() {
            FlowElement::SequenceFlow(f) => prev.push((f.source_ref@, f.target_ref@, ())),
            _ => prev,
        }
    }
}

/// The payloads of the start-event vertices among `entries`, in order.
pub open spec fn start_payloads(entries: Seq<(Seq<char>, FlowElement)>) -> Seq<FlowElement> {
    entries.map_values(|p: (Seq<char>, FlowElement)| p.1).filter(|e: FlowElement| e is StartEvent)
}

/// Looks up each identifier of `ts` in `g`, in order: the payloads found, or
/// the first identifier that names no vertex.
pub open spec fn resolve(g: Graph<FlowElement, ()>, ts: Seq<Seq<char>>) -> Result<
    Seq<FlowElement>,
    Seq<char>,
>
    decreases ts.len(),
{
    if ts.len() == 0 {
        Ok(Seq::empty())
    } else {
        match resolve(g, ts.drop_last()) {
            Err(t) => Err(t),
            Ok(found) => match g.vertex(ts.last()) {
                Some(v) => Ok(found.push(v)),
                None => Err(ts.last()),
            },
        }
    }
}

/// One column of text per identifier of `ts`: the label of the vertex it
/// names, or a marker when it names none.
pub open spec fn neighbor_text(g: Graph<FlowElement, ()>, ts: Seq<Seq<char>>) -> Seq<char>
    decreases ts.len(),
{
    if ts.len() == 0 {
        Seq::empty()
    } else {
        neighbor_text(g, ts.drop_last()) + "         "@ + match g.vertex(ts.last()) {
            Some(v) => v.spec_label(),
            None => "Not Implemented"@,
        }
    }
}

/// Per vertex of `entries`, in order: its label, then its neighbours.
pub open spec fn render_entries(g: Graph<FlowElement, ()>, entries: Seq<(Seq<char>, FlowElement)>) -> Seq<char>
    decreases entries.len(),
{
    if entries.len() == 0 {
        Seq::empty()
    } else {
        render_entries(g, entries.drop_last()) + entries.last().1.spec_label() + "         NEIGHBORS:"@
            + neighbor_text(g, g.adjacent_of(entries.last().0))
    }
}

/// Gathering the flow elements of two runs of roots one after the other is
/// gathering each run's and concatenating.
pub proof fn lemma_process_elements_add(a: Seq<RootElement>, b: Seq<RootElement>)
    ensures
        process_elements(a + b) == process_elements(a) + process_elements(b),
    decreases b.len(),
{
    if b.len() == 0 {
        assert(a + b =~= a);
        assert(process_elements(a) + process_elements(b) =~= process_elements(a));
    } else {
        assert((a + b).drop_last() =~= a + b.drop_last());
        lemma_process_elements_add(a, b.drop_last());
        match b.last() {
            RootElement::Process(p) => {
                assert(process_elements(a) + process_elements(b) =~= process_elements(a)
                    + process_elements(b.drop_last()) + p.flow_elements@);
            },
            _ => {},
        }
    }
}

/// Once a prefix of `ts` meets an unresolved identifier, so does all of `ts`.
proof fn lemma_resolve_err_prefix(g: Graph<FlowElement, ()>, ts: Seq<Seq<char>>, i: int)
    requires
        0 <= i <= ts.len(),
        resolve(g, ts.subrange(0, i)) is Err,
    ensures
        resolve(g, ts) == resolve(g, ts.subrange(0, i)),
    decreases ts.len() - i,
{
    if i == ts.len() {
        assert(ts.subrange(0, i) =~= ts);
    } else {
        let ts2 = ts.drop_last();
        assert(ts2.subrange(0, i) =~= ts.subrange(0, i));
        lemma_resolve_err_prefix(g, ts2, i);
    }
}

/// The navigation engine: the graph built from a document and a cursor that
/// is either unset (navigation has not started) or the identifier of the
/// current flow node.
pub struct BPMNEngine {
    flow: Graph<FlowElement, ()>,
    current: Option<Id>,
}

impl BPMNEngine {
    /// The graph the engine navigates.
    pub closed spec fn graph(&self) -> Graph<FlowElement, ()> {
        self.flow
    }

    /// The cursor: `None` before navigation starts.
    pub closed spec fn cursor(&self) -> Option<Seq<char>> {
        opt_view(self.current)
    }

    pub open spec fn wf(&self) -> bool {
        self.graph().wf()
    }

    /// What `options` returns: at the start, the start events; at a flow
    /// node, the payloads of its edge targets, or the first target that names
    /// no vertex.
    pub open spec fn spec_options(&self) -> Result<Seq<FlowElement>, Seq<char>> {
        match self.cursor() {
            None => Ok(start_payloads(self.graph().vertex_entries())),
            Some(v) => resolve(self.graph(), self.graph().adjacent_of(v)),
        }
    }

    /// Builds the graph of every process of `definitions`: a vertex for each
    /// flow node, keyed by its identifier, and an edge for each sequence
    /// flow. Navigation starts unset; `_at` is not used.
    pub fn new(definitions: Definitions, _at: Option<Id>) -> (r: Result<Self, Error>)
        ensures
            r is Ok <==> all_identified(process_elements(definitions.root_elements@)),
            match r {
                Ok(e) => {
                    &&& e.wf()
                    &&& e.cursor() is None
                    &&& e.graph().vertex_entries() == build_vertices(
                        process_elements(definitions.root_elements@),
                    )
                    &&& e.graph().edge_list() == build_edges(
                        process_elements(definitions.root_elements@),
                    )
                },
                Err(err) => err is MissingIdentifier,
            },
    {
        let ghost roots0 = definitions.root_elements@;
        let mut graph: Graph<FlowElement, ()> = Graph::new();
        let mut roots = definitions.root_elements;
        let ghost mut i: int = 0;
        while roots.len() > 0
            invariant
                0 <= i <= roots0.len(),
                roots0 == definitions.root_elements@,
                roots@ == roots0.subrange(i, roots0.len() as int),
                graph.wf(),
                all_identified(process_elements(roots0.subrange(0, i))),
                graph.vertex_entries() == build_vertices(process_elements(roots0.subrange(0, i))),
                graph.edge_list() == build_edges(process_elements(roots0.subrange(0, i))),
            decreases roots@.len(),
        {
            let ghost done = process_elements(roots0.subrange(0, i));
            let root = roots.remove(0);
            assert(roots0.subrange(0, i + 1).drop_last() =~= roots0.subrange(0, i));
            assert(root == roots0[i]);
            match root {
                RootElement::Process(process) => {
                    let ghost elems0 = process.flow_elements@;
                    assert(process_elements(roots0.subrange(0, i + 1)) == done + elems0);
                    let mut elems = process.flow_elements;
                    let ghost mut j: int = 0;
                    while elems.len() > 0
                        invariant
                            0 <= j <= elems0.len(),
                            0 <= i < roots0.len(),
                            roots0 == definitions.root_elements@,
                            done == process_elements(roots0.subrange(0, i)),
                            process_elements(roots0.subrange(0, i + 1)) == done + elems0,
                            elems@ == elems0.subrange(j, elems0.len() as int),
                            graph.wf(),
                            all_identified(done + elems0.subrange(0, j)),
                            graph.vertex_entries() == build_vertices(done + elems0.subrange(0, j)),
                            graph.edge_list() == build_edges(done + elems0.subrange(0, j)),
                        decreases elems@.len(),
                    {
                        let e = elems.remove(0);
                        let ghost prefix = done + elems0.subrange(0, j + 1);
                        assert(prefix.drop_last() =~= done + elems0.subrange(0, j));
                        assert(prefix.last() == e);
                        match e {
                            FlowElement::SequenceFlow(f) => {
                                graph.push_edge(f.source_ref, f.target_ref, ());
                            },
                            node => {
                                let (id, _) = node.get_id_name();
                                match id {
                                    Some(k) => {
                                        graph.push_vertex(k, node);
                                    },
                                    None => {
                                        proof {
                                            let n = done.len() + j;
                                            lemma_process_elements_add(
                                                roots0.subrange(0, i + 1),
                                                roots0.subrange(i + 1, roots0.len() as int),
                                            );
                                            assert(roots0.subrange(0, i + 1) + roots0.subrange(
                                                i + 1,
                                                roots0.len() as int,
                                            ) =~= roots0);
                                            assert(prefix.len() == n + 1);
                                            assert(process_elements(roots0)[n] == prefix[n]);
                                            assert(prefix[n].is_node());
                                            assert(prefix[n].spec_id() is None);
                                            assert(!all_identified(process_elements(roots0)));
                                        }
                                        return Err(Error::MissingIdentifier);
                                    },
                                }
                            },
                        }
                        proof {
                            j = j + 1;
                            assert forall|q: int|
                                0 <= q < prefix.len() && (#[trigger] prefix[q]).is_node()
                                    implies prefix[q].spec_id() is Some by {
                                if q < prefix.len() - 1 {
                                    assert(prefix[q] == prefix.drop_last()[q]);
                                }
                            }
                        }
                    }
                    assert(done + elems0.subrange(0, j) =~= process_elements(
                        roots0.subrange(0, i + 1),
                    ));
                },
                _ => {},
            }
            proof {
                i = i + 1;
            }
        }
        assert(roots0.subrange(0, i) =~= roots0);
        Ok(BPMNEngine { flow: graph, current: None })
    }

    /// Moves the cursor to `next`, whatever it names; a bad identifier shows
    /// only when `options` is next called.
    pub fn next(&mut self, next: Id)
        ensures
            final(self).graph() == old(self).graph(),
            final(self).cursor() == Some(next@),
    {
        self.current = Some(next);
    }

    /// A text listing of the graph: per vertex, in order, its label and the
    /// labels of its edge targets.
    pub fn render(&self) -> (r: String)
        requires
            self.wf(),
        ensures
            r@ == render_entries(self.graph(), self.graph().vertex_entries()),
    {
        let vs = self.flow.iter_vertices();
        let ghost g = self.flow;
        let ghost s = self.flow.vertex_entries();
        let mut out = String::new();
        let mut i: usize = 0;
        assert(s.subrange(0, 0) =~= Seq::<(Seq<char>, FlowElement)>::empty());
        while i < vs.len()
            invariant
                0 <= i <= vs@.len(),
                g == self.flow,
                s == self.flow.vertex_entries(),
                self.wf(),
                vs@.len() == s.len(),
                forall|q: int|
                    0 <= q < vs@.len() ==> (#[trigger] vs@[q]).0@ == s[q].0 && *vs@[q].1 == s[q].1,
                out@ == render_entries(g, s.subrange(0, i as int)),
            decreases vs@.len() - i,
        {
            let (k, v) = vs[i];
            let l = v.label();
            out.append(l.as_str());
            out.append("         NEIGHBORS:");
            let adj = self.flow.adjacent(k);
            let ghost ts = g.adjacent_of(k@);
            let ghost base = out@;
            let mut j: usize = 0;
            assert(ts.subrange(0, 0) =~= Seq::<Seq<char>>::empty());
            assert(base + neighbor_text(g, ts.subrange(0, 0)) =~= base);
            while j < adj.len()
                invariant
                    0 <= j <= adj@.len(),
                    g == self.flow,
                    self.wf(),
                    adj@.len() == ts.len(),
                    forall|q: int| 0 <= q < adj@.len() ==> (#[trigger] adj@[q])@ == ts[q],
                    out@ == base + neighbor_text(g, ts.subrange(0, j as int)),
                decreases adj@.len() - j,
            {
                out.append("         ");
                let ghost item: Seq<char>;
                match self.flow.get_vertex(adj[j]) {
                    Some(w) => {
                        let lw = w.label();
                        out.append(lw.as_str());
                        proof {
                            item = w.spec_label();
                        }
                    },
                    None => {
                        out.append("Not Implemented");
                        proof {
                            item = "Not Implemented"@;
                        }
                    },
                }
                assert(ts.subrange(0, j + 1).drop_last() =~= ts.subrange(0, j as int));
                assert(out@ =~= base + neighbor_text(g, ts.subrange(0, j + 1)));
                j = j + 1;
            }
            assert(ts.subrange(0, j as int) =~= ts);
            assert(s.subrange(0, i + 1).drop_last() =~= s.subrange(0, i as int));
            assert(out@ =~= render_entries(g, s.subrange(0, i + 1)));
            i = i + 1;
        }
        assert(s.subrange(0, i as int) =~= s);
        out
    }

    /// The flow elements the cursor can move to (see `spec_options`).
    pub fn options(&self) -> (r: Result<Vec<&FlowElement>, Error>)
        requires
            self.wf(),
        ensures
            match r {
                Ok(v) => self.spec_options() == Ok::<Seq<FlowElement>, Seq<char>>(
                    v@.map_values(|x: &FlowElement| *x),
                ),
                Err(Error::DanglingReference(t)) => self.spec_options() == Err::<
                    Seq<FlowElement>,
                    Seq<char>,
                >(t@),
                Err(_) => false,
            },
    {
        match &self.current {
            Some(id) => {
                let adj = self.flow.adjacent(id);
                let ghost ts = self.flow.adjacent_of(id@);
                let mut out: Vec<&FlowElement> = Vec::new();
                let mut i: usize = 0;
                assert(ts.subrange(0, 0) =~= Seq::<Seq<char>>::empty());
                assert(out@.map_values(|x: &FlowElement| *x) =~= Seq::<FlowElement>::empty());
                while i < adj.len()
                    invariant
                        0 <= i <= adj@.len(),
                        self.wf(),
                        adj@.len() == ts.len(),
                        ts == self.flow.adjacent_of(id@),
                        self.cursor() == Some(id@),
                        forall|q: int| 0 <= q < adj@.len() ==> (#[trigger] adj@[q])@ == ts[q],
                        resolve(self.flow, ts.subrange(0, i as int)) == Ok::<
                            Seq<FlowElement>,
                            Seq<char>,
                        >(out@.map_values(|x: &FlowElement| *x)),
                    decreases adj@.len() - i,
                {
                    let t = adj[i];
                    assert(ts.subrange(0, i + 1).drop_last() =~= ts.subrange(0, i as int));
                    match self.flow.get_vertex(t) {
                        Some(v) => {
                            let ghost before = out@;
                            out.push(v);
                            assert(out@.map_values(|x: &FlowElement| *x) =~= before.map_values(
                                |x: &FlowElement| *x,
                            ).push(*v));
                        },
                        None => {
                            proof {
                                assert(resolve(self.flow, ts.subrange(0, i + 1)) == Err::<
                                    Seq<FlowElement>,
                                    Seq<char>,
                                >(t@));
                                lemma_resolve_err_prefix(self.flow, ts, i + 1);
                                assert(self.spec_options() == resolve(self.flow, ts));
                            }
                            return Err(Error::DanglingReference(t.clone()));
                        },
                    }
                    i = i + 1;
                }
                assert(ts.subrange(0, i as int) =~= ts);
                Ok(out)
            },
            None => {
                let vs = self.flow.iter_vertices();
                let ghost s = self.flow.vertex_entries();
                let ghost pay = s.map_values(|p: (Seq<char>, FlowElement)| p.1);
                let mut out: Vec<&FlowElement> = Vec::new();
                let mut i: usize = 0;
                proof {
                    reveal(Seq::filter);
                    assert(pay.subrange(0, 0) =~= Seq::<FlowElement>::empty());
                    assert(out@.map_values(|x: &FlowElement| *x) =~= Seq::<FlowElement>::empty());
                }
                while i < vs.len()
                    invariant
                        0 <= i <= vs@.len(),
                        vs@.len() == s.len(),
                        pay == s.map_values(|p: (Seq<char>, FlowElement)| p.1),
                        forall|q: int| 0 <= q < vs@.len() ==> *(#[trigger] vs@[q]).1 == s[q].1,
                        pay.subrange(0, i as int).filter(|e: FlowElement| e is StartEvent)
                            == out@.map_values(|x: &FlowElement| *x),
                    decreases vs@.len() - i,
                {
                    let v: &FlowElement = vs[i].1;
                    let ghost before = out@;
                    proof {
                        reveal(Seq::filter);
                        assert(pay.subrange(0, i + 1).drop_last() =~= pay.subrange(0, i as int));
                        assert(pay[i as int] == s[i as int].1);
                        assert(pay.subrange(0, i + 1).last() == *v);
                    }
                    match v {
                        FlowElement::StartEvent(_) => {
                            out.push(v);
                            assert(out@.map_values(|x: &FlowElement| *x) =~= before.map_values(
                                |x: &FlowElement| *x,
                            ).push(*v));
                        },
                        _ => {},
                    }
                    i = i + 1;
                }
                assert(pay.subrange(0, i as int) =~= pay);
                Ok(out)
            },
        }
    }
}

} // verus!
