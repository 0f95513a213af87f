use vstd::prelude::*;

verus! {

/// No two entries of `s` share a key.
pub open spec fn unique_keys<V>(s: Seq<(Seq<char>, V)>) -> bool {
    forall|i: int, j: int| 0 <= i < j < s.len() ==> #[trigger] s[i].0 != #[trigger] s[j].0
}

/// Some entry of `s` has key `k`.
pub open spec fn has_key<V>(s: Seq<(Seq<char>, V)>, k: Seq<char>) -> bool {
    exists|i: int| 0 <= i < s.len() && #[trigger] s[i].0 == k
}

/// The position of an entry with key `k` (meaningful when `has_key(s, k)`).
pub open spec fn key_index<V>(s: Seq<(Seq<char>, V)>, k: Seq<char>) -> int {
    choose|i: int| 0 <= i < s.len() && #[trigger] s[i].0 == k
}

/// The value stored under `k`, if any.
pub open spec fn lookup<V>(s: Seq<(Seq<char>, V)>, k: Seq<char>) -> Option<V> {
    if has_key(s, k) {
        Some(s[key_index(s, k)].1)
    } else {
        None
    }
}

/// Map-style insertion into an entry list: an existing key keeps its position
/// and gets the new value; a new key is appended at the end.
pub open spec fn insert_entry<V>(s: Seq<(Seq<char>, V)>, k: Seq<char>, v: V) -> Seq<(Seq<char>, V)> {
    if has_key(s, k) {
        s.update(key_index(s, k), (k, v))
    } else {
        s.push((k, v))
    }
}

/// The targets of the edges leaving `from`, in the order the edges were added.
pub open spec fn targets<E>(edges: Seq<(Seq<char>, Seq<char>, E)>, from: Seq<char>) -> Seq<Seq<char>>
    decreases edges.len(),
{
    if edges.len() == 0 {
        Seq::empty()
    } else {
        let rest = targets(edges.drop_last(), from);
        if edges.last().0 == from {
            rest.push(edges.last().1)
        } else {
            rest
        }
    }
}

/// Edge `j` goes from `from` to `to`.
pub open spec fn edge_matches<E>(
    edges: Seq<(Seq<char>, Seq<char>, E)>,
    from: Seq<char>,
    to: Seq<char>,
    j: int,
) -> bool {
    0 <= j < edges.len() && edges[j].0 == from && edges[j].1 == to
}

/// With unique keys, the entry found under `s[i].0` is entry `i`.
pub proof fn lemma_lookup_at<V>(s: Seq<(Seq<char>, V)>, i: int)
    requires
        unique_keys(s),
        0 <= i < s.len(),
    ensures
        has_key(s, s[i].0),
        key_index(s, s[i].0) == i,
        lookup(s, s[i].0) == Some(s[i].1),
{
    let k = s[i].0;
    assert(has_key(s, k));
    let j = key_index(s, k);
    if j < i {
        assert(s[j].0 != s[i].0);
    } else if i < j {
        assert(s[i].0 != s[j].0);
    }
}

/// Inserting keeps keys unique, and the key afterwards maps to the new value.
pub proof fn lemma_insert_entry<V>(s: Seq<(Seq<char>, V)>, k: Seq<char>, v: V)
    requires
        unique_keys(s),
    ensures
        unique_keys(insert_entry(s, k, v)),
        lookup(insert_entry(s, k, v), k) == Some(v),
        forall|k2: Seq<char>| k2 != k ==> lookup(insert_entry(s, k, v), k2) == lookup(s, k2),
        insert_entry(s, k, v).len() == if has_key(s, k) { s.len() } else { s.len() + 1 },
{
    let t = insert_entry(s, k, v);
    assert forall|i: int, j: int| 0 <= i < j < t.len() implies #[trigger] t[i].0 != #[trigger] t[j].0 by {
        if !has_key(s, k) {
            if j == s.len() {
                assert(s[i].0 == t[i].0);
            }
        } else {
            let p = key_index(s, k);
            if i == p {
                assert(s[j].0 != s[p].0);
            } else if j == p {
                assert(s[i].0 != s[p].0);
            }
        }
    }
    let n = if has_key(s, k) { key_index(s, k) } else { s.len() as int };
    assert(t[n].0 == k && t[n].1 == v);
    lemma_lookup_at(t, n);
    assert forall|k2: Seq<char>| k2 != k implies lookup(t, k2) == lookup(s, k2) by {
        if has_key(s, k2) {
            let q = key_index(s, k2);
            lemma_lookup_at(s, q);
            assert(t[q] == s[q]);
            lemma_lookup_at(t, q);
        }
        if has_key(t, k2) {
            let q = key_index(t, k2);
            assert(t[q] == s[q]);
        }
    }
}

/// A directed graph whose vertices are keyed by a string identifier and carry
/// a payload of type `V`; each edge carries a label of type `E`.
///
/// Vertices are kept in the order their keys were first added; edges are kept
/// in the order they were added, and an edge may name a vertex that does not
/// exist.
pub struct Graph<V = (), E = ()> {
    vertices: Vec<(String, V)>,
    edges: Vec<(String, String, E)>,
}

impl<V, E> Graph<V, E> {
    /// The vertices as (identifier, payload) entries, in insertion order.
    pub closed spec fn vertex_entries(&self) -> Seq<(Seq<char>, V)> {
        self.vertices@.map_values(|p: (String, V)| (p.0@, p.1))
    }

    /// The edges as (source, target, label), in insertion order.
    pub closed spec fn edge_list(&self) -> Seq<(Seq<char>, Seq<char>, E)> {
        self.edges@.map_values(|p: (String, String, E)| (p.0@, p.1@, p.2))
    }

    /// Vertex identifiers are unique.
    pub open spec fn wf(&self) -> bool {
        unique_keys(self.vertex_entries())
    }

    /// The payload of the vertex with identifier `k`, if there is one.
    pub open spec fn vertex(&self, k: Seq<char>) -> Option<V> {
        lookup(self.vertex_entries(), k)
    }

    /// The targets of the edges leaving `k`, in insertion order.
    pub open spec fn adjacent_of(&self, k: Seq<char>) -> Seq<Seq<char>> {
        targets(self.edge_list(), k)
    }

    pub fn new() -> (r: Self)
        ensures
            r.wf(),
            r.vertex_entries() == Seq::<(Seq<char>, V)>::empty(),
            r.edge_list() == Seq::<(Seq<char>, Seq<char>, E)>::empty(),
    {
        let r = Graph { vertices: Vec::new(), edges: Vec::new() };
        assert(r.vertex_entries() =~= Seq::<(Seq<char>, V)>::empty());
        assert(r.edge_list() =~= Seq::<(Seq<char>, Seq<char>, E)>::empty());
        r
    }

    /// Position of the vertex keyed `vid`, if any.
    fn find_vertex(&self, vid: &String) -> (r: Option<usize>)
        requires
            self.wf(),
        ensures
            match r {
                Some(i) => i < self.vertex_entries().len() && has_key(self.vertex_entries(), vid@)
                    && key_index(self.vertex_entries(), vid@) == i,
                None => !has_key(self.vertex_entries(), vid@),
            },
    {
        let ghost s = self.vertex_entries();
        let mut i: usize = 0;
        while i < self.vertices.len()
            invariant
                0 <= i <= self.vertices@.len(),
                s == self.vertex_entries(),
                unique_keys(s),
                s.len() == self.vertices@.len(),
                forall|j: int| 0 <= j < i ==> #[trigger] s[j].0 != vid@,
            decreases self.vertices@.len() - i,
        {
            if self.vertices[i].0 == *vid {
                proof {
                    lemma_lookup_at(s, i as int);
                }
                return Some(i);
            }
            i = i + 1;
        }
        None
    }

    /// Adds a vertex; a vertex already keyed `vid` has its payload replaced
    /// and keeps its position.
    pub fn push_vertex(&mut self, vid: String, vertex: V)
        requires
            old(self).wf(),
        ensures
            final(self).wf(),
            final(self).vertex_entries() == insert_entry(old(self).vertex_entries(), vid@, vertex),
            final(self).edge_list() == old(self).edge_list(),
    {
        let ghost s = self.vertex_entries();
        let ghost k = vid@;
        match self.find_vertex(&vid) {
            Some(i) => {
                self.vertices[i] = (vid, vertex);
                assert(self.vertex_entries() =~= s.update(i as int, (k, vertex)));
            },
            None => {
                self.vertices.push((vid, vertex));
                assert(self.vertex_entries() =~= s.push((k, vertex)));
            },
        }
        proof {
            lemma_insert_entry(s, k, vertex);
        }
    }

    /// Appends an edge from `from` to `to`; neither end needs to be a vertex.
    pub fn push_edge(&mut self, from: String, to: String, edge: E)
        requires
            old(self).wf(),
        ensures
            final(self).wf(),
            final(self).vertex_entries() == old(self).vertex_entries(),
            final(self).edge_list() == old(self).edge_list().push((from@, to@, edge)),
    {
        let ghost t = self.edge_list();
        let ghost e = (from@, to@, edge);
        self.edges.push((from, to, edge));
        assert(self.edge_list() =~= t.push(e));
    }

    pub fn has_vertex(&self, vid: &String) -> (r: bool)
        requires
            self.wf(),
        ensures
            r == has_key(self.vertex_entries(), vid@),
    {
        self.find_vertex(vid).is_some()
    }

    pub fn get_vertex(&self, vid: &String) -> (r: Option<&V>)
        requires
            self.wf(),
        ensures
            match r {
                Some(v) => self.vertex(vid@) == Some(*v),
                None => self.vertex(vid@).is_none(),
            },
    {
        match self.find_vertex(vid) {
            Some(i) => Some(&self.vertices[i].1),
            None => None,
        }
    }

    /// The vertices as (identifier, payload) pairs, in insertion order.
    pub fn iter_vertices(&self) -> (r: Vec<(&String, &V)>)
        ensures
            r@.len() == self.vertex_entries().len(),
            forall|i: int|
                0 <= i < r@.len() ==> (#[trigger] r@[i]).0@ == self.vertex_entries()[i].0
                    && *r@[i].1 == self.vertex_entries()[i].1,
    {
        let mut r: Vec<(&String, &V)> = Vec::new();
        let mut i: usize = 0;
        while i < self.vertices.len()
            invariant
                0 <= i <= self.vertices@.len(),
                r@.len() == i,
                self.vertex_entries().len() == self.vertices@.len(),
                forall|j: int|
                    0 <= j < i ==> (#[trigger] r@[j]).0@ == self.vertex_entries()[j].0
                        && *r@[j].1 == self.vertex_entries()[j].1,
            decreases self.vertices@.len() - i,
        {
            let p = &self.vertices[i];
            r.push((&p.0, &p.1));
            i = i + 1;
        }
        r
    }

    /// The label of the first edge from `from` to `to`, if there is one.
    pub fn get_edge(&self, from: String, to: String) -> (r: Option<&E>)
        ensures
            match r {
                Some(e) => exists|j: int|
                    #[trigger] edge_matches(self.edge_list(), from@, to@, j) && *e
                        == self.edge_list()[j].2 && forall|k: int|
                        0 <= k < j ==> !edge_matches(self.edge_list(), from@, to@, k),
                None => forall|j: int| !edge_matches(self.edge_list(), from@, to@, j),
            },
    {
        let ghost t = self.edge_list();
        let mut i: usize = 0;
        while i < self.edges.len()
            invariant
                0 <= i <= self.edges@.len(),
                t == self.edge_list(),
                t.len() == self.edges@.len(),
                forall|k: int| 0 <= k < i ==> !edge_matches(t, from@, to@, k),
            decreases self.edges@.len() - i,
        {
            let e = &self.edges[i];
            if e.0 == from && e.1 == to {
                assert(edge_matches(t, from@, to@, i as int));
                return Some(&e.2);
            }
            i = i + 1;
        }
        None
    }

    /// The targets of the edges leaving `vid`, in insertion order.
    pub fn adjacent(&self, vid: &String) -> (r: Vec<&String>)
        ensures
            r@.len() == self.adjacent_of(vid@).len(),
            forall|i: int| 0 <= i < r@.len() ==> (#[trigger] r@[i])@ == self.adjacent_of(vid@)[i],
    {
        let ghost t = self.edge_list();
        let mut r: Vec<&String> = Vec::new();
        let mut i: usize = 0;
        while i < self.edges.len()
            invariant
                0 <= i <= self.edges@.len(),
                t == self.edge_list(),
                t.len() == self.edges@.len(),
                r@.len() == targets(t.subrange(0, i as int), vid@).len(),
                forall|j: int|
                    0 <= j < r@.len() ==> (#[trigger] r@[j])@ == targets(
                        t.subrange(0, i as int),
                        vid@,
                    )[j],
            decreases self.edges@.len() - i,
        {
            let e = &self.edges[i];
            assert(t.subrange(0, i + 1).drop_last() =~= t.subrange(0, i as int));
            if e.0 == *vid {
                r.push(&e.1);
            }
            i = i + 1;
        }
        assert(t.subrange(0, i as int) =~= t);
        r
    }
}

} // verus!
