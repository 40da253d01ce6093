//! Graphs as edge lists.

use vstd::prelude::*;

use crate::error::Error;
use crate::integers::{
    count, law_node_ids_are_the_numbers, node_id_refusal, node_id_view, node_ids, number_at, IntArray,
};
use crate::text::{decimal, same_text, size_text};

verus! {

/// The width in which node identifiers are stored.
#[derive(Debug, Clone, Copy, PartialEq, Eq, Structural)]
pub enum NodeIdWidth {
    U32,
    U64,
}

impl NodeIdWidth {
    /// The name of the width.
    pub open spec fn name(self) -> Seq<char> {
        match self {
            NodeIdWidth::U32 => "u32"@,
            NodeIdWidth::U64 => "u64"@,
        }
    }

    /// The name of the width.
    pub fn as_str(&self) -> (name: &'static str)
        ensures
            name@ == self.name(),
    {
        match self {
            NodeIdWidth::U32 => "u32",
            NodeIdWidth::U64 => "u64",
        }
    }
}

/// A directed edge. The weight is the bit pattern of a double.
#[derive(Debug, Clone, Copy, PartialEq, Eq, Structural)]
pub struct Edge {
    pub src: u64,
    pub dst: u64,
    pub weight: Option<u64>,
}

/// How a graph is written.
#[derive(Debug, Clone, Copy, PartialEq, Eq, Structural)]
pub struct GraphOptions {
    pub node_id_width: NodeIdWidth,
    pub num_nodes: Option<u64>,
}

/// The width that is asked for by name: 32 bits unless told otherwise.
pub open spec fn width_named(name: Option<Seq<char>>) -> Option<NodeIdWidth> {
    match name {
        None => Some(NodeIdWidth::U32),
        Some(text) => if text == "u32"@ {
            Some(NodeIdWidth::U32)
        } else if text == "u64"@ {
            Some(NodeIdWidth::U64)
        } else {
            None
        },
    }
}

/// The characters of an optional text.
pub open spec fn text_view(text: Option<String>) -> Option<Seq<char>> {
    match text {
        Some(t) => Some(t@),
        None => None,
    }
}

/// The weights as a sequence.
pub open spec fn weights_view(weights: Option<Vec<u64>>) -> Option<Seq<u64>> {
    match weights {
        Some(w) => Some(w@),
        None => None,
    }
}

/// The edges from each source to the destination at the same place, with the weight there.
pub open spec fn edge_list(src: Seq<u64>, dst: Seq<u64>, weights: Option<Seq<u64>>) -> Seq<Edge> {
    Seq::new(
        src.len(),
        |i: int|
            Edge {
                src: src[i],
                dst: dst[i],
                weight: match weights {
                    Some(w) => Some(w[i]),
                    None => None,
                },
            },
    )
}

/// What end points of different numbers are refused with.
pub open spec fn endpoint_message(src: nat, dst: nat) -> Seq<char> {
    "src length "@ + decimal(src) + " does not match dst length "@ + decimal(dst)
}

/// What a wrong number of weights is refused with.
pub open spec fn weight_message(weights: nat, edges: nat) -> Seq<char> {
    "weights length "@ + decimal(weights) + " does not match edge count "@ + decimal(edges)
}

/// What an unknown width is refused with.
pub open spec fn width_message(name: Seq<char>) -> Seq<char> {
    "unknown node_id_width '"@ + name + "': expected 'u32' or 'u64'"@
}

/// Whether `error` is what the arguments of a graph are refused with: the sources come first,
/// then the destinations, their numbers, the weights, and the width.
pub open spec fn graph_refusal(
    src: IntArray,
    dst: IntArray,
    weights: Option<Seq<u64>>,
    width: Option<Seq<char>>,
    error: Error,
) -> bool {
    match (node_id_view(src), node_id_view(dst)) {
        (None, _) => node_id_refusal(src, "src"@, error),
        (Some(_), None) => node_id_refusal(dst, "dst"@, error),
        (Some(s), Some(d)) => error matches Error::Value(text) && if s.len() != d.len() {
            text@ == endpoint_message(s.len(), d.len())
        } else if weights is Some && weights->0.len() != s.len() {
            text@ == weight_message(weights->0.len(), s.len())
        } else {
            &&& width_named(width) is None
            &&& text@ == width_message(width->0)
        },
    }
}

/// Whether the arguments describe a graph.
pub open spec fn describes_graph(
    src: IntArray,
    dst: IntArray,
    weights: Option<Seq<u64>>,
    width: Option<Seq<char>>,
) -> bool {
    &&& node_id_view(src) is Some
    &&& node_id_view(dst) is Some
    &&& node_id_view(src)->0.len() == node_id_view(dst)->0.len()
    &&& weights is Some ==> weights->0.len() == node_id_view(src)->0.len()
    &&& width_named(width) is Some
}

/// Builds the edge list of a graph and the options under which it is written.
pub fn build_graph(
    src: IntArray,
    dst: IntArray,
    weights: Option<Vec<u64>>,
    num_nodes: Option<u64>,
    node_id_width: Option<String>,
) -> (result: Result<(Vec<Edge>, GraphOptions), Error>)
    ensures
        result is Ok <==> describes_graph(
            src,
            dst,
            weights_view(weights),
            text_view(node_id_width),
        ),
        result matches Ok((edges, options)) ==> {
            &&& edges@ == edge_list(
                node_id_view(src)->0,
                node_id_view(dst)->0,
                weights_view(weights),
            )
            &&& options.node_id_width == width_named(text_view(node_id_width))->0
            &&& options.num_nodes == num_nodes
            &&& edges@.len() == count(src)
            &&& forall|i: int|
                0 <= i < edges@.len() ==> {
                    &&& (#[trigger] edges@[i]).src == number_at(src, i)
                    &&& edges@[i].dst == number_at(dst, i)
                    &&& edges@[i].weight == match weights {
                        Some(w) => Some(w@[i]),
                        None => None,
                    }
                }
        },
        result matches Err(e) ==> graph_refusal(
            src,
            dst,
            weights_view(weights),
            text_view(node_id_width),
            e,
        ),
{
    let sources = match node_ids(src, "src") {
        Ok(ids) => ids,
        Err(e) => {
            return Err(e);
        },
    };
    let targets = match node_ids(dst, "dst") {
        Ok(ids) => ids,
        Err(e) => {
            return Err(e);
        },
    };
    if sources.len() != targets.len() {
        let mut text = "src length ".to_owned();
        text.append(size_text(sources.len()).as_str());
        text.append(" does not match dst length ");
        text.append(size_text(targets.len()).as_str());
        return Err(Error::Value(text));
    }
    if let Some(w) = &weights {
        if w.len() != sources.len() {
            let mut text = "weights length ".to_owned();
            text.append(size_text(w.len()).as_str());
            text.append(" does not match edge count ");
            text.append(size_text(sources.len()).as_str());
            return Err(Error::Value(text));
        }
    }
    let ghost expected = edge_list(sources@, targets@, weights_view(weights));
    let mut edges: Vec<Edge> = Vec::new();
    let mut i: usize = 0;
    while i < sources.len()
        invariant
            i <= sources@.len(),
            sources@.len() == targets@.len(),
            weights matches Some(w) ==> w@.len() == sources@.len(),
            expected == edge_list(sources@, targets@, weights_view(weights)),
            edges@ == expected.take(i as int),
        decreases sources@.len() - i,
    {
        let weight = match &weights {
            Some(w) => Some(w[i]),
            None => None,
        };
        let edge = Edge { src: sources[i], dst: targets[i], weight };
        assert(expected[i as int] == edge);
        assert(expected.take(i + 1) =~= expected.take(i as int).push(edge));
        edges.push(edge);
        i = i + 1;
    }
    assert(expected.take(i as int) =~= expected);
    let width = match &node_id_width {
        None => NodeIdWidth::U32,
        Some(name) => if same_text(name.as_str(), "u32") {
            NodeIdWidth::U32
        } else if same_text(name.as_str(), "u64") {
            NodeIdWidth::U64
        } else {
            let mut text = "unknown node_id_width '".to_owned();
            text.append(name.as_str());
            text.append("': expected 'u32' or 'u64'");
            return Err(Error::Value(text));
        },
    };
    Ok((edges, GraphOptions { node_id_width: width, num_nodes }))
}

/// A graph as it is read back.
pub struct StoredGraph {
    pub edges: Vec<Edge>,
    pub node_id_width: NodeIdWidth,
    pub num_nodes: u64,
    pub weighted: bool,
}

/// The arrays and facts of a graph as they are handed out.
pub struct GraphArrays {
    pub src: Vec<u64>,
    pub dst: Vec<u64>,
    pub weight: Option<Vec<u64>>,
    pub num_nodes: u64,
    pub weighted: bool,
    pub node_id_width: &'static str,
}

/// The sources of the edges.
pub open spec fn edge_sources(edges: Seq<Edge>) -> Seq<u64> {
    edges.map_values(|e: Edge| e.src)
}

/// The destinations of the edges.
pub open spec fn edge_targets(edges: Seq<Edge>) -> Seq<u64> {
    edges.map_values(|e: Edge| e.dst)
}

/// The weights of the edges, zero where an edge has none.
pub open spec fn edge_weights(edges: Seq<Edge>) -> Seq<u64> {
    edges.map_values(
        |e: Edge|
            match e.weight {
                Some(w) => w,
                None => 0u64,
            },
    )
}

/// Whether `arrays` are the arrays and facts of a graph.
pub open spec fn arrays_of(graph: StoredGraph, arrays: GraphArrays) -> bool {
    &&& arrays.src@ == edge_sources(graph.edges@)
    &&& arrays.dst@ == edge_targets(graph.edges@)
    &&& weights_view(arrays.weight) == if graph.weighted {
        Some(edge_weights(graph.edges@))
    } else {
        None
    }
    &&& arrays.num_nodes == graph.num_nodes
    &&& arrays.weighted == graph.weighted
    &&& arrays.node_id_width@ == graph.node_id_width.name()
}

/// Writes a graph out as its arrays and facts.
pub fn graph_to_py(graph: StoredGraph) -> (arrays: GraphArrays)
    ensures
        arrays_of(graph, arrays),
{
    let mut src: Vec<u64> = Vec::new();
    let mut dst: Vec<u64> = Vec::new();
    let mut weights: Vec<u64> = Vec::new();
    let mut i: usize = 0;
    while i < graph.edges.len()
        invariant
            i <= graph.edges@.len(),
            src@ == edge_sources(graph.edges@.take(i as int)),
            dst@ == edge_targets(graph.edges@.take(i as int)),
            weights@ == edge_weights(graph.edges@.take(i as int)),
        decreases graph.edges@.len() - i,
    {
        let edge = graph.edges[i];
        assert(graph.edges@.take(i + 1) =~= graph.edges@.take(i as int).push(edge));
        src.push(edge.src);
        dst.push(edge.dst);
        weights.push(
            match edge.weight {
                Some(w) => w,
                None => 0,
            },
        );
        i = i + 1;
    }
    assert(graph.edges@.take(i as int) =~= graph.edges@);
    GraphArrays {
        src,
        dst,
        weight: if graph.weighted {
            Some(weights)
        } else {
            None
        },
        num_nodes: graph.num_nodes,
        weighted: graph.weighted,
        node_id_width: graph.node_id_width.as_str(),
    }
}

/// What is stored is what is loaded: the edges built from end points and weights have these end
/// points and, if there are any, these weights.
pub proof fn law_graph_round_trip(src: Seq<u64>, dst: Seq<u64>, weights: Option<Seq<u64>>)
    requires
        src.len() == dst.len(),
        weights is Some ==> weights->0.len() == src.len(),
    ensures
        edge_sources(edge_list(src, dst, weights)) == src,
        edge_targets(edge_list(src, dst, weights)) == dst,
        weights is Some ==> edge_weights(edge_list(src, dst, weights)) == weights->0,
{
    let edges = edge_list(src, dst, weights);
    assert(edge_sources(edges) =~= src);
    assert(edge_targets(edges) =~= dst);
    if weights is Some {
        assert(edge_weights(edges) =~= weights->0);
    }
}

/// There is one edge for each source, it leads to the destination in the same place, and its weight
/// is the one in the same place if there are weights.
pub proof fn law_edges_join_the_arrays(
    src: Seq<u64>,
    dst: Seq<u64>,
    weights: Option<Seq<u64>>,
    i: int,
)
    ensures
        edge_list(src, dst, weights).len() == src.len(),
        0 <= i < src.len() ==> {
            &&& edge_list(src, dst, weights)[i].src == src[i]
            &&& edge_list(src, dst, weights)[i].dst == dst[i]
            &&& weights is Some ==> edge_list(src, dst, weights)[i].weight == Some(weights->0[i])
            &&& weights is None ==> edge_list(src, dst, weights)[i].weight is None
        },
{
}

/// A graph is accepted exactly when both end points are node identifiers in the same number, there
/// is one weight for each edge if there are weights, and the width is left out or one of two names.
pub proof fn law_accepted_graphs(
    src: IntArray,
    dst: IntArray,
    weights: Option<Vec<u64>>,
    width: Option<String>,
)
    ensures
        describes_graph(src, dst, weights_view(weights), text_view(width)) <==> {
            &&& node_id_view(src) is Some
            &&& node_id_view(dst) is Some
            &&& count(src) == count(dst)
            &&& weights matches Some(w) ==> w@.len() == count(src)
            &&& width matches Some(text) ==> text@ == "u32"@ || text@ == "u64"@
        },
{
    law_node_ids_are_the_numbers(src);
    law_node_ids_are_the_numbers(dst);
}

/// The width is the one that is named, and 32 bits if none is named.
pub proof fn law_width_is_the_one_named(width: Option<String>)
    ensures
        width is None ==> width_named(text_view(width)) == Some(NodeIdWidth::U32),
        width matches Some(text) ==> {
            &&& text@ == "u32"@ ==> width_named(text_view(width)) == Some(NodeIdWidth::U32)
            &&& text@ == "u64"@ ==> width_named(text_view(width)) == Some(NodeIdWidth::U64)
            &&& text@ != "u32"@ && text@ != "u64"@ ==> width_named(text_view(width)) is None
        },
        NodeIdWidth::U32.name() == "u32"@,
        NodeIdWidth::U64.name() == "u64"@,
{
    reveal_strlit("u32");
    reveal_strlit("u64");
    assert("u32"@[1] != "u64"@[1]);
}

/// What the arguments of a graph are refused with says what is wrong first: the sources, the
/// destinations, their numbers, the number of weights, and the width.
pub proof fn law_refused_graph_is_told_why(
    src: IntArray,
    dst: IntArray,
    weights: Option<Vec<u64>>,
    width: Option<String>,
    error: Error,
)
    requires
        graph_refusal(src, dst, weights_view(weights), text_view(width), error),
    ensures
        node_id_view(src) is None ==> node_id_refusal(src, "src"@, error),
        node_id_view(src) is Some && node_id_view(dst) is None ==> node_id_refusal(
            dst,
            "dst"@,
            error,
        ),
        node_id_view(src) is Some && node_id_view(dst) is Some ==> {
            &&& error matches Error::Value(text)
            &&& count(src) != count(dst) ==> text@ == "src length "@ + decimal(count(src))
                + " does not match dst length "@ + decimal(count(dst))
            &&& count(src) == count(dst) && weights is Some && weights->0@.len() != count(src)
                ==> text@ == "weights length "@ + decimal(weights->0@.len())
                + " does not match edge count "@ + decimal(count(src))
            &&& count(src) == count(dst) && (weights is Some ==> weights->0@.len() == count(src))
                ==> width is Some && text@ == "unknown node_id_width '"@ + width->0@
                + "': expected 'u32' or 'u64'"@
        },
{
    law_node_ids_are_the_numbers(src);
    law_node_ids_are_the_numbers(dst);
}

/// A graph is written out edge by edge: the source, destination and weight of each edge stand in
/// its place, a missing weight counts as zero, and there are weights exactly if the graph is
/// weighted. The facts of the graph are kept.
pub proof fn law_edges_are_written_in_place(graph: StoredGraph, arrays: GraphArrays, i: int)
    requires
        arrays_of(graph, arrays),
    ensures
        arrays.src@.len() == graph.edges@.len(),
        arrays.dst@.len() == graph.edges@.len(),
        arrays.weight is Some <==> graph.weighted,
        graph.weighted ==> arrays.weight->0@.len() == graph.edges@.len(),
        0 <= i < graph.edges@.len() ==> {
            &&& arrays.src@[i] == graph.edges@[i].src
            &&& arrays.dst@[i] == graph.edges@[i].dst
            &&& graph.weighted && graph.edges@[i].weight is Some ==> Some(arrays.weight->0@[i])
                == graph.edges@[i].weight
            &&& graph.weighted && graph.edges@[i].weight is None ==> arrays.weight->0@[i] == 0
        },
        arrays.num_nodes == graph.num_nodes,
        arrays.weighted == graph.weighted,
        graph.node_id_width == NodeIdWidth::U32 ==> arrays.node_id_width@ == "u32"@,
        graph.node_id_width == NodeIdWidth::U64 ==> arrays.node_id_width@ == "u64"@,
{
}

} // verus!
