use vstd::prelude::*;

use crate::ids::ComponentId;
use crate::status::SocketId;

verus! {

/// Identifier of a node of the diagram.
pub type NodeId = u128;

/// Identifier of an edge between two sockets.
pub type EdgeId = u128;

/// What a diagram shows.
#[derive(Clone, Copy, Debug, PartialEq, Eq, Structural)]
pub enum SchematicKind {
    Component,
    Deployment,
}

/// What an edge means.
#[derive(Clone, Copy, Debug, PartialEq, Eq, Structural)]
pub enum EdgeKind {
    Configures,
    Symbolic,
}

/// One end of a connection: a socket of a node.
#[derive(Clone, Copy, Debug, PartialEq, Eq, Structural)]
pub struct Vertex {
    pub node_id: NodeId,
    pub socket_id: SocketId,
}

/// An edge of the diagram, from one socket to another.
#[derive(Clone, Copy, Debug, PartialEq, Eq, Structural)]
pub struct Connection {
    id: EdgeId,
    classification: EdgeKind,
    source: Vertex,
    destination: Vertex,
}

impl Connection {
    pub closed spec fn spec_source(&self) -> Vertex {
        self.source
    }

    pub closed spec fn spec_destination(&self) -> Vertex {
        self.destination
    }

    pub closed spec fn spec_id(&self) -> EdgeId {
        self.id
    }

    pub closed spec fn spec_classification(&self) -> EdgeKind {
        self.classification
    }

    /// A connection from `source` to `destination`.
    pub fn new(id: EdgeId, classification: EdgeKind, source: Vertex, destination: Vertex) -> (c: Self)
        ensures
            c.spec_id() == id,
            c.spec_classification() == classification,
            c.spec_source() == source,
            c.spec_destination() == destination,
    {
        Connection { id, classification, source, destination }
    }

    /// The node and socket the connection leaves from.
    pub fn source(&self) -> (r: (NodeId, SocketId))
        ensures
            r == (self.spec_source().node_id, self.spec_source().socket_id),
    {
        (self.source.node_id, self.source.socket_id)
    }

    /// The node and socket the connection arrives at.
    pub fn destination(&self) -> (r: (NodeId, SocketId))
        ensures
            r == (self.spec_destination().node_id, self.spec_destination().socket_id),
    {
        (self.destination.node_id, self.destination.socket_id)
    }
}

/// A node as the diagram shows it.
#[derive(Debug)]
pub struct NodeView {
    pub id: NodeId,
    pub name: String,
    pub component_id: ComponentId,
    pub kind: SchematicKind,
}

/// A diagram: its nodes and the connections between them.
#[derive(Debug)]
pub struct Schematic {
    nodes: Vec<NodeView>,
    connections: Vec<Connection>,
}

impl Schematic {
    pub closed spec fn spec_nodes(&self) -> Seq<NodeView> {
        self.nodes@
    }

    pub closed spec fn spec_connections(&self) -> Seq<Connection> {
        self.connections@
    }

    pub fn new(nodes: Vec<NodeView>, connections: Vec<Connection>) -> (s: Self)
        ensures
            s.spec_nodes() == nodes@,
            s.spec_connections() == connections@,
    {
        Schematic { nodes, connections }
    }

    /// The nodes of the diagram.
    pub fn nodes(&self) -> (r: &[NodeView])
        ensures
            r@ == self.spec_nodes(),
    {
        self.nodes.as_slice()
    }

    /// The connections of the diagram.
    pub fn connections(&self) -> (r: &[Connection])
        ensures
            r@ == self.spec_connections(),
    {
        self.connections.as_slice()
    }
}

} // verus!
