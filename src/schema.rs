//! The schema tree and the configuration instance that mirrors it.
use vstd::prelude::*;

use crate::convert::{TypeTag, Value};

verus! {

/// A field of a schema: a typed leaf or a group of further fields.
#[derive(Debug)]
pub struct SchemaNode {
    pub name: String,
    /// Whether the structured document may leave this field out.
    pub has_default: bool,
    pub kind: SchemaKind,
}

#[derive(Debug)]
pub enum SchemaKind {
    Leaf(TypeTag),
    /// The fields of the group, in declaration order.
    Group(Vec<SchemaNode>),
}

/// A node of a live configuration: a leaf's value, or a group's children in
/// the order of the schema's fields.
#[derive(Debug, PartialEq, Eq)]
pub enum Node {
    Leaf(Value),
    Group(Vec<Node>),
}

/// Whether `node` has the shape of `field`: a leaf for a leaf, and for a
/// group a group with one child of matching shape per field.
pub open spec fn shape_matches(field: SchemaNode, node: Node) -> bool
    decreases field,
{
    match field.kind {
        SchemaKind::Leaf(_) => node is Leaf,
        SchemaKind::Group(fields) => node is Group && node->Group_0.len() == fields.len()
            && forall|i: int|
            0 <= i < fields.len() ==> shape_matches(#[trigger] fields[i], node->Group_0[i]),
    }
}

/// Whether `nodes` are the children of a group with the fields `fields`.
pub open spec fn children_match(fields: Seq<SchemaNode>, nodes: Seq<Node>) -> bool {
    nodes.len() == fields.len() && forall|i: int|
        0 <= i < fields.len() ==> shape_matches(#[trigger] fields[i], nodes[i])
}

impl SchemaNode {
    /// A leaf field of the given type.
    pub fn leaf(name: String, tag: TypeTag) -> (r: SchemaNode)
        ensures
            r == (SchemaNode { name, has_default: false, kind: SchemaKind::Leaf(tag) }),
    {
        SchemaNode { name, has_default: false, kind: SchemaKind::Leaf(tag) }
    }

    /// A group field holding `fields`.
    pub fn group(name: String, fields: Vec<SchemaNode>) -> (r: SchemaNode)
        ensures
            r == (SchemaNode { name, has_default: false, kind: SchemaKind::Group(fields) }),
    {
        SchemaNode { name, has_default: false, kind: SchemaKind::Group(fields) }
    }

    /// The same field, marked as one the structured document may leave out.
    pub fn with_default(self) -> (r: SchemaNode)
        ensures
            r == (SchemaNode { has_default: true, ..self }),
    {
        SchemaNode { has_default: true, ..self }
    }
}

/// Checks that `node` has the shape of `field`.
pub fn check_shape(field: &SchemaNode, node: &Node) -> (r: bool)
    ensures
        r == shape_matches(*field, *node),
    decreases field,
{
    match (&field.kind, node) {
        (SchemaKind::Leaf(_), Node::Leaf(_)) => true,
        (SchemaKind::Leaf(_), Node::Group(_)) => false,
        (SchemaKind::Group(_), Node::Leaf(_)) => false,
        (SchemaKind::Group(fields), Node::Group(nodes)) => check_children(fields, nodes),
    }
}

/// Checks that `nodes` are the children of a group with the fields `fields`.
pub fn check_children(fields: &Vec<SchemaNode>, nodes: &Vec<Node>) -> (r: bool)
    ensures
        r == children_match(fields@, nodes@),
    decreases fields,
{
    if fields.len() != nodes.len() {
        return false;
    }
    let mut i: usize = 0;
    while i < fields.len()
        invariant
            i <= fields.len(),
            fields.len() == nodes.len(),
            forall|j: int| 0 <= j < i ==> shape_matches(#[trigger] fields@[j], nodes@[j]),
        decreases fields.len() - i,
    {
        if !check_shape(&fields[i], &nodes[i]) {
            return false;
        }
        i = i + 1;
    }
    true
}

} // verus!
