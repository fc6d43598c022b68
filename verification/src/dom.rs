//! The document tree the parse produces: namespace-qualified elements with
//! attributes and declared prefixes, text, comments, and processing
//! instructions.  Each type has a mathematical model; the accessors are
//! specified against it.

use vstd::prelude::*;

verus! {

broadcast use {vstd::std_specs::vec::group_vec_axioms, vstd::seq::group_seq_axioms};

/// A namespace-qualified name: an optional namespace URI and a local part.
#[derive(Clone, Debug, PartialEq, Eq)]
pub struct QName {
    pub namespace_uri: Option<Vec<u8>>,
    pub local_part: Vec<u8>,
}

pub struct QNameModel {
    pub namespace_uri: Option<Seq<u8>>,
    pub local_part: Seq<u8>,
}

pub open spec fn opt_bytes_model(o: Option<Vec<u8>>) -> Option<Seq<u8>> {
    match o {
        Some(v) => Some(v@),
        None => None,
    }
}

impl View for QName {
    type V = QNameModel;

    open spec fn view(&self) -> QNameModel {
        QNameModel {
            namespace_uri: opt_bytes_model(self.namespace_uri),
            local_part: self.local_part@,
        }
    }
}

/// One attribute of an element, with the prefix it was written with.
#[derive(Clone, Debug, PartialEq, Eq)]
pub struct Attribute {
    pub name: QName,
    pub value: Vec<u8>,
    pub preferred_prefix: Option<Vec<u8>>,
}

pub struct AttributeModel {
    pub name: QNameModel,
    pub value: Seq<u8>,
    pub preferred_prefix: Option<Seq<u8>>,
}

impl View for Attribute {
    type V = AttributeModel;

    open spec fn view(&self) -> AttributeModel {
        AttributeModel {
            name: self.name@,
            value: self.value@,
            preferred_prefix: opt_bytes_model(self.preferred_prefix),
        }
    }
}

/// One prefix-to-URI binding an element declares.
#[derive(Clone, Debug, PartialEq, Eq)]
pub struct Namespace {
    pub prefix: Vec<u8>,
    pub uri: Vec<u8>,
}

pub struct NamespaceModel {
    pub prefix: Seq<u8>,
    pub uri: Seq<u8>,
}

impl View for Namespace {
    type V = NamespaceModel;

    open spec fn view(&self) -> NamespaceModel {
        NamespaceModel { prefix: self.prefix@, uri: self.uri@ }
    }
}

/// An element: its resolved name, the prefix it was written with, its
/// attributes, the prefix bindings it declares, and its children in order.
#[derive(Debug, PartialEq, Eq)]
pub struct Element {
    pub name: QName,
    pub preferred_prefix: Option<Vec<u8>>,
    pub attributes: Vec<Attribute>,
    pub namespaces: Vec<Namespace>,
    pub children: Vec<Node>,
}

pub struct ElementModel {
    pub name: QNameModel,
    pub preferred_prefix: Option<Seq<u8>>,
    pub attributes: Seq<AttributeModel>,
    pub namespaces: Seq<NamespaceModel>,
    pub children: Seq<NodeModel>,
}

/// One node of the tree.
#[derive(Debug, PartialEq, Eq)]
pub enum Node {
    Element(Element),
    Text(Vec<u8>),
    Comment(Vec<u8>),
    ProcessingInstruction { target: Vec<u8>, value: Option<Vec<u8>> },
}

pub enum NodeModel {
    Element(ElementModel),
    Text(Seq<u8>),
    Comment(Seq<u8>),
    ProcessingInstruction { target: Seq<u8>, value: Option<Seq<u8>> },
}

pub open spec fn element_model(e: Element) -> ElementModel
    decreases e,
{
    ElementModel {
        name: e.name@,
        preferred_prefix: opt_bytes_model(e.preferred_prefix),
        attributes: Seq::new(e.attributes@.len(), |i: int| e.attributes@[i]@),
        namespaces: Seq::new(e.namespaces@.len(), |i: int| e.namespaces@[i]@),
        children: nodes_model(e.children@),
    }
}

pub open spec fn nodes_model(s: Seq<Node>) -> Seq<NodeModel>
    decreases s,
{
    Seq::new(
        s.len(),
        |i: int|
            if 0 <= i < s.len() {
                node_model(s[i])
            } else {
                NodeModel::Text(Seq::empty())
            },
    )
}

pub open spec fn node_model(n: Node) -> NodeModel
    decreases n,
{
    match n {
        Node::Element(e) => NodeModel::Element(element_model(e)),
        Node::Text(t) => NodeModel::Text(t@),
        Node::Comment(t) => NodeModel::Comment(t@),
        Node::ProcessingInstruction { target, value } => NodeModel::ProcessingInstruction {
            target: target@,
            value: opt_bytes_model(value),
        },
    }
}

impl View for Element {
    type V = ElementModel;

    open spec fn view(&self) -> ElementModel {
        element_model(*self)
    }
}

impl View for Node {
    type V = NodeModel;

    open spec fn view(&self) -> NodeModel {
        node_model(*self)
    }
}

/// The finished document: the children of its root, in document order.
/// Exactly one of them is the root element; comments and processing
/// instructions of the prolog and trailer stand beside it.
#[derive(Debug, PartialEq, Eq)]
pub struct Document {
    pub children: Vec<Node>,
}

pub struct DocumentModel {
    pub children: Seq<NodeModel>,
}

impl View for Document {
    type V = DocumentModel;

    open spec fn view(&self) -> DocumentModel {
        DocumentModel { children: nodes_model(self.children@) }
    }
}

impl Document {
    /// The children of the document root.
    pub fn children(&self) -> (r: &Vec<Node>)
        ensures
            r@.len() == self@.children.len(),
            forall|i: int| 0 <= i < r@.len() ==> node_model(#[trigger] r@[i]) == self@.children[i],
    {
        &self.children
    }
}

impl Node {
    /// The element this node is, if it is one.
    pub fn element(&self) -> (r: Option<&Element>)
        ensures
            match self@ {
                NodeModel::Element(em) => r is Some && r.unwrap()@ == em,
                _ => r is None,
            },
    {
        match self {
            Node::Element(e) => Some(e),
            _ => None,
        }
    }

    /// The text content of this node, if it is a text node.
    pub fn text(&self) -> (r: Option<&Vec<u8>>)
        ensures
            match self@ {
                NodeModel::Text(t) => r is Some && r.unwrap()@ == t,
                _ => r is None,
            },
    {
        match self {
            Node::Text(t) => Some(t),
            _ => None,
        }
    }

    /// The text of this node, if it is a comment.
    pub fn comment(&self) -> (r: Option<&Vec<u8>>)
        ensures
            match self@ {
                NodeModel::Comment(t) => r is Some && r.unwrap()@ == t,
                _ => r is None,
            },
    {
        match self {
            Node::Comment(t) => Some(t),
            _ => None,
        }
    }

    /// The target and value of this node, if it is a processing instruction.
    pub fn processing_instruction(&self) -> (r: Option<(&Vec<u8>, &Option<Vec<u8>>)>)
        ensures
            match self@ {
                NodeModel::ProcessingInstruction { target, value } => r is Some
                    && r.unwrap().0@ == target && opt_bytes_model(*r.unwrap().1) == value,
                _ => r is None,
            },
    {
        match self {
            Node::ProcessingInstruction { target, value } => Some((target, value)),
            _ => None,
        }
    }
}

/// The value of the last attribute whose name matches, searched from the
/// end: a later setting of the same name wins.
pub open spec fn spec_attribute_search(attrs: Seq<AttributeModel>, ns: Option<Seq<u8>>, local: Seq<
    u8,
>) -> Option<AttributeModel>
    decreases attrs.len(),
{
    if attrs.len() == 0 {
        None
    } else if attrs.last().name.namespace_uri == ns && attrs.last().name.local_part == local {
        Some(attrs.last())
    } else {
        spec_attribute_search(attrs.drop_last(), ns, local)
    }
}

impl Element {
    /// The element's resolved name.
    pub fn name(&self) -> (r: &QName)
        ensures
            r@ == self@.name,
    {
        &self.name
    }

    /// The prefix the element was written with, if any.
    pub fn preferred_prefix(&self) -> (r: &Option<Vec<u8>>)
        ensures
            opt_bytes_model(*r) == self@.preferred_prefix,
    {
        &self.preferred_prefix
    }

    /// The element's children, in document order.
    pub fn children(&self) -> (r: &Vec<Node>)
        ensures
            r@.len() == self@.children.len(),
            forall|i: int| 0 <= i < r@.len() ==> node_model(#[trigger] r@[i]) == self@.children[i],
    {
        &self.children
    }

    /// The attribute with the given namespace URI (or none) and local name.
    pub fn attribute(&self, namespace_uri: Option<&[u8]>, local: &[u8]) -> (r: Option<&Attribute>)
        ensures
            ({
                let ns = match namespace_uri {
                    Some(u) => Some(u@),
                    None => None,
                };
                match spec_attribute_search(self@.attributes, ns, local@) {
                    Some(am) => r is Some && r.unwrap()@ == am,
                    None => r is None,
                }
            }),
    {
        let ghost ns = match namespace_uri {
            Some(u) => Some(u@),
            None => None::<Seq<u8>>,
        };
        let mut i: usize = self.attributes.len();
        proof {
            assert(self@.attributes.take(i as int) =~= self@.attributes);
        }
        while i > 0
            invariant
                0 <= i <= self.attributes@.len(),
                self@.attributes.len() == self.attributes@.len(),
                forall|j: int| 0 <= j < self.attributes@.len() ==> #[trigger] self@.attributes[j]
                    == self.attributes@[j]@,
                spec_attribute_search(self@.attributes, ns, local@) == spec_attribute_search(
                    self@.attributes.take(i as int),
                    ns,
                    local@,
                ),
                ns == (match namespace_uri {
                    Some(u) => Some(u@),
                    None => None::<Seq<u8>>,
                }),
            decreases i,
        {
            i = i - 1;
            let a = &self.attributes[i];
            let ns_matches = match (namespace_uri, &a.name.namespace_uri) {
                (Some(u), Some(au)) => crate::decode::bytes_equal(au, u),
                (None, None) => true,
                _ => false,
            };
            proof {
                assert(self@.attributes.take(i + 1).last() == self@.attributes[i as int]);
                assert(self@.attributes.take(i + 1).drop_last() =~= self@.attributes.take(
                    i as int,
                ));
            }
            if ns_matches && crate::decode::bytes_equal(&a.name.local_part, local) {
                return Some(a);
            }
        }
        proof {
            assert(self@.attributes.take(0) =~= Seq::<AttributeModel>::empty());
        }
        None
    }

    /// The value of the attribute with the given local name and no
    /// namespace.
    pub fn attribute_value(&self, local: &[u8]) -> (r: Option<&Vec<u8>>)
        ensures
            match spec_attribute_search(self@.attributes, None, local@) {
                Some(am) => r is Some && r.unwrap()@ == am.value,
                None => r is None,
            },
    {
        match self.attribute(None, local) {
            Some(a) => Some(&a.value),
            None => None,
        }
    }
}

impl Attribute {
    /// The attribute's value bytes.
    pub fn value(&self) -> (r: &Vec<u8>)
        ensures
            r@ == self@.value,
    {
        &self.value
    }

    /// The prefix the attribute was written with, if any.
    pub fn preferred_prefix(&self) -> (r: &Option<Vec<u8>>)
        ensures
            opt_bytes_model(*r) == self@.preferred_prefix,
    {
        &self.preferred_prefix
    }
}

} // verus!
