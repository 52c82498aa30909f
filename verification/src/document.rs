//! The document tree: an arena of elements that nodes refer to by handle.

use vstd::prelude::*;

use crate::string_map::StringMap;

verus! {

/// A handle to an element of a document.
#[derive(Clone, Copy, Debug, PartialEq, Eq, Structural)]
pub struct Element {
    pub id: usize,
}

impl View for Element {
    type V = int;

    open spec fn view(&self) -> int {
        self.id as int
    }
}

/// A node of the tree.
#[derive(Debug)]
pub enum Node {
    Element(Element),
    Text(String),
    Comment(String),
    CData(String),
    DocType(String),
    PI(String),
}

/// What a node holds: the number of an element, or a text.
pub enum NodeView {
    Element(int),
    Text(Seq<char>),
    Comment(Seq<char>),
    CData(Seq<char>),
    DocType(Seq<char>),
    PI(Seq<char>),
}

impl View for Node {
    type V = NodeView;

    open spec fn view(&self) -> NodeView {
        match *self {
            Node::Element(e) => NodeView::Element(e@),
            Node::Text(s) => NodeView::Text(s@),
            Node::Comment(s) => NodeView::Comment(s@),
            Node::CData(s) => NodeView::CData(s@),
            Node::DocType(s) => NodeView::DocType(s@),
            Node::PI(s) => NodeView::PI(s@),
        }
    }
}

/// What a list of nodes holds.
pub open spec fn nodes_view(nodes: Seq<Node>) -> Seq<NodeView> {
    Seq::new(nodes.len(), |i: int| nodes[i]@)
}

/// What an element holds.
pub struct ElementView {
    /// The name as written, with its prefix.
    pub name: Seq<char>,
    pub attributes: Map<Seq<char>, Seq<char>>,
    /// From prefix to namespace; the empty prefix is the default namespace.
    pub namespaces: Map<Seq<char>, Seq<char>>,
    pub parent: Option<int>,
    pub children: Seq<NodeView>,
}

/// What a document holds. Element 0 is the container of the top-level
/// nodes.
pub struct DocumentView {
    pub elements: Seq<ElementView>,
    pub version: Seq<char>,
    pub standalone: bool,
}

impl ElementView {
    /// An element of the given name, with nothing in it and no parent.
    pub open spec fn fresh(name: Seq<char>) -> ElementView {
        ElementView {
            name,
            attributes: Map::empty(),
            namespaces: Map::empty(),
            parent: None,
            children: Seq::empty(),
        }
    }

    /// Every handle that the element holds is below `count`.
    pub open spec fn handles_below(self, count: int) -> bool {
        &&& self.parent matches Some(p) ==> 0 <= p < count
        &&& forall|i: int|
            0 <= i < self.children.len() ==> (#[trigger] self.children[i] matches NodeView::Element(
                c,
            ) ==> 0 <= c < count)
    }
}

impl DocumentView {
    /// The document holds the element of number `e`.
    pub open spec fn holds(self, e: int) -> bool {
        0 <= e < self.elements.len()
    }

    /// The node refers to nothing outside the document.
    pub open spec fn holds_node(self, node: NodeView) -> bool {
        node matches NodeView::Element(c) ==> self.holds(c)
    }

    /// The container exists, and every handle in the document refers to one
    /// of its elements.
    pub open spec fn valid(self) -> bool {
        &&& self.elements.len() >= 1
        &&& forall|e: int|
            0 <= e < self.elements.len() ==> (#[trigger] self.elements[e]).handles_below(
                self.elements.len() as int,
            )
    }

    /// The document with one more element, which gets the next number.
    pub open spec fn with_element(self, data: ElementView) -> DocumentView {
        DocumentView { elements: self.elements.push(data), ..self }
    }

    /// The document with `node` as the new last child of `parent`; a node
    /// that is an element gets `parent` as its parent.
    pub open spec fn with_child(self, parent: int, node: NodeView) -> DocumentView {
        let grown = self.elements.update(
            parent,
            ElementView {
                children: self.elements[parent].children.push(node),
                ..self.elements[parent]
            },
        );
        let linked = match node {
            NodeView::Element(c) => grown.update(
                c,
                ElementView { parent: Some(parent), ..grown[c] },
            ),
            _ => grown,
        };
        DocumentView { elements: linked, ..self }
    }
}

/// A valid document stays valid when it gets an element whose handles
/// refer to elements that it holds already.
pub proof fn lemma_with_element_valid(doc: DocumentView, data: ElementView)
    requires
        doc.valid(),
        data.handles_below(doc.elements.len() as int),
    ensures
        doc.with_element(data).valid(),
        doc.with_element(data).elements.len() == doc.elements.len() + 1,
        forall|e: int| doc.holds(e) ==> doc.with_element(data).holds(e),
{
    let grown = doc.with_element(data);
    assert forall|e: int| 0 <= e < grown.elements.len() implies (
    #[trigger] grown.elements[e]).handles_below(grown.elements.len() as int) by {
        if e < doc.elements.len() {
            assert(doc.elements[e].handles_below(doc.elements.len() as int));
        }
    }
}

/// A valid document stays valid, and holds the elements that it held, when
/// one of its elements gets a child that refers to nothing outside it.
pub proof fn lemma_with_child_valid(doc: DocumentView, parent: int, node: NodeView)
    requires
        doc.valid(),
        doc.holds(parent),
        doc.holds_node(node),
    ensures
        doc.with_child(parent, node).valid(),
        doc.with_child(parent, node).elements.len() == doc.elements.len(),
{
    let after = doc.with_child(parent, node);
    let count = doc.elements.len() as int;
    assert forall|e: int| 0 <= e < after.elements.len() implies (
    #[trigger] after.elements[e]).handles_below(after.elements.len() as int) by {
        assert(doc.elements[e].handles_below(count));
        let now = after.elements[e];
        assert forall|i: int| 0 <= i < now.children.len() implies (
        #[trigger] now.children[i] matches NodeView::Element(x) ==> 0 <= x < count) by {
            if i < doc.elements[e].children.len() {
                assert(now.children[i] == doc.elements[e].children[i]);
            }
        }
    }
}

/// An element as the arena keeps it.
pub struct ElementData {
    full_name: String,
    attributes: StringMap,
    namespace_decls: StringMap,
    parent: Option<Element>,
    children: Vec<Node>,
}

impl View for ElementData {
    type V = ElementView;

    closed spec fn view(&self) -> ElementView {
        ElementView {
            name: self.full_name@,
            attributes: self.attributes@,
            namespaces: self.namespace_decls@,
            parent: match self.parent {
                Some(p) => Some(p@),
                None => None,
            },
            children: nodes_view(self.children@),
        }
    }
}

impl ElementData {
    /// An element without parent and children.
    pub fn new(full_name: String, attributes: StringMap, namespace_decls: StringMap) -> (r:
        ElementData)
        ensures
            r@ == (ElementView {
                attributes: attributes@,
                namespaces: namespace_decls@,
                ..ElementView::fresh(full_name@)
            }),
    {
        let r = ElementData {
            full_name,
            attributes,
            namespace_decls,
            parent: None,
            children: Vec::new(),
        };
        assert(r@.children =~= Seq::empty());
        r
    }
}

/// A document: the arena of its elements, and what its declaration said.
pub struct Document {
    store: Vec<ElementData>,
    version: String,
    standalone: bool,
}

impl View for Document {
    type V = DocumentView;

    closed spec fn view(&self) -> DocumentView {
        DocumentView {
            elements: Seq::new(self.store@.len(), |i: int| self.store@[i]@),
            version: self.version@,
            standalone: self.standalone,
        }
    }
}

impl Document {
    /// The invariant of a document: its view is valid.
    pub open spec fn wf(&self) -> bool {
        self@.valid()
    }

    /// The document holds the element that `e` refers to.
    pub open spec fn holds(&self, e: Element) -> bool {
        self@.holds(e@)
    }

    /// What a new document holds: its empty container and nothing else.
    pub open spec fn new_view() -> DocumentView {
        DocumentView {
            elements: seq![ElementView::fresh(Seq::empty())],
            version: Seq::empty(),
            standalone: false,
        }
    }

    /// A document that holds nothing but its empty container.
    pub fn new() -> (doc: Document)
        ensures
            doc.wf(),
            doc@ == Document::new_view(),
    {
        let mut store: Vec<ElementData> = Vec::new();
        store.push(ElementData::new(String::new(), StringMap::new(), StringMap::new()));
        let doc = Document { store, version: String::new(), standalone: false };
        assert(doc@.elements =~= seq![ElementView::fresh(Seq::empty())]);
        doc
    }

    /// The element that collects the top-level nodes.
    pub fn container(&self) -> (e: Element)
        ensures
            e@ == 0,
    {
        Element { id: 0 }
    }

    /// The number of elements, the container among them.
    pub fn element_count(&self) -> (n: usize)
        ensures
            n == self@.elements.len(),
    {
        self.store.len()
    }

    /// The version that the declaration gave; empty without a declaration.
    pub fn version(&self) -> (r: &str)
        ensures
            r@ == self@.version,
    {
        self.version.as_str()
    }

    /// Whether the declaration called the document standalone.
    pub fn standalone(&self) -> (r: bool)
        ensures
            r == self@.standalone,
    {
        self.standalone
    }

    /// Records what the declaration said.
    pub fn set_declaration(&mut self, version: String, standalone: bool)
        ensures
            final(self).wf() == old(self).wf(),
            final(self)@ == (DocumentView { version: version@, standalone, ..old(self)@ }),
    {
        self.version = version;
        self.standalone = standalone;
        assert(self@.elements =~= old(self)@.elements);
    }

    /// Adds an element that is nobody's child yet.
    pub fn add(&mut self, data: ElementData) -> (e: Element)
        requires
            old(self).wf(),
            data@.handles_below(old(self)@.elements.len() as int),
        ensures
            final(self).wf(),
            e@ == old(self)@.elements.len(),
            final(self)@ == old(self)@.with_element(data@),
    {
        let id = self.store.len();
        self.store.push(data);
        proof {
            assert(self@.elements =~= old(self)@.elements.push(data@));
            assert forall|e: int| 0 <= e < self@.elements.len() implies (
            #[trigger] self@.elements[e]).handles_below(self@.elements.len() as int) by {
                if e < id {
                    assert(old(self)@.elements[e].handles_below(id as int));
                }
            }
        }
        Element { id }
    }
}

impl Element {
    /// Adds an element of the given name, with nothing in it, to `doc`. It is
    /// nobody's child until it is pushed to a parent.
    pub fn new(doc: &mut Document, full_name: String) -> (e: Element)
        requires
            old(doc).wf(),
        ensures
            final(doc).wf(),
            e@ == old(doc)@.elements.len(),
            final(doc)@ == old(doc)@.with_element(ElementView::fresh(full_name@)),
    {
        doc.add(ElementData::new(full_name, StringMap::new(), StringMap::new()))
    }

    /// Appends `node` to the children of this element. A node that is an
    /// element gets this element as its parent.
    pub fn push_child(&self, doc: &mut Document, node: Node)
        requires
            old(doc).wf(),
            old(doc).holds(*self),
            old(doc)@.holds_node(node@),
        ensures
            final(doc).wf(),
            final(doc)@ == old(doc)@.with_child(self@, node@),
    {
        let ghost before = doc@;
        let ghost added = node@;
        let child = match &node {
            Node::Element(c) => Some(*c),
            _ => None,
        };
        let count = doc.store.len();
        doc.store[self.id].children.push(node);
        let ghost grown = doc@.elements;
        proof {
            assert(doc@.elements[self@].children =~= before.elements[self@].children.push(added));
            assert(grown =~= before.elements.update(
                self@,
                ElementView {
                    children: before.elements[self@].children.push(added),
                    ..before.elements[self@]
                },
            ));
        }
        match child {
            Some(c) => {
                doc.store[c.id].parent = Some(*self);
                proof {
                    assert(doc@.elements =~= grown.update(
                        c@,
                        ElementView { parent: Some(self@), ..grown[c@] },
                    ));
                }
            },
            None => {},
        }
        proof {
            assert(doc@ == before.with_child(self@, added));
            assert forall|e: int| 0 <= e < doc@.elements.len() implies (
            #[trigger] doc@.elements[e]).handles_below(doc@.elements.len() as int) by {
                assert(before.elements[e].handles_below(count as int));
                let now = doc@.elements[e];
                assert forall|i: int| 0 <= i < now.children.len() implies (
                #[trigger] now.children[i] matches NodeView::Element(x) ==> 0 <= x < count) by {
                    if i < before.elements[e].children.len() {
                        assert(now.children[i] == before.elements[e].children[i]);
                    }
                }
            }
        }
    }

    /// Whether this element has any child.
    pub fn has_children(&self, doc: &Document) -> (r: bool)
        requires
            doc.holds(*self),
        ensures
            r == (doc@.elements[self@].children.len() > 0),
    {
        doc.store[self.id].children.len() > 0
    }

    /// The children of this element, in document order.
    pub fn children<'a>(&self, doc: &'a Document) -> (r: &'a Vec<Node>)
        requires
            doc.holds(*self),
        ensures
            nodes_view(r@) == doc@.elements[self@].children,
    {
        &doc.store[self.id].children
    }

    /// The name of this element as written, with its prefix.
    pub fn full_name<'a>(&self, doc: &'a Document) -> (r: &'a str)
        requires
            doc.holds(*self),
        ensures
            r@ == doc@.elements[self@].name,
    {
        doc.store[self.id].full_name.as_str()
    }

    /// The element that this element is a child of.
    pub fn parent(&self, doc: &Document) -> (r: Option<Element>)
        requires
            doc.holds(*self),
        ensures
            r is Some <==> doc@.elements[self@].parent is Some,
            r matches Some(p) ==> doc@.elements[self@].parent == Some(p@),
    {
        doc.store[self.id].parent
    }

    /// The attributes of this element.
    pub fn attributes<'a>(&self, doc: &'a Document) -> (r: &'a StringMap)
        requires
            doc.holds(*self),
        ensures
            r@ == doc@.elements[self@].attributes,
    {
        &doc.store[self.id].attributes
    }

    /// The namespaces that this element declares, by prefix.
    pub fn namespace_decls<'a>(&self, doc: &'a Document) -> (r: &'a StringMap)
        requires
            doc.holds(*self),
        ensures
            r@ == doc@.elements[self@].namespaces,
    {
        &doc.store[self.id].namespace_decls
    }
}

} // verus!
