use crate::error::Error;
use crate::value::{all_of, lemma_all_of_fails, lemma_all_of_step};
use crate::xml::{Element, Node};
use vstd::prelude::*;
use vstd::string::StringExecFns;

verus! {

/// A shape of the track diagram: a signal, a switch, a platform and the
/// like.
#[derive(Debug, Clone, PartialEq, Eq)]
pub struct Shape {
    pub shape_type: String,
    pub name: Option<String>,
    pub enr: Option<String>,
}

/// The mathematical value of a [`Shape`].
pub ghost struct ShapeView {
    pub shape_type: Seq<char>,
    pub name: Option<Seq<char>>,
    pub enr: Option<Seq<char>>,
}

impl DeepView for Shape {
    type V = ShapeView;

    open spec fn deep_view(&self) -> ShapeView {
        ShapeView {
            shape_type: self.shape_type@,
            name: self.name.deep_view(),
            enr: self.enr.deep_view(),
        }
    }
}

impl Shape {
    /// The shape that an element holds: its attribute `type`, which it
    /// must have, and `name` and `enr`, which it may have.
    pub open spec fn of(node: Node) -> Option<ShapeView> {
        match node.attribute("type"@) {
            Some(shape_type) => Some(
                ShapeView {
                    shape_type,
                    name: node.attribute("name"@),
                    enr: node.attribute("enr"@),
                },
            ),
            None => None,
        }
    }

    /// Reads a shape from the element that holds it.
    pub fn decode(element: &Element) -> (r: Result<Shape, Error>)
        ensures
            match r {
                Ok(shape) => Shape::of(element.deep_view()) == Some(shape.deep_view()),
                Err(e) => Shape::of(element.deep_view()) is None && e is Xml,
            },
    {
        let shape_type = element.text_of("type")?;
        let name = element.optional_text("name");
        let enr = element.optional_text("enr");
        Ok(Shape { shape_type, name, enr })
    }
}

/// A connection between two shapes, each given by its number or by its
/// name.
#[derive(Debug, Clone, PartialEq, Eq)]
pub enum Connector {
    /// Both ends are given by number.
    Enrs { enr1: String, enr2: String },
    /// One end is given by number, the other by name.
    EnrName { enr: String, name: String },
    /// Both ends are given by name.
    Names { name1: String, name2: String },
}

/// The mathematical value of a [`Connector`].
pub ghost enum ConnectorView {
    Enrs { enr1: Seq<char>, enr2: Seq<char> },
    EnrName { enr: Seq<char>, name: Seq<char> },
    Names { name1: Seq<char>, name2: Seq<char> },
}

impl DeepView for Connector {
    type V = ConnectorView;

    open spec fn deep_view(&self) -> ConnectorView {
        match self {
            Connector::Enrs { enr1, enr2 } => ConnectorView::Enrs { enr1: enr1@, enr2: enr2@ },
            Connector::EnrName { enr, name } => ConnectorView::EnrName { enr: enr@, name: name@ },
            Connector::Names { name1, name2 } => ConnectorView::Names {
                name1: name1@,
                name2: name2@,
            },
        }
    }
}

/// The one of three values that is there, where exactly one is.
pub open spec fn only(
    a: Option<Seq<char>>,
    b: Option<Seq<char>>,
    c: Option<Seq<char>>,
) -> Option<Seq<char>> {
    if a is Some && b is None && c is None {
        a
    } else if a is None && b is Some && c is None {
        b
    } else if a is None && b is None && c is Some {
        c
    } else {
        None
    }
}

/// The one of three values that is there, where exactly one is.
fn only_of(a: Option<String>, b: Option<String>, c: Option<String>) -> (r: Option<String>)
    ensures
        r.deep_view() == only(a.deep_view(), b.deep_view(), c.deep_view()),
{
    match (a, b, c) {
        (Some(value), None, None) => Some(value),
        (None, Some(value), None) => Some(value),
        (None, None, Some(value)) => Some(value),
        _ => None,
    }
}

impl Connector {
    /// The connection that an element holds in its attributes, read in this
    /// order: with both `enr1` and `enr2`, two numbers; else with exactly
    /// one of `enr`, `enr1`, `enr2` and exactly one of `name`, `name1`,
    /// `name2`, a number and a name; else with both `name1` and `name2`,
    /// two names.
    pub open spec fn of(node: Node) -> Option<ConnectorView> {
        let enr = only(node.attribute("enr"@), node.attribute("enr1"@), node.attribute("enr2"@));
        let name = only(
            node.attribute("name"@),
            node.attribute("name1"@),
            node.attribute("name2"@),
        );
        if node.attribute("enr1"@) is Some && node.attribute("enr2"@) is Some {
            Some(
                ConnectorView::Enrs {
                    enr1: node.attribute("enr1"@)->Some_0,
                    enr2: node.attribute("enr2"@)->Some_0,
                },
            )
        } else if enr is Some && name is Some {
            Some(ConnectorView::EnrName { enr: enr->Some_0, name: name->Some_0 })
        } else if node.attribute("name1"@) is Some && node.attribute("name2"@) is Some {
            Some(
                ConnectorView::Names {
                    name1: node.attribute("name1"@)->Some_0,
                    name2: node.attribute("name2"@)->Some_0,
                },
            )
        } else {
            None
        }
    }

    /// Reads a connection from the element that holds it.
    pub fn decode(element: &Element) -> (r: Result<Connector, Error>)
        ensures
            match r {
                Ok(connector) => Connector::of(element.deep_view()) == Some(connector.deep_view()),
                Err(e) => Connector::of(element.deep_view()) is None && e is Xml,
            },
    {
        let enr1 = element.optional_text("enr1");
        let enr2 = element.optional_text("enr2");
        let name1 = element.optional_text("name1");
        let name2 = element.optional_text("name2");
        match (enr1, enr2) {
            (Some(enr1), Some(enr2)) => Ok(Connector::Enrs { enr1, enr2 }),
            (enr1, enr2) => {
                let enr = only_of(element.optional_text("enr"), enr1, enr2);
                let name = only_of(
                    element.optional_text("name"),
                    element.optional_text("name1"),
                    element.optional_text("name2"),
                );
                match (enr, name, name1, name2) {
                    (Some(enr), Some(name), _, _) => Ok(Connector::EnrName { enr, name }),
                    (_, _, Some(name1), Some(name2)) => Ok(Connector::Names { name1, name2 }),
                    _ => Err(
                        Error::Xml(String::from_str("the connector does not name its two ends")),
                    ),
                }
            },
        }
    }
}

/// The track diagram: its shapes and the connections between them.
#[derive(Debug, Clone, PartialEq, Eq)]
pub struct Ways {
    pub shapes: Vec<Shape>,
    pub connectors: Vec<Connector>,
}

/// The mathematical value of a [`Ways`].
pub ghost struct WaysView {
    pub shapes: Seq<ShapeView>,
    pub connectors: Seq<ConnectorView>,
}

impl DeepView for Ways {
    type V = WaysView;

    open spec fn deep_view(&self) -> WaysView {
        WaysView { shapes: self.shapes.deep_view(), connectors: self.connectors.deep_view() }
    }
}

impl Ways {
    /// The diagram that an element holds: the shapes of its children
    /// `shape` and the connections of its children `connector`, each in
    /// their order. Without such children the sequences are empty.
    pub open spec fn of(node: Node) -> Option<WaysView> {
        match (
            all_of(node.children_named("shape"@), |child: Node| Shape::of(child)),
            all_of(node.children_named("connector"@), |child: Node| Connector::of(child)),
        ) {
            (Some(shapes), Some(connectors)) => Some(WaysView { shapes, connectors }),
            _ => None,
        }
    }

    /// Reads the shapes of the diagram from the element that holds it.
    fn decode_shapes(element: &Element) -> (r: Result<Vec<Shape>, Error>)
        ensures
            match r {
                Ok(shapes) => all_of(
                    element.deep_view().children_named("shape"@),
                    |child: Node| Shape::of(child),
                ) == Some(shapes.deep_view()),
                Err(e) => all_of(
                    element.deep_view().children_named("shape"@),
                    |child: Node| Shape::of(child),
                ) is None && e is Xml,
            },
    {
        let children = element.children_named("shape");
        let ghost nodes = children.deep_view();
        let ghost read = |child: Node| Shape::of(child);
        let mut shapes: Vec<Shape> = Vec::new();
        let mut i: usize = 0;
        assert(nodes.take(0) =~= Seq::<Node>::empty());
        assert(shapes.deep_view() =~= Seq::<ShapeView>::empty());
        while i < children.len()
            invariant
                i <= children@.len(),
                nodes == children.deep_view(),
                nodes == element.deep_view().children_named("shape"@),
                nodes.len() == children@.len(),
                read == |child: Node| Shape::of(child),
                all_of(nodes.take(i as int), read) == Some(shapes.deep_view()),
            decreases children@.len() - i,
        {
            let ghost before = shapes.deep_view();
            proof {
                lemma_all_of_step(nodes, read, i as int);
                assert(nodes[i as int] == children@[i as int].deep_view());
            }
            match Shape::decode(children[i]) {
                Ok(item) => {
                    shapes.push(item);
                    assert(shapes.deep_view() =~= before.push(item.deep_view()));
                },
                Err(e) => {
                    proof {
                        lemma_all_of_fails(nodes, read, i as int);
                    }
                    return Err(e);
                },
            }
            i += 1;
        }
        assert(nodes.take(nodes.len() as int) =~= nodes);
        Ok(shapes)
    }

    /// Reads the connections of the diagram from the element that holds it.
    fn decode_connectors(element: &Element) -> (r: Result<Vec<Connector>, Error>)
        ensures
            match r {
                Ok(connectors) => all_of(
                    element.deep_view().children_named("connector"@),
                    |child: Node| Connector::of(child),
                ) == Some(connectors.deep_view()),
                Err(e) => all_of(
                    element.deep_view().children_named("connector"@),
                    |child: Node| Connector::of(child),
                ) is None && e is Xml,
            },
    {
        let children = element.children_named("connector");
        let ghost nodes = children.deep_view();
        let ghost read = |child: Node| Connector::of(child);
        let mut connectors: Vec<Connector> = Vec::new();
        let mut i: usize = 0;
        assert(nodes.take(0) =~= Seq::<Node>::empty());
        assert(connectors.deep_view() =~= Seq::<ConnectorView>::empty());
        while i < children.len()
            invariant
                i <= children@.len(),
                nodes == children.deep_view(),
                nodes == element.deep_view().children_named("connector"@),
                nodes.len() == children@.len(),
                read == |child: Node| Connector::of(child),
                all_of(nodes.take(i as int), read) == Some(connectors.deep_view()),
            decreases children@.len() - i,
        {
            let ghost before = connectors.deep_view();
            proof {
                lemma_all_of_step(nodes, read, i as int);
                assert(nodes[i as int] == children@[i as int].deep_view());
            }
            match Connector::decode(children[i]) {
                Ok(item) => {
                    connectors.push(item);
                    assert(connectors.deep_view() =~= before.push(item.deep_view()));
                },
                Err(e) => {
                    proof {
                        lemma_all_of_fails(nodes, read, i as int);
                    }
                    return Err(e);
                },
            }
            i += 1;
        }
        assert(nodes.take(nodes.len() as int) =~= nodes);
        Ok(connectors)
    }

    /// Reads the diagram from the element that holds it.
    pub fn decode(element: &Element) -> (r: Result<Ways, Error>)
        ensures
            match r {
                Ok(ways) => Ways::of(element.deep_view()) == Some(ways.deep_view()),
                Err(e) => Ways::of(element.deep_view()) is None && e is Xml,
            },
    {
        let shapes = Ways::decode_shapes(element)?;
        let connectors = Ways::decode_connectors(element)?;
        Ok(Ways { shapes, connectors })
    }
}

} // verus!
