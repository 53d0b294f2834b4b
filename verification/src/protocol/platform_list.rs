use crate::error::Error;
use crate::value::{all_of, lemma_all_of_fails, lemma_all_of_step};
use crate::xml::{Element, Node};
use vstd::prelude::*;

verus! {

/// A platform that lies next to another one.
#[derive(Debug, Clone, PartialEq, Eq)]
pub struct PlatformNeighbor {
    pub name: String,
}

/// The mathematical value of a [`PlatformNeighbor`].
pub ghost struct PlatformNeighborView {
    pub name: Seq<char>,
}

impl DeepView for PlatformNeighbor {
    type V = PlatformNeighborView;

    open spec fn deep_view(&self) -> PlatformNeighborView {
        PlatformNeighborView { name: self.name@ }
    }
}

impl PlatformNeighbor {
    /// The neighbour that an element names in its attribute `name`.
    pub open spec fn of(node: Node) -> Option<PlatformNeighborView> {
        match node.attribute("name"@) {
            Some(name) => Some(PlatformNeighborView { name }),
            None => None,
        }
    }

    /// Reads a neighbour from the element that holds it.
    pub fn decode(element: &Element) -> (r: Result<PlatformNeighbor, Error>)
        ensures
            match r {
                Ok(neighbor) => PlatformNeighbor::of(element.deep_view()) == Some(
                    neighbor.deep_view(),
                ),
                Err(e) => PlatformNeighbor::of(element.deep_view()) is None && e is Xml,
            },
    {
        let name = element.text_of("name")?;
        Ok(PlatformNeighbor { name })
    }
}

/// A place where trains stop.
#[derive(Debug, Clone, PartialEq, Eq)]
pub struct Platform {
    pub name: String,
    /// Whether this is a mere stopping point rather than a full platform.
    pub stop: bool,
    /// The platforms next to this one, in the order of the reply.
    pub neighbors: Vec<PlatformNeighbor>,
}

/// The mathematical value of a [`Platform`].
pub ghost struct PlatformView {
    pub name: Seq<char>,
    pub stop: bool,
    pub neighbors: Seq<PlatformNeighborView>,
}

impl DeepView for Platform {
    type V = PlatformView;

    open spec fn deep_view(&self) -> PlatformView {
        PlatformView { name: self.name@, stop: self.stop, neighbors: self.neighbors.deep_view() }
    }
}

impl Platform {
    /// The platform that an element holds: its attributes `name` and
    /// `haltepunkt`, and the neighbours of its children `n`, in their
    /// order. Without such a child it has no neighbours.
    pub open spec fn of(node: Node) -> Option<PlatformView> {
        match (
            node.attribute("name"@),
            node.switch("haltepunkt"@),
            all_of(node.children_named("n"@), |child: Node| PlatformNeighbor::of(child)),
        ) {
            (Some(name), Some(stop), Some(neighbors)) => Some(
                PlatformView { name, stop, neighbors },
            ),
            _ => None,
        }
    }

    /// Reads a platform from the element that holds it.
    pub fn decode(element: &Element) -> (r: Result<Platform, Error>)
        ensures
            match r {
                Ok(platform) => Platform::of(element.deep_view()) == Some(platform.deep_view()),
                Err(e) => Platform::of(element.deep_view()) is None && e is Xml,
            },
    {
        let name = element.text_of("name")?;
        let stop = element.switch_of("haltepunkt")?;
        let children = element.children_named("n");
        let ghost nodes = children.deep_view();
        let ghost read = |child: Node| PlatformNeighbor::of(child);
        let mut neighbors: Vec<PlatformNeighbor> = Vec::new();
        let mut i: usize = 0;
        assert(nodes.take(0) =~= Seq::<Node>::empty());
        assert(neighbors.deep_view() =~= Seq::<PlatformNeighborView>::empty());
        while i < children.len()
            invariant
                i <= children@.len(),
                nodes == children.deep_view(),
                nodes == element.deep_view().children_named("n"@),
                nodes.len() == children@.len(),
                read == |child: Node| PlatformNeighbor::of(child),
                all_of(nodes.take(i as int), read) == Some(neighbors.deep_view()),
            decreases children@.len() - i,
        {
            let ghost before = neighbors.deep_view();
            proof {
                lemma_all_of_step(nodes, read, i as int);
                assert(nodes[i as int] == children@[i as int].deep_view());
            }
            match PlatformNeighbor::decode(children[i]) {
                Ok(item) => {
                    neighbors.push(item);
                    assert(neighbors.deep_view() =~= before.push(item.deep_view()));
                },
                Err(e) => {
                    proof {
                        lemma_all_of_fails(nodes, read, i as int);
                    }
                    return Err(e);
                },
            }
            i += 1;
        }
        assert(nodes.take(nodes.len() as int) =~= nodes);
        Ok(Platform { name, stop, neighbors })
    }
}

/// The simulator's list of platforms.
#[derive(Debug, Clone, PartialEq, Eq)]
pub struct PlatformListResponse {
    pub platforms: Vec<Platform>,
}

/// The mathematical value of a [`PlatformListResponse`].
pub ghost struct PlatformListResponseView {
    pub platforms: Seq<PlatformView>,
}

impl DeepView for PlatformListResponse {
    type V = PlatformListResponseView;

    open spec fn deep_view(&self) -> PlatformListResponseView {
        PlatformListResponseView { platforms: self.platforms.deep_view() }
    }
}

impl PlatformListResponse {
    /// The list that an element holds: the platforms of its children
    /// `bahnsteig`, in their order. Without such a child the list is empty.
    pub open spec fn of(node: Node) -> Option<PlatformListResponseView> {
        match all_of(node.children_named("bahnsteig"@), |child: Node| Platform::of(child)) {
            Some(platforms) => Some(PlatformListResponseView { platforms }),
            None => None,
        }
    }

    /// Reads the list from the element that holds it.
    pub fn decode(element: &Element) -> (r: Result<PlatformListResponse, Error>)
        ensures
            match r {
                Ok(list) => PlatformListResponse::of(element.deep_view()) == Some(
                    list.deep_view(),
                ),
                Err(e) => PlatformListResponse::of(element.deep_view()) is None && e is Xml,
            },
    {
        let children = element.children_named("bahnsteig");
        let ghost nodes = children.deep_view();
        let ghost read = |child: Node| Platform::of(child);
        let mut platforms: Vec<Platform> = Vec::new();
        let mut i: usize = 0;
        assert(nodes.take(0) =~= Seq::<Node>::empty());
        assert(platforms.deep_view() =~= Seq::<PlatformView>::empty());
        while i < children.len()
            invariant
                i <= children@.len(),
                nodes == children.deep_view(),
                nodes == element.deep_view().children_named("bahnsteig"@),
                nodes.len() == children@.len(),
                read == |child: Node| Platform::of(child),
                all_of(nodes.take(i as int), read) == Some(platforms.deep_view()),
            decreases children@.len() - i,
        {
            let ghost before = platforms.deep_view();
            proof {
                lemma_all_of_step(nodes, read, i as int);
                assert(nodes[i as int] == children@[i as int].deep_view());
            }
            match Platform::decode(children[i]) {
                Ok(item) => {
                    platforms.push(item);
                    assert(platforms.deep_view() =~= before.push(item.deep_view()));
                },
                Err(e) => {
                    proof {
                        lemma_all_of_fails(nodes, read, i as int);
                    }
                    return Err(e);
                },
            }
            i += 1;
        }
        assert(nodes.take(nodes.len() as int) =~= nodes);
        Ok(PlatformListResponse { platforms })
    }
}

} // verus!
