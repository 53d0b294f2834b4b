use crate::error::Error;
use crate::value::{all_of, lemma_all_of_fails, lemma_all_of_step};
use crate::xml::{Element, Node};
use vstd::prelude::*;

verus! {

/// A train as the list of trains names it.
#[derive(Debug, Clone, PartialEq, Eq)]
pub struct Train {
    pub id: String,
    pub name: String,
}

/// The mathematical value of a [`Train`].
pub ghost struct TrainView {
    pub id: Seq<char>,
    pub name: Seq<char>,
}

impl DeepView for Train {
    type V = TrainView;

    open spec fn deep_view(&self) -> TrainView {
        TrainView { id: self.id@, name: self.name@ }
    }
}

impl Train {
    /// The train that an element holds in its attributes `zid` and `name`.
    pub open spec fn of(node: Node) -> Option<TrainView> {
        if node.attribute("zid"@) is Some && node.attribute("name"@) is Some {
            Some(TrainView { id: node.attribute("zid"@)->Some_0, name: node.attribute("name"@)->Some_0 })
        } else {
            None
        }
    }

    /// Reads a train from the element that holds it.
    pub fn decode(element: &Element) -> (r: Result<Train, Error>)
        ensures
            match r {
                Ok(train) => Train::of(element.deep_view()) == Some(train.deep_view()),
                Err(e) => Train::of(element.deep_view()) is None && e is Xml,
            },
    {
        let id = element.text_of("zid")?;
        let name = element.text_of("name")?;
        Ok(Train { id, name })
    }
}

/// The simulator's list of trains.
#[derive(Debug, Clone, PartialEq, Eq)]
pub struct TrainListResponse {
    pub trains: Vec<Train>,
}

/// The mathematical value of a [`TrainListResponse`].
pub ghost struct TrainListResponseView {
    pub trains: Seq<TrainView>,
}

impl DeepView for TrainListResponse {
    type V = TrainListResponseView;

    open spec fn deep_view(&self) -> TrainListResponseView {
        TrainListResponseView { trains: self.trains.deep_view() }
    }
}

impl TrainListResponse {
    /// The list that an element holds: the trains of its children `zug`,
    /// in their order. Without such a child the list is empty.
    pub open spec fn of(node: Node) -> Option<TrainListResponseView> {
        match all_of(node.children_named("zug"@), |child: Node| Train::of(child)) {
            Some(trains) => Some(TrainListResponseView { trains }),
            None => None,
        }
    }

    /// Reads the list from the element that holds it.
    pub fn decode(element: &Element) -> (r: Result<TrainListResponse, Error>)
        ensures
            match r {
                Ok(list) => TrainListResponse::of(element.deep_view()) == Some(list.deep_view()),
                Err(e) => TrainListResponse::of(element.deep_view()) is None && e is Xml,
            },
    {
        let children = element.children_named("zug");
        let ghost nodes = children.deep_view();
        let ghost read = |child: Node| Train::of(child);
        let mut trains: Vec<Train> = Vec::new();
        let mut i: usize = 0;
        assert(nodes.take(0) =~= Seq::<Node>::empty());
        assert(trains.deep_view() =~= Seq::<TrainView>::empty());
        while i < children.len()
            invariant
                i <= children@.len(),
                nodes == children.deep_view(),
                nodes == element.deep_view().children_named("zug"@),
                nodes.len() == children@.len(),
                read == |child: Node| Train::of(child),
                all_of(nodes.take(i as int), read) == Some(trains.deep_view()),
            decreases children@.len() - i,
        {
            let ghost before = trains.deep_view();
            proof {
                lemma_all_of_step(nodes, read, i as int);
                assert(nodes[i as int] == children@[i as int].deep_view());
            }
            match Train::decode(children[i]) {
                Ok(train) => {
                    trains.push(train);
                    assert(trains.deep_view() =~= before.push(train.deep_view()));
                },
                Err(e) => {
                    proof {
                        lemma_all_of_fails(nodes, read, i as int);
                    }
                    return Err(e);
                },
            }
            i += 1;
        }
        assert(nodes.take(nodes.len() as int) =~= nodes);
        Ok(TrainListResponse { trains })
    }
}

} // verus!
