use super::serialization::NaiveTimeHoursMinutes;
use crate::error::Error;
use crate::time::{hours_minutes_time, TimeOfDay};
use crate::value::{all_of, lemma_all_of_fails, lemma_all_of_step};
use crate::xml::{Element, Node};
use vstd::prelude::*;

verus! {

/// The time of day, in nanoseconds since midnight, that the attribute
/// `name` of an element writes as hours and minutes.
pub open spec fn clock(node: Node, name: Seq<char>) -> Option<nat> {
    match node.attribute(name) {
        Some(text) => match hours_minutes_time(text) {
            Some((seconds, nanos)) => Some((seconds * 1_000_000_000 + nanos) as nat),
            None => None,
        },
        None => None,
    }
}

/// Reads the time of day that the attribute `name` writes as hours and
/// minutes: the element must have it, and it must write one. The time is a
/// whole minute of the day.
pub fn clock_of(element: &Element, name: &str) -> (r: Result<TimeOfDay, Error>)
    ensures
        match r {
            Ok(time) => clock(element.deep_view(), name@) == Some(time.nanos()) && time.nanos()
                % 60_000_000_000 == 0,
            Err(e) => clock(element.deep_view(), name@) is None && e is Xml,
        },
{
    let text = element.text_of(name)?;
    NaiveTimeHoursMinutes::deserialize_as(text.as_str())
}

/// A stop of a train as its timetable plans it.
#[derive(Debug, Clone, PartialEq, Eq)]
pub struct TimetablePlatform {
    pub platform: String,
    pub name: String,
    pub arrival: TimeOfDay,
    pub departure: TimeOfDay,
    pub flags: String,
}

/// The mathematical value of a [`TimetablePlatform`]; its times are
/// nanoseconds since midnight.
pub ghost struct TimetablePlatformView {
    pub platform: Seq<char>,
    pub name: Seq<char>,
    pub arrival: nat,
    pub departure: nat,
    pub flags: Seq<char>,
}

impl DeepView for TimetablePlatform {
    type V = TimetablePlatformView;

    open spec fn deep_view(&self) -> TimetablePlatformView {
        TimetablePlatformView {
            platform: self.platform@,
            name: self.name@,
            arrival: self.arrival.nanos(),
            departure: self.departure.nanos(),
            flags: self.flags@,
        }
    }
}

impl TimetablePlatform {
    /// The stop that an element holds in its attributes `plan`, `name`,
    /// `an`, `ab` and `flags`, all of which it must have; `an` and `ab`
    /// are times written as hours and minutes.
    pub open spec fn of(node: Node) -> Option<TimetablePlatformView> {
        match (
            node.attribute("plan"@),
            node.attribute("name"@),
            clock(node, "an"@),
            clock(node, "ab"@),
            node.attribute("flags"@),
        ) {
            (Some(platform), Some(name), Some(arrival), Some(departure), Some(flags)) => Some(
                TimetablePlatformView { platform, name, arrival, departure, flags },
            ),
            _ => None,
        }
    }

    /// Reads a stop from the element that holds it. Its times are whole
    /// minutes of the day.
    pub fn decode(element: &Element) -> (r: Result<TimetablePlatform, Error>)
        ensures
            match r {
                Ok(stop) => TimetablePlatform::of(element.deep_view()) == Some(stop.deep_view())
                    && stop.arrival.nanos() % 60_000_000_000 == 0 && stop.departure.nanos()
                    % 60_000_000_000 == 0,
                Err(e) => TimetablePlatform::of(element.deep_view()) is None && e is Xml,
            },
    {
        let platform = element.text_of("plan")?;
        let name = element.text_of("name")?;
        let arrival = clock_of(element, "an")?;
        let departure = clock_of(element, "ab")?;
        let flags = element.text_of("flags")?;
        Ok(TimetablePlatform { platform, name, arrival, departure, flags })
    }
}

/// The timetable of one train.
#[derive(Debug, Clone, PartialEq, Eq)]
pub struct TrainTimetable {
    pub id: String,
    /// The stops of the train, in the order of the reply.
    pub platforms: Vec<TimetablePlatform>,
}

/// The mathematical value of a [`TrainTimetable`].
pub ghost struct TrainTimetableView {
    pub id: Seq<char>,
    pub platforms: Seq<TimetablePlatformView>,
}

impl DeepView for TrainTimetable {
    type V = TrainTimetableView;

    open spec fn deep_view(&self) -> TrainTimetableView {
        TrainTimetableView { id: self.id@, platforms: self.platforms.deep_view() }
    }
}

impl TrainTimetable {
    /// The timetable that an element holds: its attribute `zid`, and the
    /// stops of its children `gleis`, in their order.
    pub open spec fn of(node: Node) -> Option<TrainTimetableView> {
        match (
            node.attribute("zid"@),
            all_of(node.children_named("gleis"@), |child: Node| TimetablePlatform::of(child)),
        ) {
            (Some(id), Some(platforms)) => Some(TrainTimetableView { id, platforms }),
            _ => None,
        }
    }

    /// Reads the timetable from the element that holds it.
    pub fn decode(element: &Element) -> (r: Result<TrainTimetable, Error>)
        ensures
            match r {
                Ok(timetable) => TrainTimetable::of(element.deep_view()) == Some(
                    timetable.deep_view(),
                ),
                Err(e) => TrainTimetable::of(element.deep_view()) is None && e is Xml,
            },
    {
        let id = element.text_of("zid")?;
        let children = element.children_named("gleis");
        let ghost nodes = children.deep_view();
        let ghost read = |child: Node| TimetablePlatform::of(child);
        let mut platforms: Vec<TimetablePlatform> = Vec::new();
        let mut i: usize = 0;
        assert(nodes.take(0) =~= Seq::<Node>::empty());
        assert(platforms.deep_view() =~= Seq::<TimetablePlatformView>::empty());
        while i < children.len()
            invariant
                i <= children@.len(),
                nodes == children.deep_view(),
                nodes == element.deep_view().children_named("gleis"@),
                nodes.len() == children@.len(),
                read == |child: Node| TimetablePlatform::of(child),
                all_of(nodes.take(i as int), read) == Some(platforms.deep_view()),
            decreases children@.len() - i,
        {
            let ghost before = platforms.deep_view();
            proof {
                lemma_all_of_step(nodes, read, i as int);
                assert(nodes[i as int] == children@[i as int].deep_view());
            }
            match TimetablePlatform::decode(children[i]) {
                Ok(item) => {
                    platforms.push(item);
                    assert(platforms.deep_view() =~= before.push(item.deep_view()));
                },
                Err(e) => {
                    proof {
                        lemma_all_of_fails(nodes, read, i as int);
                    }
                    return Err(e);
                },
            }
            i += 1;
        }
        assert(nodes.take(nodes.len() as int) =~= nodes);
        Ok(TrainTimetable { id, platforms })
    }
}

} // verus!
