//! What the simulator answers to a request, as one type.

use crate::error::Error;
use crate::protocol::{
    Platform, PlatformListResponse, PlatformView, SimulatorTimeResponse, SystemInfo,
    SystemInfoView, Train, TrainDetails, TrainDetailsView, TrainListResponse, TrainTimetable,
    TrainTimetableView, TrainView, Ways, WaysView,
};
use crate::request::Operation;
use crate::time::TimeOfDay;
use crate::xml::{Element, Node};
use vstd::prelude::*;

verus! {

/// The answer to a request: one variant for each operation.
#[derive(Debug, Clone, PartialEq, Eq)]
pub enum Response {
    SimulatorTime(TimeOfDay),
    SystemInfo(SystemInfo),
    PlatformList(Vec<Platform>),
    TrainList(Vec<Train>),
    TrainDetails(TrainDetails),
    TrainTimetable(TrainTimetable),
    Ways(Ways),
}

/// The mathematical value of a [`Response`]; a time is its nanoseconds
/// since midnight.
pub ghost enum ResponseView {
    SimulatorTime(nat),
    SystemInfo(SystemInfoView),
    PlatformList(Seq<PlatformView>),
    TrainList(Seq<TrainView>),
    TrainDetails(TrainDetailsView),
    TrainTimetable(TrainTimetableView),
    Ways(WaysView),
}

impl DeepView for Response {
    type V = ResponseView;

    open spec fn deep_view(&self) -> ResponseView {
        match self {
            Response::SimulatorTime(time) => ResponseView::SimulatorTime(time.nanos()),
            Response::SystemInfo(info) => ResponseView::SystemInfo(info.deep_view()),
            Response::PlatformList(platforms) => ResponseView::PlatformList(platforms.deep_view()),
            Response::TrainList(trains) => ResponseView::TrainList(trains.deep_view()),
            Response::TrainDetails(details) => ResponseView::TrainDetails(details.deep_view()),
            Response::TrainTimetable(timetable) => ResponseView::TrainTimetable(
                timetable.deep_view(),
            ),
            Response::Ways(ways) => ResponseView::Ways(ways.deep_view()),
        }
    }
}

/// The answer to `operation` that the element `node` holds. For the lists
/// it is the sequence inside the reply; for the clock it is the reading as
/// the simulator sent it.
pub open spec fn reply_of(operation: Operation, node: Node) -> Option<ResponseView> {
    match operation {
        Operation::SimulatorTime => match SimulatorTimeResponse::of(node) {
            Some(response) => Some(ResponseView::SimulatorTime(response.time)),
            None => None,
        },
        Operation::SystemInfo => match SystemInfo::of(node) {
            Some(info) => Some(ResponseView::SystemInfo(info)),
            None => None,
        },
        Operation::PlatformList => match PlatformListResponse::of(node) {
            Some(list) => Some(ResponseView::PlatformList(list.platforms)),
            None => None,
        },
        Operation::TrainList => match TrainListResponse::of(node) {
            Some(list) => Some(ResponseView::TrainList(list.trains)),
            None => None,
        },
        Operation::TrainDetails => match TrainDetails::of(node) {
            Some(details) => Some(ResponseView::TrainDetails(details)),
            None => None,
        },
        Operation::TrainTimetable => match TrainTimetable::of(node) {
            Some(timetable) => Some(ResponseView::TrainTimetable(timetable)),
            None => None,
        },
        Operation::Ways => match Ways::of(node) {
            Some(ways) => Some(ResponseView::Ways(ways)),
            None => None,
        },
    }
}

impl Response {
    /// Reads the answer to `operation` from the element that holds it.
    pub fn decode(operation: Operation, element: &Element) -> (r: Result<Response, Error>)
        ensures
            match r {
                Ok(response) => reply_of(operation, element.deep_view()) == Some(
                    response.deep_view(),
                ),
                Err(e) => reply_of(operation, element.deep_view()) is None && e is Xml,
            },
    {
        match operation {
            Operation::SimulatorTime => {
                let response = SimulatorTimeResponse::decode(element)?;
                Ok(Response::SimulatorTime(response.time))
            },
            Operation::SystemInfo => Ok(Response::SystemInfo(SystemInfo::decode(element)?)),
            Operation::PlatformList => {
                let list = PlatformListResponse::decode(element)?;
                Ok(Response::PlatformList(list.platforms))
            },
            Operation::TrainList => {
                let list = TrainListResponse::decode(element)?;
                Ok(Response::TrainList(list.trains))
            },
            Operation::TrainDetails => Ok(Response::TrainDetails(TrainDetails::decode(element)?)),
            Operation::TrainTimetable => Ok(
                Response::TrainTimetable(TrainTimetable::decode(element)?),
            ),
            Operation::Ways => Ok(Response::Ways(Ways::decode(element)?)),
        }
    }
}

} // verus!
