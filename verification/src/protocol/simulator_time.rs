use super::serialization::NaiveTimeMilliSeconds;
use crate::error::Error;
use crate::time::{timestamp_time, TimeOfDay};
use crate::xml::{Element, Node};
use vstd::prelude::*;

verus! {

/// The simulator's answer to the question for its clock.
#[derive(Debug, Clone, PartialEq, Eq)]
pub struct SimulatorTimeResponse {
    pub time: TimeOfDay,
}

/// The mathematical value of a [`SimulatorTimeResponse`]: the nanoseconds
/// since midnight.
pub ghost struct SimulatorTimeResponseView {
    pub time: nat,
}

impl DeepView for SimulatorTimeResponse {
    type V = SimulatorTimeResponseView;

    open spec fn deep_view(&self) -> SimulatorTimeResponseView {
        SimulatorTimeResponseView { time: self.time.nanos() }
    }
}

impl SimulatorTimeResponse {
    /// The clock reading that an element holds: the time of day of the
    /// timestamp in its attribute `zeit`.
    pub open spec fn of(node: Node) -> Option<SimulatorTimeResponseView> {
        match node.long_number("zeit"@) {
            Some(millis) => if timestamp_time(millis) is Some {
                Some(SimulatorTimeResponseView { time: NaiveTimeMilliSeconds::time(millis) })
            } else {
                None
            },
            None => None,
        }
    }

    /// Reads the clock reading from the element that holds it.
    pub fn decode(element: &Element) -> (r: Result<SimulatorTimeResponse, Error>)
        ensures
            match r {
                Ok(response) => SimulatorTimeResponse::of(element.deep_view()) == Some(
                    response.deep_view(),
                ),
                Err(e) => SimulatorTimeResponse::of(element.deep_view()) is None && e is Xml,
            },
    {
        let millis = element.long_number_of("zeit")?;
        let time = NaiveTimeMilliSeconds::deserialize_as(millis)?;
        Ok(SimulatorTimeResponse { time })
    }
}

} // verus!
