use crate::error::Error;
use crate::xml::{Element, Node};
use vstd::prelude::*;
use vstd::string::StringExecFns;

verus! {

/// The status line the simulator sends at the greeting and after the
/// registration.
#[derive(Debug, Clone, PartialEq, Eq)]
pub struct Status {
    pub code: i32,
    pub text: String,
}

/// The mathematical value of a [`Status`].
pub ghost struct StatusView {
    pub code: int,
    pub text: Seq<char>,
}

impl DeepView for Status {
    type V = StatusView;

    open spec fn deep_view(&self) -> StatusView {
        StatusView { code: self.code as int, text: self.text@ }
    }
}

impl Status {
    /// The code with which the simulator opens a session.
    pub const GREETING: i32 = 300;

    /// The code with which the simulator accepts a registration.
    pub const REGISTERED: i32 = 220;

    /// The status that an element holds: its attribute `code`, an integer,
    /// and its text, which may not be empty.
    pub open spec fn of(node: Node) -> Option<StatusView> {
        if node.number("code"@) is Some && node.text.len() > 0 {
            Some(StatusView { code: node.number("code"@)->Some_0, text: node.text })
        } else {
            None
        }
    }

    /// Reads a status from the element that holds it.
    pub fn decode(element: &Element) -> (r: Result<Status, Error>)
        ensures
            match r {
                Ok(status) => Status::of(element.deep_view()) == Some(status.deep_view()),
                Err(e) => Status::of(element.deep_view()) is None && e is Xml,
            },
    {
        let code = element.number_of("code")?;
        if element.text.as_str().is_empty() {
            return Err(Error::Xml(String::from_str("the status has no text")));
        }
        Ok(Status { code, text: element.text.clone() })
    }
}

} // verus!
