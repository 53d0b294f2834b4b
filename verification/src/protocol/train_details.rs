use crate::error::Error;
use crate::xml::{Element, Node};
use vstd::prelude::*;

verus! {

/// What the simulator tells of one train.
#[derive(Debug, Clone, PartialEq, Eq)]
pub struct TrainDetails {
    pub id: String,
    pub name: String,
    /// The delay in minutes; negative for a train ahead of its time.
    pub delay: i32,
    pub platform: String,
    pub scheduled_platform: String,
    pub origin: String,
    pub destination: String,
    pub visible: bool,
    pub at_platform: bool,
    pub user_text: Option<String>,
    pub user_text_sender: Option<String>,
    pub notice_text: Option<String>,
}

/// The mathematical value of a [`TrainDetails`].
pub ghost struct TrainDetailsView {
    pub id: Seq<char>,
    pub name: Seq<char>,
    pub delay: int,
    pub platform: Seq<char>,
    pub scheduled_platform: Seq<char>,
    pub origin: Seq<char>,
    pub destination: Seq<char>,
    pub visible: bool,
    pub at_platform: bool,
    pub user_text: Option<Seq<char>>,
    pub user_text_sender: Option<Seq<char>>,
    pub notice_text: Option<Seq<char>>,
}

impl DeepView for TrainDetails {
    type V = TrainDetailsView;

    open spec fn deep_view(&self) -> TrainDetailsView {
        TrainDetailsView {
            id: self.id@,
            name: self.name@,
            delay: self.delay as int,
            platform: self.platform@,
            scheduled_platform: self.scheduled_platform@,
            origin: self.origin@,
            destination: self.destination@,
            visible: self.visible,
            at_platform: self.at_platform,
            user_text: self.user_text.deep_view(),
            user_text_sender: self.user_text_sender.deep_view(),
            notice_text: self.notice_text.deep_view(),
        }
    }
}

impl TrainDetails {
    /// The details that an element holds in its attributes. It must have
    /// `zid`, `name`, `verspaetung`, `gleis`, `plangleis`, `von`, `nach`,
    /// `sichtbar` and `amgleis`; it may have `usertext`, `usertextsender`
    /// and `hinweistext`.
    pub open spec fn of(node: Node) -> Option<TrainDetailsView> {
        if node.attribute("zid"@) is Some && node.attribute("name"@) is Some && node.number("verspaetung"@) is Some && node.attribute("gleis"@) is Some && node.attribute("plangleis"@) is Some && node.attribute("von"@) is Some && node.attribute("nach"@) is Some && node.switch("sichtbar"@) is Some && node.switch("amgleis"@) is Some {
            Some(
                TrainDetailsView {
                    id: node.attribute("zid"@)->Some_0,
                    name: node.attribute("name"@)->Some_0,
                    delay: node.number("verspaetung"@)->Some_0,
                    platform: node.attribute("gleis"@)->Some_0,
                    scheduled_platform: node.attribute("plangleis"@)->Some_0,
                    origin: node.attribute("von"@)->Some_0,
                    destination: node.attribute("nach"@)->Some_0,
                    visible: node.switch("sichtbar"@)->Some_0,
                    at_platform: node.switch("amgleis"@)->Some_0,
                    user_text: node.attribute("usertext"@),
                    user_text_sender: node.attribute("usertextsender"@),
                    notice_text: node.attribute("hinweistext"@),
                },
            )
        } else {
            None
        }
    }

    /// Reads the details from the element that holds them.
    pub fn decode(element: &Element) -> (r: Result<TrainDetails, Error>)
        ensures
            match r {
                Ok(details) => TrainDetails::of(element.deep_view()) == Some(details.deep_view()),
                Err(e) => TrainDetails::of(element.deep_view()) is None && e is Xml,
            },
    {
        let id = element.text_of("zid")?;
        let name = element.text_of("name")?;
        let delay = element.number_of("verspaetung")?;
        let platform = element.text_of("gleis")?;
        let scheduled_platform = element.text_of("plangleis")?;
        let origin = element.text_of("von")?;
        let destination = element.text_of("nach")?;
        let visible = element.switch_of("sichtbar")?;
        let at_platform = element.switch_of("amgleis")?;
        let user_text = element.optional_text("usertext");
        let user_text_sender = element.optional_text("usertextsender");
        let notice_text = element.optional_text("hinweistext");
        Ok(
            TrainDetails {
                id,
                name,
                delay,
                platform,
                scheduled_platform,
                origin,
                destination,
                visible,
                at_platform,
                user_text,
                user_text_sender,
                notice_text,
            },
        )
    }
}

} // verus!
