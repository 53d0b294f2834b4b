use crate::error::Error;
use crate::xml::{Element, Node};
use vstd::prelude::*;

verus! {

/// What the simulator tells of the signal box it runs.
#[derive(Debug, Clone, PartialEq, Eq)]
pub struct SystemInfo {
    pub build: i32,
    pub name: String,
    pub aid: i32,
    pub region: String,
    pub online: bool,
}

/// The mathematical value of a [`SystemInfo`].
pub ghost struct SystemInfoView {
    pub build: int,
    pub name: Seq<char>,
    pub aid: int,
    pub region: Seq<char>,
    pub online: bool,
}

impl DeepView for SystemInfo {
    type V = SystemInfoView;

    open spec fn deep_view(&self) -> SystemInfoView {
        SystemInfoView {
            build: self.build as int,
            name: self.name@,
            aid: self.aid as int,
            region: self.region@,
            online: self.online,
        }
    }
}

impl SystemInfo {
    /// The information that an element holds in its attributes `simbuild`,
    /// `name`, `aid`, `region` and `online`, all of which it must have.
    pub open spec fn of(node: Node) -> Option<SystemInfoView> {
        if node.number("simbuild"@) is Some && node.attribute("name"@) is Some && node.number(
            "aid"@,
        ) is Some && node.attribute("region"@) is Some && node.switch("online"@) is Some {
            Some(
                SystemInfoView {
                    build: node.number("simbuild"@)->Some_0,
                    name: node.attribute("name"@)->Some_0,
                    aid: node.number("aid"@)->Some_0,
                    region: node.attribute("region"@)->Some_0,
                    online: node.switch("online"@)->Some_0,
                },
            )
        } else {
            None
        }
    }

    /// Reads the information from the element that holds it.
    pub fn decode(element: &Element) -> (r: Result<SystemInfo, Error>)
        ensures
            match r {
                Ok(info) => SystemInfo::of(element.deep_view()) == Some(info.deep_view()),
                Err(e) => SystemInfo::of(element.deep_view()) is None && e is Xml,
            },
    {
        let build = element.number_of("simbuild")?;
        let name = element.text_of("name")?;
        let aid = element.number_of("aid")?;
        let region = element.text_of("region")?;
        let online = element.switch_of("online")?;
        Ok(SystemInfo { build, name, aid, region, online })
    }
}

} // verus!
