//! The typed values of the protocol and how each is read from the element
//! that holds it.

mod platform_list;
pub mod serialization;
mod simulator_time;
mod status;
mod system_info;
mod train_details;
mod train_list;
mod train_timetable;
mod ways;

pub use platform_list::{
    Platform, PlatformListResponse, PlatformListResponseView, PlatformNeighbor,
    PlatformNeighborView, PlatformView,
};
pub use serialization::{NaiveTimeHoursMinutes, NaiveTimeMilliSeconds};
pub use simulator_time::{SimulatorTimeResponse, SimulatorTimeResponseView};
pub use status::{Status, StatusView};
pub use system_info::{SystemInfo, SystemInfoView};
pub use train_details::{TrainDetails, TrainDetailsView};
pub use train_list::{Train, TrainListResponse, TrainListResponseView, TrainView};
pub use train_timetable::{
    TimetablePlatform, TimetablePlatformView, TrainTimetable, TrainTimetableView,
};
pub use ways::{Connector, ConnectorView, Shape, ShapeView, Ways, WaysView};
