pub mod json_model;
pub mod registry;
pub mod render;
pub mod json_read;
pub mod schedule;
pub mod url;

pub use schedule::ByeWeek;
pub use schedule::Schedule;
pub use schedule::ScheduleError;
pub use schedule::Team;
pub use schedule::TeamMatchUp;
