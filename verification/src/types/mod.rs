pub mod line;
pub mod point;
pub mod status;

pub use line::Line;
pub use point::Point;
pub use status::Status;
