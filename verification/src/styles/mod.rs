pub mod edge;
pub mod options_ref;
pub mod render_command;
pub mod style;
pub mod units;
pub mod box_shadow;
