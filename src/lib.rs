//! Hunt-train tracking: the train state machine, the renderers that turn
//! train state into message content, and the decision logic of the
//! projection synchronisation engine (publishing and fan-out refresh).
pub mod model;
pub mod text;
pub mod train;
pub mod dashboard;
pub mod monitor;
pub mod refresh;
pub mod publish;
pub mod command;
