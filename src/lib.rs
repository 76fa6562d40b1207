//! Decision logic of a paced media sender: a drift-free frame clock, the
//! mapping of transport connection states to a coarse lifecycle signal, the
//! sample dispatcher as a state machine, a pass-through observer on the
//! inbound control-packet path, and the text form of session descriptions.
//! Beside it, the logic of the board fabrication tools: the parts list search
//! and the bill-of-materials join.
pub mod camera;
pub mod connection;
pub mod dispatcher;
pub mod fabrication;
pub mod interceptor;
pub mod lifecycle;
pub mod pacer;
pub mod parts;
pub mod session;
