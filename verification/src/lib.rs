//! Movement and collision core of a grid snake game.
//!
//! The engine tracks an ordered body of grid cells (head first, tail last),
//! a current heading, and the most recently dropped tail cell.  It advances
//! the body one cell per tick, wraps motion across the board edges, grows
//! the body on request, and tests cells for overlap with the body.

pub mod snake;
