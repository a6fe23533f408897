//! Verified core of a brute-force N-body gravity simulation.
//!
//! Every body carries a stable identifier. The force pass of a step visits
//! each ordered pair of bodies whose identifiers differ, row by row; the
//! arithmetic on positions, velocities and masses is done by the caller along
//! that schedule.
pub mod layout;
pub mod laws;
pub mod registry;
pub mod schedule;
