//! Simultaneous Kelly-criterion allocation: the combinatorial and control parts.
//!
//! `outcomes` enumerates every joint win/lose assignment of a set of independent
//! bets, in a fixed counter order; `ascent` holds the order of actions and the
//! stopping and acceptance rules of a projected gradient-ascent run.

pub mod ascent;
pub mod outcomes;
