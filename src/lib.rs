//! Self-play training core for a two-sided tafl game: the state and action
//! model, the shaped reward, the episode termination rule, the tie-aware
//! choice among learned values and the bookkeeping of finished games.
pub mod board;
pub mod reward;
pub mod select;
pub mod terminate;
pub mod training;
