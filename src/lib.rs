//! Game engines for a handful of small arcade games: the grid snake, the
//! memory card matcher, the arithmetic quiz and the number-rain bucket. Rendering, input polling and
//! asset loading live with the host program; these modules hold the state
//! and its transitions, each stated and proved.

pub mod random;
pub mod snake;
pub mod memory;
pub mod quiz;
pub mod rain;
