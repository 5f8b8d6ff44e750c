use vstd::prelude::*;

pub mod shared;
pub mod data;
pub mod net;
pub mod mission;
pub mod hud;
pub mod menu;
pub mod progress;

verus! {
}
