//! Avalon, a smuggling game for one player: the deterministic core.
//!
//! A run is rolled from a seed and played by choices. Money is integer pence,
//! fuel is millilitres, and the random stream travels inside the state, so a
//! run can be replayed bit for bit:
//! `(Mission, Command, &ContentDb) -> (Mission, Vec<Event>)`.
//!
//! - [`content`], [`load`]: what is authored, its checks, and its order; with
//!   [`content_laws`].
//! - [`generate`], [`mission`], [`dice`]: a fresh run, its state, its stream;
//!   with [`job_laws`] and [`model_laws`].
//! - [`scenes`], [`engine`], [`road`]: what the player sees and does; with
//!   [`play_laws`] of each choice and [`scene_laws`] of what is shown.
//! - [`laws`]: what holds of every run.
//! - [`world`], [`memory`], [`inquiry`], [`hearing`], [`panel`]: the world
//!   that outlives a run: memories, gossip, and hearings; with [`world_laws`]
//!   and [`record_laws`].
//! - [`dialogue`], [`session`], [`access`], [`schema`], [`safety`]: what the
//!   daemon decides around a run; with [`desk_laws`].
//! - [`text`], [`flags`], [`prose`]: texts, sets of names, and fixed words; with
//!   [`text_laws`].

pub mod access;
pub mod content;
pub mod content_laws;
pub mod desk_laws;
pub mod dialogue;
pub mod dice;
pub mod engine;
pub mod flags;
pub mod generate;
pub mod hearing;
pub mod inquiry;
pub mod job_laws;
pub mod laws;
pub mod load;
pub mod memory;
pub mod mission;
pub mod model_laws;
pub mod panel;
pub mod play_laws;
pub mod prose;
pub mod record_laws;
pub mod road;
pub mod safety;
pub mod scene_laws;
pub mod scenes;
pub mod schema;
pub mod session;
pub mod text;
pub mod text_laws;
pub mod world;
pub mod world_laws;

pub use crate::content::ContentDb;
pub use crate::mission::{
    fmt_pence, skill_value, Choice, Command, Event, Mission, Outcome, Scene, Stage, DIESEL_BUY_L,
    JERRY_CAN_ML, JERRY_CAN_PENCE, MAX_HEAT, MAX_WEAR,
};
pub use crate::road::step;
pub use crate::scenes::scene;
