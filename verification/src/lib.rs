//! Monster rosters for the encounters of a board game.
//!
//! A player fills an encounter with monsters of the enabled expansion packs:
//! by loading a preset, a curated roster, or by asking for slots, each of a
//! color class and a level tier, that are then bound to monsters drawn at
//! random, no monster twice.
//!
//! The crate has two parts.  The first reads the catalogs from their text
//! form and holds them to their rules: [`monster::monster`] builds the
//! monster catalog, [`setup::setup`] the preset catalog.  The second is the
//! assignment engine, [`select::compute`], with the selection state that it
//! serves, [`store::SelectStore`].  What holds of the engine whatever it
//! draws is proved in [`laws`].

pub mod error;
pub mod game;
pub mod html;
pub mod image;
pub mod laws;
pub mod monster;
pub mod pool;
pub mod select;
pub mod setup;
pub mod slot;
pub mod store;
pub mod text;
