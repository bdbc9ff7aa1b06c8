//! A bounded pool of connection slots driven by readiness events, together
//! with the small card-game model that shares the crate.
//!
//! The networking side is split in two. [`pool::ConnectionSet`] owns the
//! slots and the queue of free ones; [`dispatch::Dispatcher`] turns each
//! readiness event into the next action for the event loop (accept, register,
//! read, deliver, tear down), so that the loop itself only performs system
//! calls.
pub mod tag;
pub mod connection;
pub mod pool;
pub mod dispatch;
pub mod game;

pub use tag::{Tag, LISTEN_TOKEN};
pub use connection::{ConnectionContext, BUFFSIZE};
pub use pool::{ConnectionSet, PoolError, PoolModel};
pub use dispatch::{AcceptOutcome, Action, Dispatcher, Event, ReadOutcome};
pub use game::{
    Card, CardEffect, CardID, Character, CharacterIdx, Deck, Encounter, Feature, FeatureEffect,
    FeatureID, FeatureIdx, Game, Player, PlayerID, Trait, TraitID, TraitValue,
};
