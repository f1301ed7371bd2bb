//! The simulation core of a game in which a ball rolls over a terrain that
//! ripples under it.
//!
//! The crate holds the rules of the game and proves them with Verus:
//!
//! - [`world`] is the heart of it: a registry of rigid bodies with
//!   identities that are never given out twice ([`registry`]), a pipeline
//!   that takes every contact to the handlers of the game, any of which
//!   may veto it ([`contact`]), and a stepper that turns frames of any
//!   length into ticks of one fixed length ([`clock`]).
//! - [`terrain`] is the ground: a grid of heights that takes a step of a
//!   damped wave equation every tick ([`grid`]), is read from an image
//!   ([`heightmap`]) and drawn as a mesh that is kept in step with it
//!   ([`mesh`]).
//! - [`game`] holds the rules around them: the menu, the controls, the
//!   camera, the pickups and the ways a round ends; [`input`] what the
//!   player wants, [`particle`] and [`audio`] what is seen and heard of it.
//! - [`settings`], [`obj`] and [`worldgen`] read the files of the game,
//!   over [`text`].
//!
//! The rigid-body engine, the renderer, the mixer and the devices are not
//! part of the crate. A host program owns them, asks the rules what to do,
//! and tells them what came of it.
//!
//! # Numbers
//!
//! Every quantity is a fixed-point number: an `i64` counted in millionths
//! of a unit ([`fixed`], [`math`]). Times are whole microseconds or
//! milliseconds. The decimal constants of the game are exact in this form,
//! a run is repeatable bit for bit, and what the proofs say of the numbers
//! is what the machine computes. Where a sum or a product could leave the
//! range of the numbers, it stops at the end of the range; which
//! operations do so is part of their contract.
pub mod fixed;
pub mod math;
pub mod grid;
pub mod heightmap;
pub mod terrain;
pub mod mesh;
pub mod body;
pub mod contact;
pub mod registry;
pub mod clock;
pub mod world;
pub mod text;
pub mod settings;
pub mod obj;
pub mod input;
pub mod particle;
pub mod audio;
pub mod game;
pub mod worldgen;
