//! The verified core of a side-scrolling chase game: a player slides down
//! an infinite procedurally generated slope, scores between pairs of
//! posts, and is periodically pursued by a chaser that must steer around
//! the same obstacles.
//!
//! The library holds the world generation and spatial-collision subsystem:
//! region-based on-demand generation and retirement of obstacle geometry
//! keyed to the camera position; axis-aligned bounding boxes with offset
//! centers shared by player, chaser, obstacles and posts; an exact
//! segment-against-rectangle intersection primitive used for collision and
//! ray queries; the per-tick collision resolver; and the chaser's ray-fan
//! steering. World coordinates are integers; randomness enters only
//! through one wrapper over the process random number generator, and every
//! function is verified for every value it can hand back. Rendering, audio
//! and the entity lifecycle stay outside.

pub mod num;
pub mod geom;
pub mod collidable;
pub mod region;
pub mod rng;
pub mod obstacle;
pub mod collision;
pub mod timer;
pub mod yeti;
pub mod player;
pub mod posts;
pub mod uicontrols;
pub mod stuneffect;
pub mod camera;
pub mod finish;
pub mod animation;
pub mod spatialtree;
pub mod level_generator;
