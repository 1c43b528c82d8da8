//! Simulation core of a top-down survival arena.
//!
//! A player fends off enemies that come at it from all sides: a weapon fires
//! by itself, fallen enemies leave experience, and every new level offers a
//! choice of upgrades. Every stage of a tick is a function over an explicit
//! [`world::World`] and the event queues of that tick; the caller runs the
//! stages in their order: spawning, movement, firing, collisions, health,
//! experience, upgrades.
//!
//! All quantities are integers. Lengths are thousandths of a world unit,
//! times are microseconds, speeds are world units per second and angles are
//! thousandths of a degree. Directions are vectors a million long. The
//! library works out no cosine and no sine: where an angle has to be turned
//! into a direction, the caller hands both in as a [`geometry::Turn`].

pub mod config;
pub mod enemy;
pub mod geometry;
pub mod health;
pub mod level;
pub mod player;
pub mod projectile;
pub mod random;
pub mod timer;
pub mod ui;
pub mod upgrade;
pub mod upgrade_menu;
pub mod weapon;
pub mod world;
pub mod xp;
