//! Deterministic simulation core of a two-player space duel around a sun.
//!
//! Every quantity is an integer. Lengths, speeds and angles are fixed-point
//! numbers with `units::ONE` steps to the world unit, times are nanoseconds.
//! The host owns the clock, the input devices and the entities on screen; it
//! calls one function per component and frame and acts on what comes back.
//!
//! A frame runs the components in this order, each on what the one before
//! left behind:
//!
//! 1. flight: `flight::turn_angle`, then `flight::handle_rocket_movement` or
//!    `flight::fly_rockets`;
//! 2. gravity: `gravity::gravitational_pull`;
//! 3. the edges of the playfield: `rocket::clip_rockets`;
//! 4. weapons: `bullet::spawn_bullet`, then `bullet::handle_bullet_movement`;
//! 5. collisions, on the positions the frame has ended with:
//!    `collision::check_rocket_crashes` and `bullet::check_bullet_coll`.
//!
//! The functions never remove or create an entity. They return the
//! projectiles to create and one flag per entity to remove, and the host
//! carries both out once the frame is through.

pub mod bullet;
pub mod collision;
pub mod flight;
pub mod gravity;
pub mod input;
pub mod rocket;
pub mod sqrt;
pub mod units;
pub mod vec2;
