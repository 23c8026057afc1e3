//! Pose evaluation for Spine skeletal animations in exact fixed-point arithmetic.
//!
//! A [`format::Document`] holds the records of a Spine document. Loading it with
//! [`skeleton::Skeleton::from_json`] resolves every name to an index and checks
//! the document; a [`skeleton::animation::SkinAnimation`] then computes, for any
//! point in time, the sprites to draw with their transforms and tints.
//!
//! Every number is a [`scalar::Scalar`], a count of millionths, so that every
//! result is exact and the same on every machine. An [`atlas::Atlas`] reads
//! the textures that the sprites are cut from.

pub mod scalar;
pub mod trig;
pub mod text;
pub mod hex;
pub mod collect;
pub mod format;
pub mod skeleton;
pub mod atlas;
