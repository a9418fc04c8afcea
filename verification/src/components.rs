//! The records that make up players, bombs and explosions.

use crate::color::Color;
use crate::timer::Countdown;
use bevy::math::Vec3;
use vstd::prelude::*;

verus! {

/// `bevy::math::Vec3`, a point or direction in the scene. Its coordinates
/// are carried through unread.
#[verifier::external_type_specification]
#[verifier::external_body]
pub struct ExVec3(Vec3);

/// Contains the client identifier of the player.
#[derive(Clone, Copy, Debug)]
pub struct Player(pub u64);

/// Where a player stands.
#[derive(Clone, Copy, Debug)]
pub struct PlayerPosition(pub Vec3);

/// The colour a player is drawn in.
#[derive(Clone, Copy, Debug)]
pub struct PlayerColor(pub Color);

/// The cooldown that spaces out a player's bombs.
#[derive(Clone, Copy, Debug)]
pub struct BombControl(pub Countdown);

/// Where a bomb lies.
#[derive(Clone, Copy, Debug)]
pub struct BombPosition(pub Vec3);

/// The fuse that counts down to a bomb's detonation.
#[derive(Clone, Copy, Debug)]
pub struct BombFuse(pub Countdown);

/// How far an explosion reaches, in scene units.
#[derive(Clone, Copy, Debug)]
pub struct BombRadius(pub u32);

/// A detonation: where it happened and how far it reaches.
#[derive(Clone, Copy, Debug)]
pub struct BombExplosion {
    pub position: BombPosition,
    pub radius: BombRadius,
}

/// Everything about a player that is shared with clients.
#[derive(Clone, Copy, Debug)]
pub struct PlayerBundle {
    pub player: Player,
    pub position: PlayerPosition,
    pub color: PlayerColor,
}

/// Everything about an explosion that is shared with clients.
#[derive(Clone, Copy, Debug)]
pub struct BombExplosionBundle {
    pub explosion: BombExplosion,
}

/// Everything about a bomb that is shared with clients.
#[derive(Clone, Copy, Debug)]
pub struct BombBundle {
    pub position: BombPosition,
    pub color: PlayerColor,
}

impl PlayerBundle {
    /// Puts a player together from its client, its position and its
    /// colour.
    pub fn new(client_id: u64, position: Vec3, color: Color) -> (bundle: Self)
        ensures
            bundle == (PlayerBundle {
                player: Player(client_id),
                position: PlayerPosition(position),
                color: PlayerColor(color),
            }),
    {
        Self {
            player: Player(client_id),
            position: PlayerPosition(position),
            color: PlayerColor(color),
        }
    }
}

impl BombExplosionBundle {
    /// Puts an explosion together from its position and its radius.
    pub fn new(position: Vec3, radius: u32) -> (bundle: Self)
        ensures
            bundle == (BombExplosionBundle {
                explosion: BombExplosion {
                    position: BombPosition(position),
                    radius: BombRadius(radius),
                },
            }),
    {
        Self { explosion: BombExplosion { position: BombPosition(position), radius: BombRadius(radius) } }
    }
}

impl BombBundle {
    /// Puts a bomb together from its position and the colour of the player
    /// who placed it.
    pub fn new(position: Vec3, color: Color) -> (bundle: Self)
        ensures
            bundle == (BombBundle { position: BombPosition(position), color: PlayerColor(color) }),
    {
        Self { color: PlayerColor(color), position: BombPosition(position) }
    }
}

} // verus!
