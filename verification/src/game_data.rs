//! Plain data-model types of the game client: actor, ship, weapon and
//! UI classifications shared between the simulation core and the
//! surrounding systems.  They carry no behaviour of their own; the
//! terrain and controller logic lives in the sibling modules.

use vstd::prelude::*;

verus! {

/// Selects the built-in controller tuning used by plain actors.
#[derive(Clone, Copy, Debug, PartialEq, Eq, Structural)]
pub enum ControllerDataType {
    Default,
    Tank,
}

/// Behaviour state of an AI-driven actor.
#[derive(Clone, Copy, Debug, PartialEq, Eq, Structural)]
pub enum ActorControllerState {
    Idle,
    Attack,
    Move,
    Patrol,
    Trace,
}

/// Construction parameters of an actor; the actor's collaborators are
/// supplied separately by the scene.
pub struct ActorCreateInfo {}

/// Per-actor gameplay data.
pub struct ActorData {}

/// Armor archetypes.
#[derive(Clone, Copy, Debug, PartialEq, Eq, Structural)]
pub enum ArmorDataType {
    Default,
}

/// Camera mode of the game view.
#[derive(Clone, Copy, Debug, PartialEq, Eq, Structural)]
pub enum GameViewMode {
    TopViewMode,
    FpsViewMode,
    Count,
}

/// Hull archetypes of ships.
#[derive(Clone, Copy, Debug, PartialEq, Eq, Structural)]
pub enum ShipDataType {
    Scout,
    Tank,
}

/// Projectile archetypes.
#[derive(Clone, Copy, Debug, PartialEq, Eq, Structural)]
pub enum BulletType {
    Beam,
    Gatling,
    Laser,
    Plasma,
    Shotgun,
}

/// Weapon archetypes.
#[derive(Clone, Copy, Debug, PartialEq, Eq, Structural)]
pub enum WeaponType {
    BeamEmitter,
    Gatling,
    LaserEmitter,
    PlasmaEmitter,
    Shotgun,
}

} // verus!
