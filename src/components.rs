use vstd::prelude::*;

use crate::geometry::Quadrant;

verus! {

/// Friction coefficients are kept in ten-thousandths.
pub const FRICTION_SCALE: i32 = 10000;

/// A velocity, in world units per second.
#[derive(Clone, Copy, Debug, PartialEq, Eq, Structural)]
pub struct Vec2 {
    pub x: i32,
    pub y: i32,
}

/// The images the renderer knows; it resolves each to an asset of its own.
#[derive(Clone, Copy, Debug, PartialEq, Eq, Structural)]
pub enum Texture {
    Rocket,
    Asteroid1,
    Asteroid2,
    Asteroid3,
    Laser,
}

impl Texture {
    pub open spec fn is_asteroid(self) -> bool {
        self == Texture::Asteroid1 || self == Texture::Asteroid2 || self == Texture::Asteroid3
    }

    pub open spec fn asset_path(self) -> Seq<char> {
        match self {
            Texture::Rocket => "Assets/Images/rocket.png"@,
            Texture::Asteroid1 => "Assets/Images/asteroid_1.png"@,
            Texture::Asteroid2 => "Assets/Images/asteroid_2.png"@,
            Texture::Asteroid3 => "Assets/Images/asteroid_3.png"@,
            Texture::Laser => "Assets/Images/laser.png"@,
        }
    }

    /// The asset path of the image.
    pub fn texture_name(&self) -> (r: &'static str)
        ensures
            r@ == self.asset_path(),
    {
        match self {
            Texture::Rocket => "Assets/Images/rocket.png",
            Texture::Asteroid1 => "Assets/Images/asteroid_1.png",
            Texture::Asteroid2 => "Assets/Images/asteroid_2.png",
            Texture::Asteroid3 => "Assets/Images/asteroid_3.png",
            Texture::Laser => "Assets/Images/laser.png",
        }
    }
}

/// How an entity is drawn. The output size is also its collision diameter.
#[derive(Clone, Copy, Debug, PartialEq, Eq, Structural)]
pub struct Renderable {
    pub texture: Texture,
    pub img_width: u32,
    pub img_height: u32,
    pub output_width: u32,
    pub output_height: u32,
    /// Display rotation, in thousandths of a degree.
    pub img_rotation: i64,
}

/// Where an entity is: x and y in world units (thousandths of a pixel), and its
/// heading in thousandths of a degree, measured clockwise from up.
#[derive(Clone, Copy, Debug, PartialEq, Eq, Structural)]
pub struct Position {
    pub x: i64,
    pub y: i64,
    pub rot: i64,
}

/// The ship.
#[derive(Clone, Copy, Debug, PartialEq, Eq, Structural)]
pub struct Player {
    /// Thrust gathered this tick, in world units per second.
    pub impulse: Vec2,
    pub current_speed: Vec2,
    /// Thousandths of a degree per second.
    pub rotation_speed: i32,
    /// World units per second.
    pub max_speed: i32,
    /// Share of the speed kept from one tick to the next, in ten-thousandths.
    pub friction: i32,
    pub health: i32,
}

impl Player {
    /// The speed limit is nonnegative, friction does not add speed, and the thrust
    /// gathered in one tick is within the speed limit on each axis.
    pub open spec fn wf(self) -> bool {
        &&& 0 <= self.max_speed
        &&& 0 <= self.friction <= FRICTION_SCALE
        &&& -self.max_speed <= self.impulse.x <= self.max_speed
        &&& -self.max_speed <= self.impulse.y <= self.max_speed
    }
}

/// A rock drifting across the screen.
#[derive(Clone, Copy, Debug, PartialEq, Eq, Structural)]
pub struct Asteroid {
    /// Image spin, in thousandths of a degree per second.
    pub rotation_speed: i32,
    /// World units per second.
    pub speed: i32,
    /// Not used by the movement rules.
    pub friction: i32,
    /// The quadrant the asteroid was in when it last moved.
    pub quadrant: Quadrant,
}

/// A projectile.
#[derive(Clone, Copy, Debug, PartialEq, Eq, Structural)]
pub struct Laser {
    /// World units per second.
    pub speed: i32,
}

/// Score, wave and the invincibility switch.
#[derive(Clone, Copy, Debug, PartialEq, Eq, Structural)]
pub struct GameData {
    pub score: u32,
    pub level: u32,
    pub invincible_player: bool,
}

/// Time elapsed since the previous frame, in microseconds.
#[derive(Clone, Copy, Debug, PartialEq, Eq, Structural)]
pub struct DeltaTime(pub u32);

} // verus!
