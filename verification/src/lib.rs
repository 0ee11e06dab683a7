//! Decoder for the compressed, versioned game-data archive of the Genie
//! engine.
//!
//! An archive is a deflate stream without a header. Inflated, it starts with
//! a version tag of eight bytes, and goes on with its sections in a fixed
//! order. [`inflate::decompress`] inflates the stream, and
//! [`datfile::DatFile::read_from_soft`] walks through the sections and keeps
//! what it has decoded when the buffer ends early.

pub mod building;
pub mod civ;
pub mod colour;
pub mod combat;
pub mod creatable;
pub mod datfile;
pub mod effect;
pub mod error;
pub mod graphic;
pub mod inflate;
pub mod layout;
pub mod le;
pub mod reader;
pub mod record;
pub mod sound;
pub mod task;
pub mod tech;
pub mod terrain;
pub mod text;
pub mod unit;
pub mod version;

pub use building::{Building, BuildingAnnex};
pub use civ::Civ;
pub use colour::PlayerColour;
pub use combat::{AttackOrArmor, Projectile, Type50};
pub use creatable::{Creatable, ResourceCost, ResourceStorage, TrainLocation};
pub use datfile::DatFile;
pub use effect::{Effect, EffectCommand};
pub use error::DecodeError;
pub use graphic::{Graphic, GraphicAngleSound, GraphicDelta};
pub use inflate::{decompress, Inflation, Report, Stop};
pub use le::F32;
pub use reader::Reader;
pub use sound::{Sound, SoundItem};
pub use task::{Bird, Task};
pub use tech::{ResearchLocation, Tech, TechTree};
pub use terrain::{RandomMaps, Terrain, TerrainBlock, TerrainRestriction, TileSize};
pub use unit::{DamageGraphic, DeadFish, Unit, UnitHeaders, UnitParts};
