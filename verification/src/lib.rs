pub mod achievements;
pub mod character;
pub mod class;
pub mod gold;
pub mod level;
pub mod loot;
pub mod rng;
pub mod shop;
pub mod stats;
pub mod storage;
pub mod wide;
pub mod xp;
