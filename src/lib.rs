use vstd::prelude::*;

pub mod bytes;
pub mod mesh;
pub mod command;
pub mod font;
pub mod error;
pub mod assets;
pub mod unit;
pub mod graphic;
pub mod descriptor;
pub mod engine;
pub mod resource_manager;
pub mod game;
pub mod world;

verus! {

/// The program's configuration: where its files are.
pub struct Config {
    pub resource_manager: resource_manager::ResourceManager,
}

} // verus!
