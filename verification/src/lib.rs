pub mod assets;
pub mod bitset;
pub mod broker;
pub mod bytes;
pub mod camera;
pub mod descriptor;
pub mod engine;
pub mod fps_counter;
pub mod gltf;
pub mod gltf_layout;
pub mod images;
pub mod mesh;
pub mod physics;
pub mod pipeline;
pub mod sbt;
pub mod scene;
pub mod skeleton;
pub mod sparse;
pub mod terrain;
pub mod textures;
pub mod vertex;
