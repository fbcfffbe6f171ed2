use std::path::Path;
use vstd::prelude::*;

verus! {

/// Where assets are read from.
#[derive(Clone, Debug, PartialEq, Eq)]
pub enum AssetSource {
    FileSystem { path: String },
}

/// How a buffer is going to be used.
#[derive(Clone, Copy, Debug, PartialEq, Eq, Structural)]
pub struct BufferUsage {
    pub vertex: bool,
    pub index: bool,
    pub storage: bool,
    pub device_address: bool,
    pub acceleration_structure_build_input: bool,
}

/// No usage at all.
pub open spec fn no_usage() -> BufferUsage {
    BufferUsage {
        vertex: false,
        index: false,
        storage: false,
        device_address: false,
        acceleration_structure_build_input: false,
    }
}

/// How the glTF loader sets up mesh buffers.
#[derive(Clone, Copy, Debug, PartialEq, Eq, Structural)]
pub struct GltfFormat {
    pub mesh_vertices_usage: BufferUsage,
    pub mesh_indices_usage: BufferUsage,
}

impl GltfFormat {
    /// Meshes drawn by rasterization: vertex and index buffers.
    pub fn for_raster() -> (r: Self)
        ensures
            r.mesh_indices_usage == (BufferUsage { index: true, ..no_usage() }),
            r.mesh_vertices_usage == (BufferUsage { vertex: true, ..no_usage() }),
    {
        GltfFormat {
            mesh_indices_usage: BufferUsage { vertex: false, index: true, storage: false, device_address: false, acceleration_structure_build_input: false },
            mesh_vertices_usage: BufferUsage { vertex: true, index: false, storage: false, device_address: false, acceleration_structure_build_input: false },
        }
    }

    /// Meshes read by ray tracing: storage buffers with device addresses.
    pub fn for_raytracing() -> (r: Self)
        ensures
            r.mesh_indices_usage == (BufferUsage { storage: true, device_address: true, ..no_usage() }),
            r.mesh_vertices_usage == (BufferUsage { storage: true, device_address: true, ..no_usage() }),
    {
        let usage = BufferUsage { vertex: false, index: false, storage: true, device_address: true, acceleration_structure_build_input: false };
        GltfFormat { mesh_indices_usage: usage, mesh_vertices_usage: usage }
    }
}

/// Format of terrain assets: whether the mesh is rasterized, built into an
/// acceleration structure, or both.
#[derive(Clone, Copy, Debug, PartialEq, Eq, Structural)]
pub struct TerrainFormat {
    pub raster: bool,
    pub blas: bool,
}

impl TerrainFormat {
    /// Usage of the terrain mesh buffer: vertex and index data for
    /// rasterization; build input, storage and device address for ray tracing.
    pub fn buffer_usage(&self) -> (r: BufferUsage)
        ensures
            r.vertex == self.raster,
            r.index == self.raster,
            r.acceleration_structure_build_input == self.blas,
            r.storage == self.blas,
            r.device_address == self.blas,
    {
        let mut usage = BufferUsage { vertex: false, index: false, storage: false, device_address: false, acceleration_structure_build_input: false };
        if self.raster {
            usage.vertex = true;
            usage.index = true;
        }
        if self.blas {
            usage.acceleration_structure_build_input = true;
            usage.storage = true;
            usage.device_address = true;
        }
        usage
    }
}

/// Terrain entity marker.
#[derive(Clone, Copy, Debug, PartialEq, Eq, Structural)]
pub struct Terrain;

/// Quasi-format that tries to guess the image format.
#[derive(Clone, Copy, Debug, Default, PartialEq, Eq, Structural)]
pub struct GuessImageFormat;

/// The text of the URL that `url::Url::parse` makes of `input`, or `None`
/// where it does not parse.
pub uninterp spec fn parsed_url(input: Seq<char>) -> Option<Seq<char>>;

/// Calls `url::Url::parse` and gives back the parsed URL's text (`Url::as_str`).
#[verifier::external_body]
fn parse_url(input: &str) -> (r: Option<String>)
    ensures
        match r {
            Some(u) => parsed_url(input@) == Some(u@),
            None => parsed_url(input@) is None,
        },
{
    match url::Url::parse(input) {
        Ok(url) => Some(url.as_str().to_owned()),
        Err(_) => None,
    }
}

/// Calls `std::path::Path::parent`. What it returns depends on the platform's
/// path rules, so nothing is stated of it.
#[verifier::external_body]
fn path_parent(path: &str) -> (r: Option<String>) {
    match Path::new(path).parent() {
        Some(p) => Some(p.to_string_lossy().into_owned()),
        None => None,
    }
}

/// Calls `std::path::Path::join`. What it returns depends on the platform's
/// path rules, so nothing is stated of it.
#[verifier::external_body]
fn path_join(base: &str, path: &str) -> (r: String) {
    Path::new(base).join(path).to_string_lossy().into_owned()
}

/// Appends a string to an asset key. A URL is used as it parses; otherwise
/// the string is joined to the key's parent path, or used as is where the key
/// has no parent.
pub fn append_key(key: &str, string: &str) -> (r: String)
    ensures
        parsed_url(string@) matches Some(u) ==> r@ == u,
{
    match parse_url(string) {
        Some(url) => url,
        None => match path_parent(key) {
            Some(parent) => path_join(&parent, string),
            None => string.to_owned(),
        },
    }
}

} // verus!
