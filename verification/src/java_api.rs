use vstd::prelude::*;

use crate::renderer::MeshBuffer;
use crate::texture::{MipMap, Texture};

verus! {

/// A mesh as the client sees it: host addresses and sizes of its buffers.
#[derive(Clone, Copy, Debug, PartialEq, Eq, Structural)]
pub struct JavaMesh {
    pub vertices: u64,
    pub normals: u64,
    pub tex_coords: u64,
    pub indices: u64,
    pub vertices_len: u32,
    pub normals_len: u32,
    pub tex_coords_len: u32,
    pub indices_len: u32,
    pub count: u32,
}

/// A mip level as the client sees it.
#[derive(Clone, Copy, Debug, PartialEq, Eq, Structural)]
pub struct JavaMipMap {
    pub index: u32,
    pub width: u32,
    pub height: u32,
    pub size: u32,
    pub offset: u32,
}

/// A texture as the client sees it: its size, levels and staging memory
/// (address 0 and length 0 once uploaded).
#[derive(Clone, Copy, Debug, PartialEq, Eq, Structural)]
pub struct JavaTexture {
    pub width: u32,
    pub height: u32,
    pub mip_map_count: u32,
    pub staging: u64,
    pub staging_len: u32,
}

/// The client's view of a mesh; sizes are cut to 32 bits.
pub fn mesh_to_java(mesh: &MeshBuffer) -> (r: JavaMesh)
    ensures
        r == (JavaMesh {
            vertices: mesh.vertices.addr,
            normals: mesh.normals.addr,
            tex_coords: mesh.tex_coords.addr,
            indices: mesh.indices.addr,
            count: mesh.count,
            vertices_len: mesh.vertices.size as u32,
            normals_len: mesh.normals.size as u32,
            tex_coords_len: mesh.tex_coords.size as u32,
            indices_len: mesh.indices.size as u32,
        }),
{
    JavaMesh {
        vertices: mesh.vertices.addr,
        normals: mesh.normals.addr,
        tex_coords: mesh.tex_coords.addr,
        indices: mesh.indices.addr,
        count: mesh.count,
        vertices_len: mesh.vertices.size as u32,
        normals_len: mesh.normals.size as u32,
        tex_coords_len: mesh.tex_coords.size as u32,
        indices_len: mesh.indices.size as u32,
    }
}

/// The client's view of a mip level.
pub fn mip_map_to_java(mm: &MipMap) -> (r: JavaMipMap)
    ensures
        r == (JavaMipMap {
            index: mm.index,
            width: mm.width,
            height: mm.height,
            size: mm.size,
            offset: mm.offset,
        }),
{
    JavaMipMap {
        index: mm.index,
        width: mm.width,
        height: mm.height,
        size: mm.size,
        offset: mm.offset,
    }
}

/// The mip level the client describes.
pub fn mip_map_of_java(mm: &JavaMipMap) -> (r: MipMap)
    ensures
        r == (MipMap {
            index: mm.index,
            width: mm.width,
            height: mm.height,
            size: mm.size,
            offset: mm.offset,
        }),
{
    MipMap {
        index: mm.index,
        width: mm.width,
        height: mm.height,
        size: mm.size,
        offset: mm.offset,
    }
}

/// The client's view of a texture, which has at least one level; the staging
/// size is cut to 32 bits.
pub fn texture_to_java(texture: &Texture) -> (r: JavaTexture)
    requires
        texture.mip_maps.len() > 0,
    ensures
        r.width == texture.mip_maps[0].width,
        r.height == texture.mip_maps[0].height,
        r.mip_map_count == texture.mip_maps.len() as u32,
        r.staging == (match texture.staging {
            Some(s) => s.addr,
            None => 0,
        }),
        r.staging_len == (match texture.staging {
            Some(s) => s.size as u32,
            None => 0,
        }),
{
    let staging_buffer = match &texture.staging {
        Some(buff) => (buff.addr, buff.size as u32),
        None => (0, 0),
    };
    let extent = texture.extent();
    JavaTexture {
        width: extent.width,
        height: extent.height,
        mip_map_count: texture.mip_map_count(),
        staging: staging_buffer.0,
        staging_len: staging_buffer.1,
    }
}

/// The client's views of the mip levels of a texture, in order.
pub fn mip_maps_to_java(texture: &Texture) -> (r: Vec<JavaMipMap>)
    ensures
        r.len() == texture.mip_maps.len(),
        forall|i: int|
            0 <= i < r.len() ==> #[trigger] r[i] == (JavaMipMap {
                index: texture.mip_maps[i].index,
                width: texture.mip_maps[i].width,
                height: texture.mip_maps[i].height,
                size: texture.mip_maps[i].size,
                offset: texture.mip_maps[i].offset,
            }),
{
    let mut r: Vec<JavaMipMap> = Vec::new();
    let mut i: usize = 0;
    while i < texture.mip_maps.len()
        invariant
            i <= texture.mip_maps.len(),
            r.len() == i,
            forall|j: int|
                0 <= j < i ==> #[trigger] r[j] == (JavaMipMap {
                    index: texture.mip_maps[j].index,
                    width: texture.mip_maps[j].width,
                    height: texture.mip_maps[j].height,
                    size: texture.mip_maps[j].size,
                    offset: texture.mip_maps[j].offset,
                }),
        decreases texture.mip_maps.len() - i,
    {
        r.push(mip_map_to_java(&texture.mip_maps[i]));
        i = i + 1;
    }
    r
}

/// Number of whole client mip levels in `len` bytes, or `None` when `len`
/// is not a whole number of them.
pub fn mip_map_count_of(len: u32, item_size: u32) -> (r: Option<u32>)
    requires
        item_size > 0,
    ensures
        r == (if len % item_size == 0 {
            Some((len / item_size) as u32)
        } else {
            None::<u32>
        }),
{
    let count = len / item_size;
    proof {
        assert(count * item_size <= len) by (nonlinear_arith)
            requires
                count == len / item_size,
                item_size > 0,
        {
        }
        assert((count * item_size == len) == (len % item_size == 0)) by (nonlinear_arith)
            requires
                count == len / item_size,
                item_size > 0,
        {
        }
    }
    if item_size * count == len {
        Some(count)
    } else {
        None
    }
}

} // verus!
