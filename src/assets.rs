use vstd::prelude::*;
use crate::bytes::{bytes_eq, copy_bytes, find_first_stop, find_last_start, first_stop, last_start, sub_bytes};
use crate::font::Font;

verus! {

/// The directory separator `/`.
pub const SLASH: u8 = 47;

/// The extension separator `.`.
pub const DOT: u8 = 46;

/// The logical name of an asset file: its last path segment, up to the first `.`.
pub open spec fn asset_name(path: Seq<u8>) -> Seq<u8> {
    let seg = path.subrange(last_start(path, SLASH), path.len() as int);
    seg.take(first_stop(seg, DOT))
}

/// The shared base path of a shader's `.vs` / `.fs` pair: directory and name.
pub open spec fn shader_base(path: Seq<u8>) -> Seq<u8> {
    path.take(last_start(path, SLASH)) + asset_name(path)
}

pub fn name_of_path(path: &Vec<u8>) -> (r: Vec<u8>)
    ensures
        r@ == asset_name(path@),
{
    let m = find_last_start(path, SLASH);
    let seg = sub_bytes(path, m, path.len());
    let k = find_first_stop(&seg, DOT);
    sub_bytes(&seg, 0, k)
}

pub fn shader_base_of_path(path: &Vec<u8>) -> (r: Vec<u8>)
    ensures
        r@ == shader_base(path@),
{
    let m = find_last_start(path, SLASH);
    let mut dir = sub_bytes(path, 0, m);
    let mut name = name_of_path(path);
    let ghost d = dir@;
    let ghost n = name@;
    dir.append(&mut name);
    assert(dir@ == d + n);
    dir
}

/// The asset categories, one subdirectory each.
#[derive(Clone, Copy, Debug, PartialEq, Eq, Structural)]
pub enum AssetKind {
    Animation,
    Camera,
    Model,
    Projection,
    Shader,
    Texture,
    Font,
}

/// A named entry of a category's arena.
pub struct Slot<T> {
    pub name: Vec<u8>,
    pub asset: T,
}

pub open spec fn names_unique<T>(s: Seq<Slot<T>>) -> bool {
    forall|i: int, j: int| 0 <= i < s.len() && 0 <= j < s.len() && i != j ==> s[i].name@ != s[j].name@
}

pub open spec fn has_name<T>(s: Seq<Slot<T>>, name: Seq<u8>) -> bool {
    exists|i: int| 0 <= i < s.len() && s[i].name@ == name
}

/// The slot of an arena with the given name.
pub fn find_slot<T>(slots: &Vec<Slot<T>>, name: &Vec<u8>) -> (r: Option<usize>)
    ensures
        match r {
            Some(i) => i < slots@.len() && slots@[i as int].name@ == name@,
            None => !has_name(slots@, name@),
        },
{
    let mut i: usize = 0;
    while i < slots.len()
        invariant
            i <= slots@.len(),
            forall|j: int| 0 <= j < i ==> slots@[j].name@ != name@,
        decreases slots@.len() - i,
    {
        if bytes_eq(&slots[i].name, name) {
            return Some(i);
        }
        i += 1;
    }
    None
}

/// A file whose contents only the graphics side reads (animation, camera, projection).
pub struct AssetFile {
    pub path: Vec<u8>,
}

/// GPU state of an uploaded mesh.
#[derive(Clone, Copy, Debug, PartialEq, Eq, Structural)]
pub struct MeshGpu {
    pub vao: u32,
    pub index_count: usize,
}

/// A mesh file. `loaded` is set once, when its upload is requested; `gpu` holds
/// what the upload produced.
pub struct Model {
    pub model_path: Vec<u8>,
    pub loaded: bool,
    pub gpu: Option<MeshGpu>,
}

impl Model {
    pub fn new(model_path: Vec<u8>) -> (r: Model)
        ensures
            r.model_path == model_path,
            !r.loaded,
            r.gpu is None,
    {
        Model { model_path, loaded: false, gpu: None }
    }
}

/// A shader program from the pair `<base>.vs` / `<base>.fs`.
pub struct Shader {
    pub shader_path: Vec<u8>,
    pub loaded: bool,
    pub shader_program: Option<u32>,
}

impl Shader {
    pub fn new(shader_base_path: Vec<u8>) -> (r: Shader)
        ensures
            r.shader_path == shader_base_path,
            !r.loaded,
            r.shader_program is None,
    {
        Shader { shader_path: shader_base_path, loaded: false, shader_program: None }
    }

    /// The linked program's handle.
    pub fn get_id(&self) -> (r: u32)
        requires
            self.shader_program is Some,
        ensures
            r == self.shader_program->Some_0,
    {
        match self.shader_program {
            Some(i) => i,
            None => 0,
        }
    }
}

/// An image file used as a texture.
pub struct Texture {
    pub texture_path: Vec<u8>,
    pub loaded: bool,
    pub texture_id: Option<u32>,
}

impl Texture {
    pub fn new(texture_path: Vec<u8>) -> (r: Texture)
        ensures
            r.texture_path == texture_path,
            !r.loaded,
            r.texture_id is None,
    {
        Texture { texture_path, loaded: false, texture_id: None }
    }
}

/// Every asset found under the asset directory, one arena per category, keyed by name.
pub struct AssetRegistry {
    pub animations: Vec<Slot<AssetFile>>,
    pub cameras: Vec<Slot<AssetFile>>,
    pub models: Vec<Slot<Model>>,
    pub projections: Vec<Slot<AssetFile>>,
    pub shaders: Vec<Slot<Shader>>,
    pub textures: Vec<Slot<Texture>>,
    pub fonts: Vec<Slot<Font>>,
}

/// Adds `asset` under `name`, or, where the name is taken, replaces that entry's
/// asset (`keep_existing` false) or leaves the arena as it is (`keep_existing` true).
fn put_slot<T>(slots: &mut Vec<Slot<T>>, name: Vec<u8>, asset: T, keep_existing: bool)
    requires
        names_unique(old(slots)@),
    ensures
        names_unique(final(slots)@),
        forall|m: Seq<u8>| #[trigger] has_name(final(slots)@, m) <==> (has_name(old(slots)@, m) || m == name@),
        has_name(old(slots)@, name@) && keep_existing ==> final(slots)@ == old(slots)@,
        has_name(old(slots)@, name@) ==> final(slots)@.len() == old(slots)@.len() && forall|i: int|
            0 <= i < old(slots)@.len() ==> final(slots)@[i].name == old(slots)@[i].name && (
            if old(slots)@[i].name@ == name@ && !keep_existing {
                final(slots)@[i].asset == asset
            } else {
                final(slots)@[i] == old(slots)@[i]
            }),
        !has_name(old(slots)@, name@) ==> final(slots)@.len() == old(slots)@.len() + 1
            && final(slots)@.drop_last() == old(slots)@ && final(slots)@.last().name@ == name@
            && final(slots)@.last().asset == asset,
{
    let ghost n = name@;
    match find_slot(slots, &name) {
        Some(i) => {
            if !keep_existing {
                slots[i].asset = asset;
            }
            assert forall|m: Seq<u8>| #[trigger] has_name(final(slots)@, m) <==> (has_name(old(slots)@, m) || m == n) by {
                if has_name(old(slots)@, m) {
                    let j = choose|j: int| 0 <= j < old(slots)@.len() && old(slots)@[j].name@ == m;
                    assert(final(slots)@[j].name@ == m);
                }
                if m == n {
                    assert(final(slots)@[i as int].name@ == m);
                }
                if has_name(final(slots)@, m) {
                    let j = choose|j: int| 0 <= j < final(slots)@.len() && final(slots)@[j].name@ == m;
                    assert(old(slots)@[j].name@ == m);
                }
            }
            if keep_existing {
                assert(final(slots)@ =~= old(slots)@);
            }
        },
        None => {
            slots.push(Slot { name, asset });
            assert(final(slots)@.drop_last() =~= old(slots)@);
            assert forall|m: Seq<u8>| #[trigger] has_name(final(slots)@, m) <==> (has_name(old(slots)@, m) || m == n) by {
                if has_name(old(slots)@, m) {
                    let j = choose|j: int| 0 <= j < old(slots)@.len() && old(slots)@[j].name@ == m;
                    assert(final(slots)@[j].name@ == m);
                }
                if m == n {
                    assert(final(slots)@[old(slots)@.len() as int].name@ == m);
                }
                if has_name(final(slots)@, m) && m != n {
                    let j = choose|j: int| 0 <= j < final(slots)@.len() && final(slots)@[j].name@ == m;
                    assert(j < old(slots)@.len());
                    assert(old(slots)@[j].name@ == m);
                }
            }
        },
    }
}

impl AssetRegistry {
    pub open spec fn wf(&self) -> bool {
        &&& names_unique(self.animations@)
        &&& names_unique(self.cameras@)
        &&& names_unique(self.models@)
        &&& names_unique(self.projections@)
        &&& names_unique(self.shaders@)
        &&& names_unique(self.textures@)
        &&& names_unique(self.fonts@)
        &&& forall|i: int| 0 <= i < self.fonts@.len() ==> (#[trigger] self.fonts@[i]).asset.wf()
    }

    /// No upload has been requested for any asset yet.
    pub open spec fn none_loaded(&self) -> bool {
        &&& forall|i: int| 0 <= i < self.models@.len() ==> !(#[trigger] self.models@[i]).asset.loaded
        &&& forall|i: int| 0 <= i < self.shaders@.len() ==> !(#[trigger] self.shaders@[i]).asset.loaded
        &&& forall|i: int| 0 <= i < self.textures@.len() ==> !(#[trigger] self.textures@[i]).asset.loaded
        &&& forall|i: int| 0 <= i < self.fonts@.len() ==> !(#[trigger] self.fonts@[i]).asset.loaded
    }

    /// Whether the category's arena has an entry with this name.
    pub open spec fn has(&self, kind: AssetKind, name: Seq<u8>) -> bool {
        match kind {
            AssetKind::Animation => has_name(self.animations@, name),
            AssetKind::Camera => has_name(self.cameras@, name),
            AssetKind::Model => has_name(self.models@, name),
            AssetKind::Projection => has_name(self.projections@, name),
            AssetKind::Shader => has_name(self.shaders@, name),
            AssetKind::Texture => has_name(self.textures@, name),
            AssetKind::Font => has_name(self.fonts@, name),
        }
    }

    /// The name of entry `i` of the category's arena.
    pub open spec fn name_at(&self, kind: AssetKind, i: int) -> Seq<u8> {
        match kind {
            AssetKind::Animation => self.animations@[i].name@,
            AssetKind::Camera => self.cameras@[i].name@,
            AssetKind::Model => self.models@[i].name@,
            AssetKind::Projection => self.projections@[i].name@,
            AssetKind::Shader => self.shaders@[i].name@,
            AssetKind::Texture => self.textures@[i].name@,
            AssetKind::Font => self.fonts@[i].name@,
        }
    }

    pub open spec fn count(&self, kind: AssetKind) -> nat {
        match kind {
            AssetKind::Animation => self.animations@.len(),
            AssetKind::Camera => self.cameras@.len(),
            AssetKind::Model => self.models@.len(),
            AssetKind::Projection => self.projections@.len(),
            AssetKind::Shader => self.shaders@.len(),
            AssetKind::Texture => self.textures@.len(),
            AssetKind::Font => self.fonts@.len(),
        }
    }

    pub fn new() -> (r: AssetRegistry)
        ensures
            r.wf(),
            r.none_loaded(),
            forall|k: AssetKind| r.count(k) == 0,
    {
        AssetRegistry {
            animations: Vec::new(),
            cameras: Vec::new(),
            models: Vec::new(),
            projections: Vec::new(),
            shaders: Vec::new(),
            textures: Vec::new(),
            fonts: Vec::new(),
        }
    }

    /// Registers one discovered file under its category and name. A second file with
    /// the name of a shader already known is skipped (the `.vs` / `.fs` pair is one
    /// program); in the other categories the later file replaces the earlier one.
    /// Every new asset starts unloaded.
    pub fn register_file(&mut self, kind: AssetKind, path: &Vec<u8>)
        requires
            old(self).wf(),
        ensures
            final(self).wf(),
            old(self).none_loaded() ==> final(self).none_loaded(),
            final(self).has(kind, asset_name(path@)),
            forall|k: AssetKind, n: Seq<u8>| #[trigger] final(self).has(k, n) <==> (old(self).has(k, n) || (k
                == kind && n == asset_name(path@))),
            kind != AssetKind::Animation ==> final(self).animations == old(self).animations,
            kind != AssetKind::Camera ==> final(self).cameras == old(self).cameras,
            kind != AssetKind::Model ==> final(self).models == old(self).models,
            kind != AssetKind::Projection ==> final(self).projections == old(self).projections,
            kind != AssetKind::Shader ==> final(self).shaders == old(self).shaders,
            kind != AssetKind::Texture ==> final(self).textures == old(self).textures,
            kind != AssetKind::Font ==> final(self).fonts == old(self).fonts,
            kind == AssetKind::Shader && old(self).has(kind, asset_name(path@)) ==> final(self).shaders@
                == old(self).shaders@,
            kind == AssetKind::Shader && !old(self).has(kind, asset_name(path@))
                ==> final(self).shaders@.last().asset.shader_path@ == shader_base(path@),
    {
        let name = name_of_path(path);
        let ghost n = name@;
        match kind {
            AssetKind::Animation => {
                put_slot(&mut self.animations, name, AssetFile { path: copy_bytes(path) }, false);
            },
            AssetKind::Camera => {
                put_slot(&mut self.cameras, name, AssetFile { path: copy_bytes(path) }, false);
            },
            AssetKind::Model => {
                put_slot(&mut self.models, name, Model::new(copy_bytes(path)), false);
            },
            AssetKind::Projection => {
                put_slot(&mut self.projections, name, AssetFile { path: copy_bytes(path) }, false);
            },
            AssetKind::Shader => {
                let base = shader_base_of_path(path);
                put_slot(&mut self.shaders, name, Shader::new(base), true);
            },
            AssetKind::Texture => {
                put_slot(&mut self.textures, name, Texture::new(copy_bytes(path)), false);
            },
            AssetKind::Font => {
                let f = Font::new(copy_bytes(path));
                put_slot(&mut self.fonts, name, f, false);
                assert forall|i: int| 0 <= i < self.fonts@.len() implies (#[trigger] self.fonts@[i]).asset.wf() by {
                    if i < old(self).fonts@.len() {
                        assert(old(self).fonts@[i].asset.wf());
                    }
                }
            },
        }
        proof {
            if old(self).none_loaded() {
                assert forall|i: int| 0 <= i < self.models@.len() implies !(#[trigger] self.models@[i]).asset.loaded by {
                    if i < old(self).models@.len() {
                        assert(!old(self).models@[i].asset.loaded);
                    }
                }
                assert forall|i: int| 0 <= i < self.shaders@.len() implies !(#[trigger] self.shaders@[i]).asset.loaded by {
                    if i < old(self).shaders@.len() {
                        assert(!old(self).shaders@[i].asset.loaded);
                    }
                }
                assert forall|i: int| 0 <= i < self.textures@.len() implies !(#[trigger] self.textures@[i]).asset.loaded by {
                    if i < old(self).textures@.len() {
                        assert(!old(self).textures@[i].asset.loaded);
                    }
                }
                assert forall|i: int| 0 <= i < self.fonts@.len() implies !(#[trigger] self.fonts@[i]).asset.loaded by {
                    if i < old(self).fonts@.len() {
                        assert(!old(self).fonts@[i].asset.loaded);
                    }
                }
            }
        }
    }

    /// Index of the named entry of a category, or `AssetNotFound` with both.
    pub fn resolve(&self, kind: AssetKind, name: &Vec<u8>) -> (r: Result<usize, crate::error::EngineError>)
        ensures
            self.has(kind, name@) ==> (r matches Ok(i) && i < self.count(kind) && self.name_at(kind, i as int) == name@),
            !self.has(kind, name@) ==> (r matches Err(crate::error::EngineError::AssetNotFound { category, name: nm })
                && category == kind && nm@ == name@),
    {
        let found = match kind {
            AssetKind::Animation => find_slot(&self.animations, name),
            AssetKind::Camera => find_slot(&self.cameras, name),
            AssetKind::Model => find_slot(&self.models, name),
            AssetKind::Projection => find_slot(&self.projections, name),
            AssetKind::Shader => find_slot(&self.shaders, name),
            AssetKind::Texture => find_slot(&self.textures, name),
            AssetKind::Font => find_slot(&self.fonts, name),
        };
        match found {
            Some(i) => Ok(i),
            None => Err(crate::error::EngineError::AssetNotFound { category: kind, name: copy_bytes(name) }),
        }
    }
}

} // verus!
