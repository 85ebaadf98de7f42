use vstd::prelude::*;
use crate::assets::{AssetKind, AssetRegistry, MeshGpu};
use crate::bytes::{bytes_eq, copy_bytes};
use crate::command::{GpuCommand, RenderObject, Rgb, Vec3};
use crate::error::EngineError;
use crate::font::{render_text, text_commands, Glyph, GLYPH_COUNT};
use crate::mesh::MeshData;
use crate::unit::{unit_commands, RenderUnit};

verus! {

/// One slot of the draw queue: a render unit or a text run, by index.
#[derive(Clone, Copy, Debug, PartialEq, Eq, Structural)]
pub enum QueueEntry {
    Unit(usize),
    Text(usize),
}

/// A GPU upload the caller must perform, by registry index.
#[derive(Clone, Copy, Debug, PartialEq, Eq, Structural)]
pub enum Upload {
    Mesh(usize),
    Shader(usize),
    Texture(usize),
    Font(usize),
}

/// One text draw: font, program and projection by registry index, and what to write where.
pub struct RenderText {
    pub font: usize,
    pub shader: usize,
    pub projection: usize,
    pub text: Vec<char>,
    pub color: Rgb,
    pub position: (i32, i32),
    pub scale: u32,
}

impl RenderText {
    pub open spec fn valid_in(&self, reg: &AssetRegistry) -> bool {
        &&& self.font < reg.fonts@.len()
        &&& self.shader < reg.shaders@.len()
        &&& self.projection < reg.projections@.len()
    }
}

/// Name of the shader and the projection that text is drawn with: `2d_text`.
pub open spec fn text_asset_name() -> Seq<u8> {
    seq![50u8, 100u8, 95u8, 116u8, 101u8, 120u8, 116u8]
}

fn text_asset_name_exec() -> (r: Vec<u8>)
    ensures
        r@ == text_asset_name(),
{
    let r: Vec<u8> = vec![50u8, 100u8, 95u8, 116u8, 101u8, 120u8, 116u8];
    assert(r@ == text_asset_name());
    r
}

/// Whether the upload of this asset has been requested.
pub open spec fn is_loaded(reg: &AssetRegistry, u: Upload) -> bool {
    match u {
        Upload::Mesh(i) => i < reg.models@.len() && reg.models@[i as int].asset.loaded,
        Upload::Shader(i) => i < reg.shaders@.len() && reg.shaders@[i as int].asset.loaded,
        Upload::Texture(i) => i < reg.textures@.len() && reg.textures@[i as int].asset.loaded,
        Upload::Font(i) => i < reg.fonts@.len() && reg.fonts@[i as int].asset.loaded,
    }
}

/// The uploads that a unit's first instance triggers: mesh, program, texture, each
/// only if not requested before.
pub open spec fn first_uploads(reg: &AssetRegistry, u: &RenderUnit) -> Seq<Upload> {
    (if is_loaded(reg, Upload::Mesh(u.model)) {
        seq![]
    } else {
        seq![Upload::Mesh(u.model)]
    }) + (if is_loaded(reg, Upload::Shader(u.shader)) {
        seq![]
    } else {
        seq![Upload::Shader(u.shader)]
    }) + (if is_loaded(reg, Upload::Texture(u.texture)) {
        seq![]
    } else {
        seq![Upload::Texture(u.texture)]
    })
}

/// The uploads that a text run triggers: program and font face, each only if not requested before.
pub open spec fn text_uploads(reg: &AssetRegistry, shader: usize, font: usize) -> Seq<Upload> {
    (if is_loaded(reg, Upload::Shader(shader)) {
        seq![]
    } else {
        seq![Upload::Shader(shader)]
    }) + (if is_loaded(reg, Upload::Font(font)) {
        seq![]
    } else {
        seq![Upload::Font(font)]
    })
}

/// One frame of a text run: program and projection, then the glyph quads. A run whose
/// program or face has not been uploaded is skipped.
pub open spec fn text_entry_commands(reg: &AssetRegistry, t: &RenderText) -> Seq<GpuCommand> {
    let font = reg.fonts@[t.font as int].asset;
    match (reg.shaders@[t.shader as int].asset.shader_program, font.gpu) {
        (Some(p), Some(fg)) => seq![
            GpuCommand::UseProgram { program: p },
            GpuCommand::BindProjection { projection: t.projection },
        ] + text_commands(
            font.glyphs@,
            fg.vao,
            fg.vbo,
            t.color,
            t.text@,
            t.position.0 as int,
            t.position.1 as int,
            t.scale,
        ),
        _ => seq![],
    }
}

/// The index of the last unit of the first `n` with this name.
pub open spec fn last_named(units: Seq<RenderUnit>, name: Seq<u8>, n: nat) -> Option<int>
    decreases n,
{
    if n == 0 || n > units.len() {
        None
    } else if units[n - 1].name@ == name {
        Some(n - 1)
    } else {
        last_named(units, name, (n - 1) as nat)
    }
}

proof fn lemma_last_named(units: Seq<RenderUnit>, name: Seq<u8>, n: nat)
    ensures
        last_named(units, name, n) matches Some(i) ==> 0 <= i < n && i < units.len() && units[i].name@ == name,
    decreases n,
{
    if n > 0 && n <= units.len() && units[n - 1].name@ != name {
        lemma_last_named(units, name, (n - 1) as nat);
    }
}

/// `k` is the first instance placed at `pos`.
pub open spec fn is_first_at(objs: Seq<RenderObject>, pos: Vec3, k: int) -> bool {
    0 <= k < objs.len() && objs[k].position == pos && forall|j: int| 0 <= j < k ==> objs[j].position != pos
}

pub open spec fn has_instance_at(objs: Seq<RenderObject>, pos: Vec3) -> bool {
    exists|k: int| 0 <= k < objs.len() && objs[k].position == pos
}

/// Two units agree in everything but their instances.
pub open spec fn same_bundle(a: &RenderUnit, b: &RenderUnit) -> bool {
    &&& a.name == b.name
    &&& a.animation == b.animation
    &&& a.camera == b.camera
    &&& a.model == b.model
    &&& a.projection == b.projection
    &&& a.shader == b.shader
    &&& a.texture == b.texture
}

/// Two registries agree in everything but which uploads were requested.
pub open spec fn same_but_loaded(a: &AssetRegistry, b: &AssetRegistry) -> bool {
    &&& a.animations == b.animations
    &&& a.cameras == b.cameras
    &&& a.projections == b.projections
    &&& a.models@.len() == b.models@.len()
    &&& a.shaders@.len() == b.shaders@.len()
    &&& a.textures@.len() == b.textures@.len()
    &&& a.fonts@.len() == b.fonts@.len()
    &&& forall|i: int|
        0 <= i < a.models@.len() ==> (#[trigger] a.models@[i]).name == b.models@[i].name
            && a.models@[i].asset.model_path == b.models@[i].asset.model_path && a.models@[i].asset.gpu
            == b.models@[i].asset.gpu
    &&& forall|i: int|
        0 <= i < a.shaders@.len() ==> (#[trigger] a.shaders@[i]).name == b.shaders@[i].name
            && a.shaders@[i].asset.shader_path == b.shaders@[i].asset.shader_path
            && a.shaders@[i].asset.shader_program == b.shaders@[i].asset.shader_program
    &&& forall|i: int|
        0 <= i < a.textures@.len() ==> (#[trigger] a.textures@[i]).name == b.textures@[i].name
            && a.textures@[i].asset.texture_path == b.textures@[i].asset.texture_path
            && a.textures@[i].asset.texture_id == b.textures@[i].asset.texture_id
    &&& forall|i: int|
        0 <= i < a.fonts@.len() ==> (#[trigger] a.fonts@[i]).name == b.fonts@[i].name
            && a.fonts@[i].asset.font_path == b.fonts@[i].asset.font_path && a.fonts@[i].asset.glyphs
            == b.fonts@[i].asset.glyphs && a.fonts@[i].asset.gpu == b.fonts@[i].asset.gpu
}

/// Two registries have the same entries and the same requested uploads.
pub open spec fn same_but_loaded_counts(a: &AssetRegistry, b: &AssetRegistry) -> bool {
    &&& a.animations@.len() == b.animations@.len()
    &&& a.cameras@.len() == b.cameras@.len()
    &&& a.projections@.len() == b.projections@.len()
    &&& a.models@.len() == b.models@.len()
    &&& a.shaders@.len() == b.shaders@.len()
    &&& a.textures@.len() == b.textures@.len()
    &&& a.fonts@.len() == b.fonts@.len()
    &&& forall|i: int| 0 <= i < a.models@.len() ==> (#[trigger] a.models@[i]).asset.loaded == b.models@[i].asset.loaded
    &&& forall|i: int| 0 <= i < a.shaders@.len() ==> (#[trigger] a.shaders@[i]).asset.loaded == b.shaders@[i].asset.loaded
    &&& forall|i: int| 0 <= i < a.textures@.len() ==> (#[trigger] a.textures@[i]).asset.loaded == b.textures@[i].asset.loaded
    &&& forall|i: int| 0 <= i < a.fonts@.len() ==> (#[trigger] a.fonts@[i]).asset.loaded == b.fonts@[i].asset.loaded
}

/// The resource side of the engine: every asset, every render unit and text run, and
/// the draw queue. Each unit stands in the queue at most once, from its first instance on.
/// `uploads` records every upload requested so far, in order.
pub struct Graphic {
    pub registry: AssetRegistry,
    pub render_units: Vec<RenderUnit>,
    pub render_texts: Vec<RenderText>,
    pub render_queue: Vec<QueueEntry>,
    pub uploads: Ghost<Seq<Upload>>,
}

impl Graphic {
    pub open spec fn entry_valid(&self, e: QueueEntry) -> bool {
        match e {
            QueueEntry::Unit(i) => i < self.render_units@.len(),
            QueueEntry::Text(i) => i < self.render_texts@.len(),
        }
    }

    pub open spec fn wf(&self) -> bool {
        &&& self.registry.wf()
        &&& forall|i: int|
            0 <= i < self.render_units@.len() ==> (#[trigger] self.render_units@[i]).valid_in(&self.registry)
        &&& forall|i: int|
            0 <= i < self.render_texts@.len() ==> (#[trigger] self.render_texts@[i]).valid_in(&self.registry)
                && is_loaded(&self.registry, Upload::Shader(self.render_texts@[i].shader)) && is_loaded(
                &self.registry,
                Upload::Font(self.render_texts@[i].font),
            )
        &&& forall|k: int| 0 <= k < self.render_queue@.len() ==> self.entry_valid(#[trigger] self.render_queue@[k])
        &&& self.render_queue@.no_duplicates()
        &&& forall|i: int|
            0 <= i < self.render_units@.len() && (#[trigger] self.render_units@[i]).render_objects@.len() > 0
                ==> self.render_queue@.contains(QueueEntry::Unit(i as usize)) && is_loaded(
                &self.registry,
                Upload::Mesh(self.render_units@[i].model),
            ) && is_loaded(&self.registry, Upload::Shader(self.render_units@[i].shader)) && is_loaded(
                &self.registry,
                Upload::Texture(self.render_units@[i].texture),
            )
        &&& self.uploads@.no_duplicates()
        &&& forall|u: Upload| #[trigger] is_loaded(&self.registry, u) <==> self.uploads@.contains(u)
    }

    pub open spec fn entry_commands(&self, e: QueueEntry) -> Seq<GpuCommand> {
        match e {
            QueueEntry::Unit(i) => unit_commands(&self.registry, &self.render_units@[i as int]),
            QueueEntry::Text(i) => text_entry_commands(&self.registry, &self.render_texts@[i as int]),
        }
    }

    /// The commands of the first `n` queue entries, in queue order.
    pub open spec fn queue_commands(&self, n: nat) -> Seq<GpuCommand>
        decreases n,
    {
        if n == 0 || n > self.render_queue@.len() {
            seq![]
        } else {
            self.queue_commands((n - 1) as nat) + self.entry_commands(self.render_queue@[n - 1])
        }
    }

    /// One frame: every queue entry's commands, in insertion order.
    pub open spec fn frame_commands(&self) -> Seq<GpuCommand> {
        self.queue_commands(self.render_queue@.len())
    }

    /// The engine over a fresh registry and its resolved units; the queue starts empty.
    pub fn new(registry: AssetRegistry, render_units: Vec<RenderUnit>) -> (r: Graphic)
        requires
            registry.wf(),
            registry.none_loaded(),
            forall|i: int|
                0 <= i < render_units@.len() ==> (#[trigger] render_units@[i]).valid_in(&registry)
                    && render_units@[i].render_objects@.len() == 0,
        ensures
            r.wf(),
            r.registry == registry,
            r.render_units == render_units,
            r.render_texts@.len() == 0,
            r.render_queue@.len() == 0,
            r.uploads@.len() == 0,
    {
        let r = Graphic {
            registry,
            render_units,
            render_texts: Vec::new(),
            render_queue: Vec::new(),
            uploads: Ghost(Seq::empty()),
        };
        assert forall|u: Upload| #[trigger] is_loaded(&r.registry, u) <==> r.uploads@.contains(u) by {
            match u {
                Upload::Mesh(i) => {
                    if i < r.registry.models@.len() {
                        assert(!r.registry.models@[i as int].asset.loaded);
                    }
                },
                Upload::Shader(i) => {
                    if i < r.registry.shaders@.len() {
                        assert(!r.registry.shaders@[i as int].asset.loaded);
                    }
                },
                Upload::Texture(i) => {
                    if i < r.registry.textures@.len() {
                        assert(!r.registry.textures@[i as int].asset.loaded);
                    }
                },
                Upload::Font(i) => {
                    if i < r.registry.fonts@.len() {
                        assert(!r.registry.fonts@[i as int].asset.loaded);
                    }
                },
            }
        }
        r
    }

    /// Places an instance of the named unit (the last unit of that name). Its first
    /// instance requests the upload of its mesh, program and texture, each unless
    /// requested before, and puts the unit in the draw queue once; later instances
    /// request nothing and leave the queue as it is. Returns the uploads requested.
    pub fn add_object(&mut self, unit_name: &Vec<u8>, obj: RenderObject) -> (r: Result<Vec<Upload>, EngineError>)
        requires
            old(self).wf(),
        ensures
            final(self).wf(),
            match last_named(old(self).render_units@, unit_name@, old(self).render_units@.len()) {
                None => (r matches Err(EngineError::UnknownRenderUnit { name }) && name@ == unit_name@)
                    && *final(self) == *old(self),
                Some(i) => (r matches Ok(ups) && ups@ == (if old(self).render_units@[i].render_objects@.len() == 0 {
                    first_uploads(&old(self).registry, &old(self).render_units@[i])
                } else {
                    seq![]
                }) && final(self).uploads@ == old(self).uploads@ + ups@)
                    && final(self).render_units@.len() == old(self).render_units@.len()
                    && final(self).render_units@[i].render_objects@ == old(self).render_units@[i].render_objects@.push(obj)
                    && same_bundle(&final(self).render_units@[i], &old(self).render_units@[i])
                    && (forall|j: int| 0 <= j < old(self).render_units@.len() && j != i
                        ==> final(self).render_units@[j] == old(self).render_units@[j])
                    && final(self).render_texts == old(self).render_texts
                    && final(self).render_queue@ == (if old(self).render_queue@.contains(QueueEntry::Unit(i as usize)) {
                        old(self).render_queue@
                    } else {
                        old(self).render_queue@.push(QueueEntry::Unit(i as usize))
                    })
                    && same_but_loaded(&final(self).registry, &old(self).registry),
            },
    {
        let ui = match self.find_unit(unit_name) {
            Some(i) => i,
            None => {
                return Err(EngineError::UnknownRenderUnit { name: copy_bytes(unit_name) });
            },
        };
        let ghost old_reg = self.registry;
        let ghost unit = self.render_units@[ui as int];
        let mut ups: Vec<Upload> = Vec::new();
        let m = self.render_units[ui].model;
        let sh = self.render_units[ui].shader;
        let t = self.render_units[ui].texture;
        let first = self.render_units[ui].render_objects.len() == 0;
        assert(unit.valid_in(&old_reg));
        if first {
            if !self.registry.models[m].asset.loaded {
                self.registry.models[m].asset.loaded = true;
                ups.push(Upload::Mesh(m));
            }
            if !self.registry.shaders[sh].asset.loaded {
                self.registry.shaders[sh].asset.loaded = true;
                ups.push(Upload::Shader(sh));
            }
            if !self.registry.textures[t].asset.loaded {
                self.registry.textures[t].asset.loaded = true;
                ups.push(Upload::Texture(t));
            }
            assert(ups@ =~= first_uploads(&old_reg, &unit));
        }
        proof {
            assert forall|i: int| 0 <= i < self.registry.models@.len() implies (#[trigger] self.registry.models@[i]).asset.loaded
                == (old_reg.models@[i].asset.loaded || (first && i == m)) by {}
            assert forall|i: int| 0 <= i < self.registry.shaders@.len() implies (#[trigger] self.registry.shaders@[i]).asset.loaded
                == (old_reg.shaders@[i].asset.loaded || (first && i == sh)) by {}
            assert forall|i: int| 0 <= i < self.registry.textures@.len() implies (#[trigger] self.registry.textures@[i]).asset.loaded
                == (old_reg.textures@[i].asset.loaded || (first && i == t)) by {}
            assert(self.registry.fonts == old_reg.fonts);
            assert(first ==> ups@ == first_uploads(&old_reg, &unit));
            assert(!first ==> ups@.len() == 0);
        }
        self.render_units[ui].render_objects.push(obj);
        let queued = self.queue_has(QueueEntry::Unit(ui));
        if !queued {
            self.render_queue.push(QueueEntry::Unit(ui));
        }
        let ghost old_uploads = self.uploads@;
        self.uploads = Ghost(self.uploads@ + ups@);
        proof {
            assert(same_but_loaded(&self.registry, &old_reg));
            assert forall|u: Upload| #[trigger] is_loaded(&self.registry, u) <==> (is_loaded(&old_reg, u) || ups@.contains(u)) by {
                match u {
                    Upload::Mesh(i) => {
                        if ups@.contains(u) {
                            let k = choose|k: int| 0 <= k < ups@.len() && ups@[k] == u;
                        }
                        if first && i == m && !is_loaded(&old_reg, u) {
                            assert(ups@[0] == u);
                        }
                    },
                    Upload::Shader(i) => {
                        if ups@.contains(u) {
                            let k = choose|k: int| 0 <= k < ups@.len() && ups@[k] == u;
                        }
                        if first && i == sh && !is_loaded(&old_reg, u) {
                            let k: int = if is_loaded(&old_reg, Upload::Mesh(m)) { 0 } else { 1 };
                            assert(ups@[k] == u);
                        }
                    },
                    Upload::Texture(i) => {
                        if ups@.contains(u) {
                            let k = choose|k: int| 0 <= k < ups@.len() && ups@[k] == u;
                        }
                        if first && i == t && !is_loaded(&old_reg, u) {
                            assert(ups@[ups@.len() - 1] == u);
                        }
                    },
                    Upload::Font(i) => {
                        if ups@.contains(u) {
                            let k = choose|k: int| 0 <= k < ups@.len() && ups@[k] == u;
                        }
                    },
                }
            }
            assert forall|u: Upload| #[trigger] is_loaded(&self.registry, u) <==> self.uploads@.contains(u) by {
                if ups@.contains(u) {
                    let k = choose|k: int| 0 <= k < ups@.len() && ups@[k] == u;
                    assert(self.uploads@[old_uploads.len() + k] == u);
                }
                if old_uploads.contains(u) {
                    let k = choose|k: int| 0 <= k < old_uploads.len() && old_uploads[k] == u;
                    assert(self.uploads@[k] == u);
                }
                if self.uploads@.contains(u) {
                    let k = choose|k: int| 0 <= k < self.uploads@.len() && self.uploads@[k] == u;
                    if k < old_uploads.len() {
                        assert(old_uploads[k] == u);
                    } else {
                        assert(ups@[k - old_uploads.len()] == u);
                    }
                }
            }
            assert forall|a: int, b: int| 0 <= a < b < self.uploads@.len() implies self.uploads@[a] != self.uploads@[b] by {
                if b < old_uploads.len() {
                } else if a < old_uploads.len() {
                    let u = self.uploads@[b];
                    assert(ups@[b - old_uploads.len()] == u);
                    assert(old_uploads.contains(self.uploads@[a]));
                } else {
                }
            }
            assert forall|i: int| 0 <= i < self.render_units@.len() && (#[trigger] self.render_units@[i]).render_objects@.len() > 0
                implies self.render_queue@.contains(QueueEntry::Unit(i as usize)) && is_loaded(&self.registry, Upload::Mesh(self.render_units@[i].model))
                    && is_loaded(&self.registry, Upload::Shader(self.render_units@[i].shader))
                    && is_loaded(&self.registry, Upload::Texture(self.render_units@[i].texture)) by {
                if i == ui {
                    if !queued {
                        assert(self.render_queue@.last() == QueueEntry::Unit(ui));
                    }
                } else {
                    let e = QueueEntry::Unit(i as usize);
                    let k = choose|k: int| 0 <= k < old(self).render_queue@.len() && old(self).render_queue@[k] == e;
                    assert(self.render_queue@[k] == e);
                }
            }
            assert forall|k: int| 0 <= k < self.render_queue@.len() implies self.entry_valid(#[trigger] self.render_queue@[k]) by {
                if k < old(self).render_queue@.len() {
                    assert(old(self).entry_valid(old(self).render_queue@[k]));
                }
            }
            assert forall|i: int| 0 <= i < self.render_units@.len() implies (#[trigger] self.render_units@[i]).valid_in(&self.registry) by {
                assert(old(self).render_units@[i].valid_in(&old_reg));
            }
            assert forall|i: int| 0 <= i < self.render_texts@.len() implies (#[trigger] self.render_texts@[i]).valid_in(&self.registry)
                && is_loaded(&self.registry, Upload::Shader(self.render_texts@[i].shader))
                && is_loaded(&self.registry, Upload::Font(self.render_texts@[i].font)) by {
                assert(old(self).render_texts@[i].valid_in(&old_reg));
                assert(is_loaded(&old_reg, Upload::Shader(self.render_texts@[i].shader)));
                assert(is_loaded(&old_reg, Upload::Font(self.render_texts@[i].font)));
            }
            assert(self.registry.wf()) by {
                assert forall|i: int| 0 <= i < self.registry.fonts@.len() implies (#[trigger] self.registry.fonts@[i]).asset.wf() by {
                    assert(old_reg.fonts@[i].asset.wf());
                }
            }
        }
        Ok(ups)
    }

    /// Removes the first instance of the named unit placed at `position`. The unit
    /// keeps its queue slot and its uploaded resources.
    pub fn remove_object(&mut self, unit_name: &Vec<u8>, position: Vec3) -> (r: Result<(), EngineError>)
        requires
            old(self).wf(),
        ensures
            final(self).wf(),
            match last_named(old(self).render_units@, unit_name@, old(self).render_units@.len()) {
                None => (r matches Err(EngineError::UnknownRenderUnit { name }) && name@ == unit_name@)
                    && *final(self) == *old(self),
                Some(i) => if !has_instance_at(old(self).render_units@[i].render_objects@, position) {
                    (r matches Err(EngineError::InstanceNotFound { unit }) && unit@ == unit_name@)
                        && *final(self) == *old(self)
                } else {
                    r is Ok && (exists|k: int|
                        is_first_at(old(self).render_units@[i].render_objects@, position, k)
                            && final(self).render_units@[i].render_objects@
                            == old(self).render_units@[i].render_objects@.remove(k))
                        && final(self).render_units@.len() == old(self).render_units@.len()
                        && same_bundle(&final(self).render_units@[i], &old(self).render_units@[i])
                        && (forall|j: int| 0 <= j < old(self).render_units@.len() && j != i
                            ==> final(self).render_units@[j] == old(self).render_units@[j])
                        && final(self).render_texts == old(self).render_texts
                        && final(self).render_queue == old(self).render_queue
                        && final(self).registry == old(self).registry
                        && final(self).uploads == old(self).uploads
                },
            },
    {
        let ui = match self.find_unit(unit_name) {
            Some(i) => i,
            None => {
                return Err(EngineError::UnknownRenderUnit { name: copy_bytes(unit_name) });
            },
        };
        let n = self.render_units[ui].render_objects.len();
        let mut k: usize = 0;
        while k < n && self.render_units[ui].render_objects[k].position != position
            invariant
                ui < self.render_units@.len(),
                n == self.render_units@[ui as int].render_objects@.len(),
                k <= n,
                forall|j: int| 0 <= j < k ==> self.render_units@[ui as int].render_objects@[j].position != position,
            decreases n - k,
        {
            k += 1;
        }
        if k == n {
            return Err(EngineError::InstanceNotFound { unit: copy_bytes(unit_name) });
        }
        let ghost before = self.render_units@[ui as int].render_objects@;
        assert(is_first_at(before, position, k as int));
        self.render_units[ui].render_objects.remove(k);
        proof {
            let objs = self.render_units@[ui as int].render_objects@;
            assert(objs == before.remove(k as int));
            assert forall|i: int| 0 <= i < self.render_units@.len() && (#[trigger] self.render_units@[i]).render_objects@.len() > 0
                implies self.render_queue@.contains(QueueEntry::Unit(i as usize)) && is_loaded(&self.registry, Upload::Mesh(self.render_units@[i].model))
                    && is_loaded(&self.registry, Upload::Shader(self.render_units@[i].shader))
                    && is_loaded(&self.registry, Upload::Texture(self.render_units@[i].texture)) by {
                assert(old(self).render_units@[i].render_objects@.len() > 0);
            }
            assert forall|i: int| 0 <= i < self.render_units@.len() implies (#[trigger] self.render_units@[i]).valid_in(&self.registry) by {
                assert(old(self).render_units@[i].valid_in(&self.registry));
            }
            assert forall|k2: int| 0 <= k2 < self.render_queue@.len() implies self.entry_valid(#[trigger] self.render_queue@[k2]) by {
                assert(old(self).entry_valid(old(self).render_queue@[k2]));
            }
        }
        Ok(())
    }

    /// The commands of one frame: every queue entry in insertion order.
    pub fn render(&self) -> (r: Vec<GpuCommand>)
        requires
            self.wf(),
        ensures
            r@ == self.frame_commands(),
    {
        let mut out: Vec<GpuCommand> = Vec::new();
        let mut k: usize = 0;
        while k < self.render_queue.len()
            invariant
                self.wf(),
                k <= self.render_queue@.len(),
                out@ == self.queue_commands(k as nat),
            decreases self.render_queue@.len() - k,
        {
            let e = self.render_queue[k];
            assert(self.entry_valid(e));
            let mut part = match e {
                QueueEntry::Unit(i) => {
                    assert(self.render_units@[i as int].valid_in(&self.registry));
                    self.render_units[i].render(&self.registry)
                },
                QueueEntry::Text(i) => self.render_text_entry(i),
            };
            out.append(&mut part);
            k += 1;
        }
        out
    }

    fn render_text_entry(&self, i: usize) -> (r: Vec<GpuCommand>)
        requires
            self.wf(),
            i < self.render_texts@.len(),
        ensures
            r@ == text_entry_commands(&self.registry, &self.render_texts@[i as int]),
    {
        let t = &self.render_texts[i];
        assert(t.valid_in(&self.registry));
        let program = self.registry.shaders[t.shader].asset.shader_program;
        let font = &self.registry.fonts[t.font].asset;
        match (program, font.gpu) {
            (Some(p), Some(fg)) => {
                let mut out: Vec<GpuCommand> = Vec::new();
                out.push(GpuCommand::UseProgram { program: p });
                out.push(GpuCommand::BindProjection { projection: t.projection });
                let mut quads = render_text(&font.glyphs, fg.vao, fg.vbo, t.color, &t.text, t.position, t.scale);
                out.append(&mut quads);
                out
            },
            _ => Vec::new(),
        }
    }

    /// Queues a text run drawn with the `2d_text` program and projection in the named
    /// face. Requests the upload of the program and the face, each unless requested
    /// before. Each call queues a new run. Returns the uploads requested.
    pub fn add_text(
        &mut self,
        font_name: &Vec<u8>,
        text: Vec<char>,
        color: Rgb,
        position: (i32, i32),
        scale: u32,
    ) -> (r: Result<Vec<Upload>, EngineError>)
        requires
            old(self).wf(),
        ensures
            final(self).wf(),
            !old(self).registry.has(AssetKind::Shader, text_asset_name()) ==> (r matches Err(
                EngineError::AssetNotFound { category, name },
            ) && category == AssetKind::Shader && name@ == text_asset_name()) && *final(self) == *old(self),
            old(self).registry.has(AssetKind::Shader, text_asset_name()) && !old(self).registry.has(
                AssetKind::Font,
                font_name@,
            ) ==> (r matches Err(EngineError::AssetNotFound { category, name }) && category == AssetKind::Font
                && name@ == font_name@) && *final(self) == *old(self),
            old(self).registry.has(AssetKind::Shader, text_asset_name()) && old(self).registry.has(
                AssetKind::Font,
                font_name@,
            ) && !old(self).registry.has(AssetKind::Projection, text_asset_name()) ==> (r matches Err(
                EngineError::AssetNotFound { category, name },
            ) && category == AssetKind::Projection && name@ == text_asset_name()) && *final(self) == *old(self),
            old(self).registry.has(AssetKind::Shader, text_asset_name()) && old(self).registry.has(
                AssetKind::Font,
                font_name@,
            ) && old(self).registry.has(AssetKind::Projection, text_asset_name()) ==> (r matches Ok(ups) && ({
                let t = final(self).render_texts@.last();
                &&& final(self).render_texts@.len() == old(self).render_texts@.len() + 1
                &&& final(self).render_texts@.drop_last() == old(self).render_texts@
                &&& old(self).registry.name_at(AssetKind::Shader, t.shader as int) == text_asset_name()
                &&& old(self).registry.name_at(AssetKind::Font, t.font as int) == font_name@
                &&& old(self).registry.name_at(AssetKind::Projection, t.projection as int) == text_asset_name()
                &&& t.text@ == text@
                &&& t.color == color
                &&& t.position == position
                &&& t.scale == scale
                &&& ups@ == text_uploads(&old(self).registry, t.shader, t.font)
                &&& final(self).uploads@ == old(self).uploads@ + ups@
                &&& final(self).render_queue@ == old(self).render_queue@.push(
                    QueueEntry::Text(old(self).render_texts@.len() as usize),
                )
                &&& final(self).render_units == old(self).render_units
                &&& same_but_loaded(&final(self).registry, &old(self).registry)
            })),
    {
        let tn = text_asset_name_exec();
        let sh = self.registry.resolve(AssetKind::Shader, &tn)?;
        let f = self.registry.resolve(AssetKind::Font, font_name)?;
        let pr = self.registry.resolve(AssetKind::Projection, &tn)?;
        let ghost old_reg = self.registry;
        let mut ups: Vec<Upload> = Vec::new();
        if !self.registry.shaders[sh].asset.loaded {
            self.registry.shaders[sh].asset.loaded = true;
            ups.push(Upload::Shader(sh));
        }
        if !self.registry.fonts[f].asset.loaded {
            self.registry.fonts[f].asset.loaded = true;
            ups.push(Upload::Font(f));
        }
        assert(ups@ =~= text_uploads(&old_reg, sh, f));
        let idx = self.render_texts.len();
        self.render_texts.push(RenderText { font: f, shader: sh, projection: pr, text, color, position, scale });
        self.render_queue.push(QueueEntry::Text(idx));
        let ghost old_uploads = self.uploads@;
        self.uploads = Ghost(self.uploads@ + ups@);
        proof {
            assert forall|i: int| 0 <= i < self.registry.shaders@.len() implies (#[trigger] self.registry.shaders@[i]).asset.loaded
                == (old_reg.shaders@[i].asset.loaded || i == sh) by {}
            assert forall|i: int| 0 <= i < self.registry.fonts@.len() implies (#[trigger] self.registry.fonts@[i]).asset.loaded
                == (old_reg.fonts@[i].asset.loaded || i == f) by {}
            assert(same_but_loaded(&self.registry, &old_reg));
            assert forall|u: Upload| #[trigger] is_loaded(&self.registry, u) <==> (is_loaded(&old_reg, u) || ups@.contains(u)) by {
                if ups@.contains(u) {
                    let k = choose|k: int| 0 <= k < ups@.len() && ups@[k] == u;
                }
                match u {
                    Upload::Shader(i) => {
                        if i == sh && !is_loaded(&old_reg, u) {
                            assert(ups@[0] == u);
                        }
                    },
                    Upload::Font(i) => {
                        if i == f && !is_loaded(&old_reg, u) {
                            assert(ups@[ups@.len() - 1] == u);
                        }
                    },
                    _ => {},
                }
            }
            assert forall|u: Upload| #[trigger] is_loaded(&self.registry, u) <==> self.uploads@.contains(u) by {
                if ups@.contains(u) {
                    let k = choose|k: int| 0 <= k < ups@.len() && ups@[k] == u;
                    assert(self.uploads@[old_uploads.len() + k] == u);
                }
                if old_uploads.contains(u) {
                    let k = choose|k: int| 0 <= k < old_uploads.len() && old_uploads[k] == u;
                    assert(self.uploads@[k] == u);
                }
                if self.uploads@.contains(u) {
                    let k = choose|k: int| 0 <= k < self.uploads@.len() && self.uploads@[k] == u;
                    if k < old_uploads.len() {
                        assert(old_uploads[k] == u);
                    } else {
                        assert(ups@[k - old_uploads.len()] == u);
                    }
                }
            }
            assert forall|a: int, b: int| 0 <= a < b < self.uploads@.len() implies self.uploads@[a] != self.uploads@[b] by {
                if b < old_uploads.len() {
                } else if a < old_uploads.len() {
                    let u = self.uploads@[b];
                    assert(ups@[b - old_uploads.len()] == u);
                    assert(old_uploads.contains(self.uploads@[a]));
                } else {
                }
            }
            assert forall|a: int, b: int| 0 <= a < b < self.render_queue@.len() implies self.render_queue@[a] != self.render_queue@[b] by {
                if b == self.render_queue@.len() - 1 {
                    assert(old(self).entry_valid(old(self).render_queue@[a]));
                }
            }
            assert forall|i: int| 0 <= i < self.render_units@.len() && (#[trigger] self.render_units@[i]).render_objects@.len() > 0
                implies self.render_queue@.contains(QueueEntry::Unit(i as usize)) && is_loaded(&self.registry, Upload::Mesh(self.render_units@[i].model))
                    && is_loaded(&self.registry, Upload::Shader(self.render_units@[i].shader))
                    && is_loaded(&self.registry, Upload::Texture(self.render_units@[i].texture)) by {
                let e = QueueEntry::Unit(i as usize);
                let k = choose|k: int| 0 <= k < old(self).render_queue@.len() && old(self).render_queue@[k] == e;
                assert(self.render_queue@[k] == e);
            }
            assert forall|k: int| 0 <= k < self.render_queue@.len() implies self.entry_valid(#[trigger] self.render_queue@[k]) by {
                if k < old(self).render_queue@.len() {
                    assert(old(self).entry_valid(old(self).render_queue@[k]));
                }
            }
            assert forall|i: int| 0 <= i < self.render_units@.len() implies (#[trigger] self.render_units@[i]).valid_in(&self.registry) by {
                assert(old(self).render_units@[i].valid_in(&old_reg));
            }
            assert forall|i: int| 0 <= i < self.render_texts@.len() implies (#[trigger] self.render_texts@[i]).valid_in(&self.registry)
                && is_loaded(&self.registry, Upload::Shader(self.render_texts@[i].shader))
                && is_loaded(&self.registry, Upload::Font(self.render_texts@[i].font)) by {
                if i < old(self).render_texts@.len() {
                    assert(old(self).render_texts@[i].valid_in(&old_reg));
                    assert(is_loaded(&old_reg, Upload::Shader(self.render_texts@[i].shader)));
                    assert(is_loaded(&old_reg, Upload::Font(self.render_texts@[i].font)));
                }
            }
            assert(self.registry.wf()) by {
                assert forall|i: int| 0 <= i < self.registry.fonts@.len() implies (#[trigger] self.registry.fonts@[i]).asset.wf() by {
                    assert(old_reg.fonts@[i].asset.wf());
                }
            }
            assert(self.render_texts@.drop_last() =~= old(self).render_texts@);
        }
        Ok(ups)
    }

    /// Records the result of a mesh upload: its vertex array and the parsed mesh's index count.
    pub fn mesh_uploaded(&mut self, mesh: usize, vao: u32, data: &MeshData)
        requires
            old(self).wf(),
            mesh < old(self).registry.models@.len(),
        ensures
            final(self).wf(),
            final(self).registry.models@[mesh as int].asset.gpu == Some(MeshGpu { vao, index_count: data.indices@.len() as usize }),
            final(self).registry.models@[mesh as int].asset.loaded == old(self).registry.models@[mesh as int].asset.loaded,
            final(self).registry.models@[mesh as int].asset.model_path == old(self).registry.models@[mesh as int].asset.model_path,
            final(self).registry.models@[mesh as int].name == old(self).registry.models@[mesh as int].name,
            final(self).registry.models@.len() == old(self).registry.models@.len(),
            forall|j: int| 0 <= j < old(self).registry.models@.len() && j != mesh ==> final(self).registry.models@[j] == old(self).registry.models@[j],
            final(self).registry.animations == old(self).registry.animations,
            final(self).registry.cameras == old(self).registry.cameras,
            final(self).registry.projections == old(self).registry.projections,
            final(self).registry.shaders == old(self).registry.shaders,
            final(self).registry.textures == old(self).registry.textures,
            final(self).registry.fonts == old(self).registry.fonts,
            final(self).render_units == old(self).render_units,
            final(self).render_texts == old(self).render_texts,
            final(self).render_queue == old(self).render_queue,
            final(self).uploads == old(self).uploads,
    {
        let count = data.index_count();
        self.registry.models[mesh].asset.gpu = Some(MeshGpu { vao, index_count: count });
        proof {
            self.lemma_wf_kept(old(self));
        }
    }

    /// Records the result of a program's compile and link.
    pub fn shader_uploaded(&mut self, shader: usize, program: u32)
        requires
            old(self).wf(),
            shader < old(self).registry.shaders@.len(),
        ensures
            final(self).wf(),
            final(self).registry.shaders@[shader as int].asset.shader_program == Some(program),
            final(self).registry.shaders@[shader as int].asset.loaded == old(self).registry.shaders@[shader as int].asset.loaded,
            final(self).registry.shaders@[shader as int].asset.shader_path == old(self).registry.shaders@[shader as int].asset.shader_path,
            final(self).registry.shaders@[shader as int].name == old(self).registry.shaders@[shader as int].name,
            final(self).registry.shaders@.len() == old(self).registry.shaders@.len(),
            forall|j: int| 0 <= j < old(self).registry.shaders@.len() && j != shader ==> final(self).registry.shaders@[j] == old(self).registry.shaders@[j],
            final(self).registry.animations == old(self).registry.animations,
            final(self).registry.cameras == old(self).registry.cameras,
            final(self).registry.projections == old(self).registry.projections,
            final(self).registry.models == old(self).registry.models,
            final(self).registry.textures == old(self).registry.textures,
            final(self).registry.fonts == old(self).registry.fonts,
            final(self).render_units == old(self).render_units,
            final(self).render_texts == old(self).render_texts,
            final(self).render_queue == old(self).render_queue,
            final(self).uploads == old(self).uploads,
    {
        self.registry.shaders[shader].asset.shader_program = Some(program);
        proof {
            self.lemma_wf_kept(old(self));
        }
    }

    /// Records the texture object an image was uploaded to.
    pub fn texture_uploaded(&mut self, texture: usize, texture_id: u32)
        requires
            old(self).wf(),
            texture < old(self).registry.textures@.len(),
        ensures
            final(self).wf(),
            final(self).registry.textures@[texture as int].asset.texture_id == Some(texture_id),
            final(self).registry.textures@[texture as int].asset.loaded == old(self).registry.textures@[texture as int].asset.loaded,
            final(self).registry.textures@[texture as int].asset.texture_path == old(self).registry.textures@[texture as int].asset.texture_path,
            final(self).registry.textures@[texture as int].name == old(self).registry.textures@[texture as int].name,
            final(self).registry.textures@.len() == old(self).registry.textures@.len(),
            forall|j: int| 0 <= j < old(self).registry.textures@.len() && j != texture ==> final(self).registry.textures@[j] == old(self).registry.textures@[j],
            final(self).registry.animations == old(self).registry.animations,
            final(self).registry.cameras == old(self).registry.cameras,
            final(self).registry.projections == old(self).registry.projections,
            final(self).registry.models == old(self).registry.models,
            final(self).registry.shaders == old(self).registry.shaders,
            final(self).registry.fonts == old(self).registry.fonts,
            final(self).render_units == old(self).render_units,
            final(self).render_texts == old(self).render_texts,
            final(self).render_queue == old(self).render_queue,
            final(self).uploads == old(self).uploads,
    {
        self.registry.textures[texture].asset.texture_id = Some(texture_id);
        proof {
            self.lemma_wf_kept(old(self));
        }
    }

    /// Records a face's rasterised glyphs (codepoints 0 to 127, in order) and its quad
    /// buffer. A face whose glyphs are recorded keeps them.
    pub fn font_uploaded(&mut self, font: usize, glyphs: Vec<Glyph>, vao: u32, vbo: u32)
        requires
            old(self).wf(),
            font < old(self).registry.fonts@.len(),
            glyphs@.len() == GLYPH_COUNT,
        ensures
            final(self).wf(),
            old(self).registry.fonts@[font as int].asset.gpu is None ==> final(self).registry.fonts@[font as int].asset.glyphs@
                == glyphs@ && final(self).registry.fonts@[font as int].asset.gpu == Some(crate::font::FontGpu { vao, vbo }),
            old(self).registry.fonts@[font as int].asset.gpu is Some ==> final(self).registry.fonts@[font as int]
                == old(self).registry.fonts@[font as int],
            final(self).registry.fonts@[font as int].asset.loaded == old(self).registry.fonts@[font as int].asset.loaded,
            final(self).registry.fonts@[font as int].asset.font_path == old(self).registry.fonts@[font as int].asset.font_path,
            final(self).registry.fonts@[font as int].name == old(self).registry.fonts@[font as int].name,
            final(self).registry.fonts@.len() == old(self).registry.fonts@.len(),
            forall|j: int| 0 <= j < old(self).registry.fonts@.len() && j != font ==> final(self).registry.fonts@[j] == old(self).registry.fonts@[j],
            final(self).registry.animations == old(self).registry.animations,
            final(self).registry.cameras == old(self).registry.cameras,
            final(self).registry.projections == old(self).registry.projections,
            final(self).registry.models == old(self).registry.models,
            final(self).registry.shaders == old(self).registry.shaders,
            final(self).registry.textures == old(self).registry.textures,
            final(self).render_units == old(self).render_units,
            final(self).render_texts == old(self).render_texts,
            final(self).render_queue == old(self).render_queue,
            final(self).uploads == old(self).uploads,
    {
        assert(self.registry.fonts@[font as int].asset.wf());
        self.registry.fonts[font].asset.load(glyphs, vao, vbo);
        proof {
            assert forall|i: int| 0 <= i < self.registry.fonts@.len() implies (#[trigger] self.registry.fonts@[i]).asset.wf() by {
                if i != font {
                    assert(old(self).registry.fonts@[i].asset.wf());
                }
            }
            self.lemma_wf_kept(old(self));
        }
    }

    /// The invariant survives a change of upload results alone.
    proof fn lemma_wf_kept(&self, before: &Graphic)
        requires
            before.wf(),
            self.registry.wf(),
            same_but_loaded_counts(&self.registry, &before.registry),
            self.render_units == before.render_units,
            self.render_texts == before.render_texts,
            self.render_queue == before.render_queue,
            self.uploads == before.uploads,
        ensures
            self.wf(),
    {
        assert forall|u: Upload| #[trigger] is_loaded(&self.registry, u) <==> is_loaded(&before.registry, u) by {}
        assert forall|i: int| 0 <= i < self.render_units@.len() implies (#[trigger] self.render_units@[i]).valid_in(&self.registry) by {
            assert(before.render_units@[i].valid_in(&before.registry));
        }
        assert forall|i: int| 0 <= i < self.render_texts@.len() implies (#[trigger] self.render_texts@[i]).valid_in(&self.registry)
            && is_loaded(&self.registry, Upload::Shader(self.render_texts@[i].shader))
            && is_loaded(&self.registry, Upload::Font(self.render_texts@[i].font)) by {
            assert(before.render_texts@[i].valid_in(&before.registry));
            assert(is_loaded(&before.registry, Upload::Shader(self.render_texts@[i].shader)));
            assert(is_loaded(&before.registry, Upload::Font(self.render_texts@[i].font)));
        }
        assert forall|i: int| 0 <= i < self.render_units@.len() && (#[trigger] self.render_units@[i]).render_objects@.len() > 0
            implies self.render_queue@.contains(QueueEntry::Unit(i as usize)) && is_loaded(&self.registry, Upload::Mesh(self.render_units@[i].model))
                && is_loaded(&self.registry, Upload::Shader(self.render_units@[i].shader))
                && is_loaded(&self.registry, Upload::Texture(self.render_units@[i].texture)) by {
            assert(before.render_units@[i].render_objects@.len() > 0);
        }
        assert forall|k: int| 0 <= k < self.render_queue@.len() implies self.entry_valid(#[trigger] self.render_queue@[k]) by {
            assert(before.entry_valid(before.render_queue@[k]));
        }
    }

    fn find_unit(&self, name: &Vec<u8>) -> (r: Option<usize>)
        ensures
            match last_named(self.render_units@, name@, self.render_units@.len()) {
                Some(i) => r == Some(i as usize),
                None => r is None,
            },
            r matches Some(i) ==> i < self.render_units@.len() && self.render_units@[i as int].name@ == name@
                && last_named(self.render_units@, name@, self.render_units@.len()) == Some(i as int),
    {
        proof {
            lemma_last_named(self.render_units@, name@, self.render_units@.len());
        }
        let mut n: usize = self.render_units.len();
        while n > 0
            invariant
                n <= self.render_units@.len(),
                last_named(self.render_units@, name@, self.render_units@.len()) == last_named(
                    self.render_units@,
                    name@,
                    n as nat,
                ),
            decreases n,
        {
            if bytes_eq(&self.render_units[n - 1].name, name) {
                return Some(n - 1);
            }
            n -= 1;
        }
        None
    }

    fn queue_has(&self, e: QueueEntry) -> (r: bool)
        ensures
            r == self.render_queue@.contains(e),
    {
        let mut k: usize = 0;
        while k < self.render_queue.len()
            invariant
                k <= self.render_queue@.len(),
                forall|j: int| 0 <= j < k ==> self.render_queue@[j] != e,
            decreases self.render_queue@.len() - k,
        {
            if self.render_queue[k] == e {
                return true;
            }
            k += 1;
        }
        false
    }
}

/// An upload is requested at most once in the life of the engine: no asset appears
/// twice among the uploads requested, however many instances and runs were added.
pub proof fn lemma_upload_at_most_once(g: &Graphic, a: int, b: int)
    requires
        g.wf(),
        0 <= a < b < g.uploads@.len(),
    ensures
        g.uploads@[a] != g.uploads@[b],
{
}

/// Adding an instance at a position where the unit has none, then removing the
/// instance at that position, gives back the instance list as it was.
pub proof fn lemma_add_then_remove(objs: Seq<RenderObject>, obj: RenderObject)
    requires
        !has_instance_at(objs, obj.position),
    ensures
        has_instance_at(objs.push(obj), obj.position),
        forall|k: int| is_first_at(objs.push(obj), obj.position, k) ==> objs.push(obj).remove(k) == objs,
{
    let p = objs.push(obj);
    assert(p[objs.len() as int] == obj);
    assert forall|k: int| is_first_at(p, obj.position, k) implies p.remove(k) == objs by {
        if k < objs.len() {
            assert(objs[k].position == obj.position);
        }
        assert(p.remove(k) =~= objs);
    }
}

/// The frame is built front to back: the commands of the first `m` queue entries
/// begin the commands of the first `n`, for `m <= n`.
pub proof fn lemma_queue_prefix(g: &Graphic, m: nat, n: nat)
    requires
        m <= n <= g.render_queue@.len(),
    ensures
        g.queue_commands(m).len() <= g.queue_commands(n).len(),
        g.queue_commands(n).take(g.queue_commands(m).len() as int) == g.queue_commands(m),
    decreases n - m,
{
    if m < n {
        lemma_queue_prefix(g, m, (n - 1) as nat);
        let a = g.queue_commands(m);
        let b = g.queue_commands((n - 1) as nat);
        assert(g.queue_commands(n) == b + g.entry_commands(g.render_queue@[n - 1]));
        assert(g.queue_commands(n).take(a.len() as int) =~= b.take(a.len() as int));
    } else {
        assert(g.queue_commands(n).take(g.queue_commands(m).len() as int) =~= g.queue_commands(n));
    }
}

/// Draw order is queue order: for entries `a` before `b`, the whole command block of
/// `a` stands in the frame before the block of `b` starts.
pub proof fn lemma_draw_order(g: &Graphic, a: nat, b: nat)
    requires
        a < b < g.render_queue@.len(),
    ensures
        ({
            let f = g.frame_commands();
            let oa = g.queue_commands(a).len() as int;
            let la = g.entry_commands(g.render_queue@[a as int]).len() as int;
            let ob = g.queue_commands(b).len() as int;
            let lb = g.entry_commands(g.render_queue@[b as int]).len() as int;
            &&& oa + la <= ob
            &&& ob + lb <= f.len()
            &&& f.subrange(oa, oa + la) == g.entry_commands(g.render_queue@[a as int])
            &&& f.subrange(ob, ob + lb) == g.entry_commands(g.render_queue@[b as int])
        }),
{
    let len = g.render_queue@.len();
    lemma_queue_prefix(g, (a + 1) as nat, len);
    lemma_queue_prefix(g, (a + 1) as nat, b);
    lemma_queue_prefix(g, (b + 1) as nat, len);
    let f = g.frame_commands();
    let qa = g.queue_commands(a);
    let ea = g.entry_commands(g.render_queue@[a as int]);
    let qb = g.queue_commands(b);
    let eb = g.entry_commands(g.render_queue@[b as int]);
    assert(g.queue_commands((a + 1) as nat) == qa + ea);
    assert(g.queue_commands((b + 1) as nat) == qb + eb);
    assert(f.subrange(qa.len() as int, (qa.len() + ea.len()) as int) =~= (qa + ea).subrange(qa.len() as int, (qa.len() + ea.len()) as int));
    assert(f.subrange(qb.len() as int, (qb.len() + eb.len()) as int) =~= (qb + eb).subrange(qb.len() as int, (qb.len() + eb.len()) as int));
}

} // verus!
