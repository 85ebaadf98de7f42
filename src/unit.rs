use vstd::prelude::*;
use crate::assets::{AssetKind, AssetRegistry, MeshGpu};
use crate::bytes::copy_bytes;
use crate::command::{GpuCommand, RenderObject};
use crate::error::EngineError;

verus! {

/// A render unit as its descriptor file states it: the unit's name and the names of its assets.
pub struct UnitDescriptor {
    pub name: Vec<u8>,
    pub animation: Vec<u8>,
    pub camera: Vec<u8>,
    pub model: Vec<u8>,
    pub projection: Vec<u8>,
    pub shader: Vec<u8>,
    pub texture: Vec<u8>,
}

/// A named bundle of shared assets (by registry index) and its placed instances, in order.
pub struct RenderUnit {
    pub name: Vec<u8>,
    pub animation: usize,
    pub camera: usize,
    pub model: usize,
    pub projection: usize,
    pub shader: usize,
    pub texture: usize,
    pub render_objects: Vec<RenderObject>,
}

/// The first reference of a descriptor that the registry cannot resolve, in the order
/// animation, camera, model, projection, shader, texture.
pub open spec fn first_missing(reg: &AssetRegistry, d: &UnitDescriptor) -> Option<(AssetKind, Seq<u8>)> {
    if !reg.has(AssetKind::Animation, d.animation@) {
        Some((AssetKind::Animation, d.animation@))
    } else if !reg.has(AssetKind::Camera, d.camera@) {
        Some((AssetKind::Camera, d.camera@))
    } else if !reg.has(AssetKind::Model, d.model@) {
        Some((AssetKind::Model, d.model@))
    } else if !reg.has(AssetKind::Projection, d.projection@) {
        Some((AssetKind::Projection, d.projection@))
    } else if !reg.has(AssetKind::Shader, d.shader@) {
        Some((AssetKind::Shader, d.shader@))
    } else if !reg.has(AssetKind::Texture, d.texture@) {
        Some((AssetKind::Texture, d.texture@))
    } else {
        None
    }
}

/// The error that reports a missing reference.
pub open spec fn is_not_found(e: EngineError, missing: (AssetKind, Seq<u8>)) -> bool {
    e matches EngineError::AssetNotFound { category, name } && category == missing.0 && name@ == missing.1
}

impl RenderUnit {
    /// Its asset indices are entries of the registry.
    pub open spec fn valid_in(&self, reg: &AssetRegistry) -> bool {
        &&& self.animation < reg.animations@.len()
        &&& self.camera < reg.cameras@.len()
        &&& self.model < reg.models@.len()
        &&& self.projection < reg.projections@.len()
        &&& self.shader < reg.shaders@.len()
        &&& self.texture < reg.textures@.len()
    }

    /// The unit resolves the descriptor: same name, each index names the asset the descriptor names.
    pub open spec fn resolves(&self, reg: &AssetRegistry, d: &UnitDescriptor) -> bool {
        &&& self.valid_in(reg)
        &&& self.name@ == d.name@
        &&& reg.animations@[self.animation as int].name@ == d.animation@
        &&& reg.cameras@[self.camera as int].name@ == d.camera@
        &&& reg.models@[self.model as int].name@ == d.model@
        &&& reg.projections@[self.projection as int].name@ == d.projection@
        &&& reg.shaders@[self.shader as int].name@ == d.shader@
        &&& reg.textures@[self.texture as int].name@ == d.texture@
    }

    /// Resolves a descriptor against the registry into a unit with no instances.
    pub fn resolve(reg: &AssetRegistry, d: &UnitDescriptor) -> (r: Result<RenderUnit, EngineError>)
        ensures
            first_missing(reg, d) is None ==> (r matches Ok(u) && u.resolves(reg, d)
                && u.render_objects@.len() == 0),
            first_missing(reg, d) matches Some(m) ==> (r matches Err(e) && is_not_found(e, m)),
    {
        let animation = reg.resolve(AssetKind::Animation, &d.animation)?;
        let camera = reg.resolve(AssetKind::Camera, &d.camera)?;
        let model = reg.resolve(AssetKind::Model, &d.model)?;
        let projection = reg.resolve(AssetKind::Projection, &d.projection)?;
        let shader = reg.resolve(AssetKind::Shader, &d.shader)?;
        let texture = reg.resolve(AssetKind::Texture, &d.texture)?;
        Ok(
            RenderUnit {
                name: copy_bytes(&d.name),
                animation,
                camera,
                model,
                projection,
                shader,
                texture,
                render_objects: Vec::new(),
            },
        )
    }
}

/// Per instance: model matrix, mesh state, indexed draw.
pub open spec fn instance_commands(g: MeshGpu, objs: Seq<RenderObject>) -> Seq<GpuCommand>
    decreases objs.len(),
{
    if objs.len() == 0 {
        seq![]
    } else {
        instance_commands(g, objs.drop_last()) + seq![
            GpuCommand::SetModelMatrix { object: objs.last() },
            GpuCommand::BindVertexArray { vao: g.vao },
            GpuCommand::DrawElements { count: g.index_count },
        ]
    }
}

/// One frame of a unit: nothing without instances; otherwise program, projection,
/// camera and texture, then each instance in order. A unit whose program, texture or
/// mesh has not been uploaded is skipped.
pub open spec fn unit_commands(reg: &AssetRegistry, u: &RenderUnit) -> Seq<GpuCommand> {
    if u.render_objects@.len() == 0 {
        seq![]
    } else {
        match (
            reg.shaders@[u.shader as int].asset.shader_program,
            reg.textures@[u.texture as int].asset.texture_id,
            reg.models@[u.model as int].asset.gpu,
        ) {
            (Some(p), Some(t), Some(g)) => seq![
                GpuCommand::UseProgram { program: p },
                GpuCommand::BindProjection { projection: u.projection },
                GpuCommand::BindCamera { camera: u.camera },
                GpuCommand::BindTexture { texture: t },
            ] + instance_commands(g, u.render_objects@),
            _ => seq![],
        }
    }
}

impl RenderUnit {
    /// The unit's draw commands for one frame.
    pub fn render(&self, reg: &AssetRegistry) -> (r: Vec<GpuCommand>)
        requires
            self.valid_in(reg),
        ensures
            r@ == unit_commands(reg, self),
            self.render_objects@.len() == 0 ==> r@.len() == 0,
    {
        let mut out: Vec<GpuCommand> = Vec::new();
        if self.render_objects.len() == 0 {
            return out;
        }
        let program = reg.shaders[self.shader].asset.shader_program;
        let texture = reg.textures[self.texture].asset.texture_id;
        let gpu = reg.models[self.model].asset.gpu;
        match (program, texture, gpu) {
            (Some(p), Some(t), Some(g)) => {
                out.push(GpuCommand::UseProgram { program: p });
                out.push(GpuCommand::BindProjection { projection: self.projection });
                out.push(GpuCommand::BindCamera { camera: self.camera });
                out.push(GpuCommand::BindTexture { texture: t });
                let ghost head = out@;
                let mut i: usize = 0;
                while i < self.render_objects.len()
                    invariant
                        i <= self.render_objects@.len(),
                        out@ == head + instance_commands(g, self.render_objects@.take(i as int)),
                    decreases self.render_objects@.len() - i,
                {
                    let o = self.render_objects[i];
                    out.push(GpuCommand::SetModelMatrix { object: o });
                    out.push(GpuCommand::BindVertexArray { vao: g.vao });
                    out.push(GpuCommand::DrawElements { count: g.index_count });
                    assert(self.render_objects@.take(i + 1).drop_last() =~= self.render_objects@.take(i as int));
                    i += 1;
                }
                assert(self.render_objects@.take(i as int) =~= self.render_objects@);
                out
            },
            _ => out,
        }
    }
}

/// Resolves every descriptor in order. The first one that fails stops the whole
/// catalog with its `AssetNotFound`.
pub fn build_catalog(reg: &AssetRegistry, descriptors: &Vec<UnitDescriptor>) -> (r: Result<Vec<RenderUnit>, EngineError>)
    ensures
        (forall|i: int| 0 <= i < descriptors@.len() ==> first_missing(reg, &descriptors@[i]) is None) ==> (r matches Ok(
            units,
        ) && units@.len() == descriptors@.len() && forall|i: int|
            0 <= i < units@.len() ==> units@[i].resolves(reg, &descriptors@[i]) && units@[i].render_objects@.len()
                == 0),
        forall|k: int|
            0 <= k < descriptors@.len() && first_missing(reg, &descriptors@[k]) is Some && (forall|i: int|
                0 <= i < k ==> first_missing(reg, &descriptors@[i]) is None) ==> (r matches Err(e) && is_not_found(
                e,
                first_missing(reg, &descriptors@[k])->Some_0,
            )),
{
    let mut units: Vec<RenderUnit> = Vec::new();
    let mut i: usize = 0;
    while i < descriptors.len()
        invariant
            i <= descriptors@.len(),
            units@.len() == i,
            forall|j: int| 0 <= j < i ==> first_missing(reg, &descriptors@[j]) is None,
            forall|j: int|
                0 <= j < i ==> units@[j].resolves(reg, &descriptors@[j]) && units@[j].render_objects@.len() == 0,
        decreases descriptors@.len() - i,
    {
        match RenderUnit::resolve(reg, &descriptors[i]) {
            Ok(u) => {
                units.push(u);
            },
            Err(e) => {
                proof {
                    assert forall|k: int|
                        0 <= k < descriptors@.len() && first_missing(reg, &descriptors@[k]) is Some && (forall|j: int|
                            0 <= j < k ==> first_missing(reg, &descriptors@[j]) is None) implies k == i by {
                        if k > i {
                            assert(first_missing(reg, &descriptors@[i as int]) is None);
                        }
                    }
                }
                return Err(e);
            },
        }
        i += 1;
    }
    Ok(units)
}

} // verus!
