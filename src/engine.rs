use vstd::prelude::*;
use crate::bytes::copy_bytes;
use crate::command::{GpuCommand, RenderObject, Rgb, Vec3};
use crate::error::EngineError;
use crate::assets::AssetKind;
use crate::graphic::{
    first_uploads, has_instance_at, is_first_at, last_named, same_but_loaded, text_asset_name, text_uploads, Graphic, QueueEntry,
    Upload,
};

verus! {

/// What identifies a placed instance: its unit and its position.
pub struct InstanceHandle {
    pub unit: Vec<u8>,
    pub position: Vec3,
}

/// A placed instance and the uploads its placement requested.
pub struct Registration {
    pub handle: InstanceHandle,
    pub uploads: Vec<Upload>,
}

/// The interface gameplay code uses: place and remove instances, queue text, and
/// produce each frame. The framebuffer size is the one projections were built for.
pub struct Engine {
    pub graphic: Graphic,
    pub screen_width: u32,
    pub screen_height: u32,
}

impl Engine {
    pub open spec fn wf(&self) -> bool {
        self.graphic.wf()
    }

    pub fn new(graphic: Graphic, screen_width: u32, screen_height: u32) -> (r: Engine)
        requires
            graphic.wf(),
        ensures
            r.wf(),
            r.graphic == graphic,
            r.screen_width == screen_width,
            r.screen_height == screen_height,
    {
        Engine { graphic, screen_width, screen_height }
    }

    /// Places an instance of the named unit with this transform (see `Graphic::add_object`).
    pub fn register_render_object(
        &mut self,
        render_name: &Vec<u8>,
        position: Vec3,
        rotation: Vec3,
        rotation_angle: i32,
        scale: Vec3,
    ) -> (r: Result<Registration, EngineError>)
        requires
            old(self).wf(),
        ensures
            final(self).wf(),
            final(self).screen_width == old(self).screen_width,
            final(self).screen_height == old(self).screen_height,
            match last_named(old(self).graphic.render_units@, render_name@, old(self).graphic.render_units@.len()) {
                None => (r matches Err(EngineError::UnknownRenderUnit { name }) && name@ == render_name@)
                    && *final(self) == *old(self),
                Some(i) => (r matches Ok(reg) && reg.handle.unit@ == render_name@ && reg.handle.position == position
                    && reg.uploads@ == (if old(self).graphic.render_units@[i].render_objects@.len() == 0 {
                        first_uploads(&old(self).graphic.registry, &old(self).graphic.render_units@[i])
                    } else {
                        seq![]
                    }) && final(self).graphic.uploads@ == old(self).graphic.uploads@ + reg.uploads@)
                    && final(self).graphic.render_units@.len() == old(self).graphic.render_units@.len()
                    && final(self).graphic.render_units@[i].render_objects@
                        == old(self).graphic.render_units@[i].render_objects@.push(
                        RenderObject { position, rotation, rotation_angle, scale },
                    )
                    && (forall|j: int| 0 <= j < old(self).graphic.render_units@.len() && j != i
                        ==> final(self).graphic.render_units@[j] == old(self).graphic.render_units@[j])
                    && final(self).graphic.render_texts == old(self).graphic.render_texts
                    && final(self).graphic.render_queue@ == (if old(self).graphic.render_queue@.contains(
                        QueueEntry::Unit(i as usize),
                    ) {
                        old(self).graphic.render_queue@
                    } else {
                        old(self).graphic.render_queue@.push(QueueEntry::Unit(i as usize))
                    })
                    && same_but_loaded(&final(self).graphic.registry, &old(self).graphic.registry),
            },
    {
        let obj = RenderObject::new(position, rotation, rotation_angle, scale);
        let uploads = self.graphic.add_object(render_name, obj)?;
        Ok(Registration { handle: InstanceHandle { unit: copy_bytes(render_name), position }, uploads })
    }

    /// Removes the instance a handle names: the first of its unit at its position.
    pub fn unregister_render_object(&mut self, handle: &InstanceHandle) -> (r: Result<(), EngineError>)
        requires
            old(self).wf(),
        ensures
            final(self).wf(),
            final(self).screen_width == old(self).screen_width,
            final(self).screen_height == old(self).screen_height,
            match last_named(old(self).graphic.render_units@, handle.unit@, old(self).graphic.render_units@.len()) {
                None => (r matches Err(EngineError::UnknownRenderUnit { name }) && name@ == handle.unit@)
                    && *final(self) == *old(self),
                Some(i) => if !has_instance_at(old(self).graphic.render_units@[i].render_objects@, handle.position) {
                    (r matches Err(EngineError::InstanceNotFound { unit }) && unit@ == handle.unit@)
                        && *final(self) == *old(self)
                } else {
                    r is Ok && (exists|k: int|
                        is_first_at(old(self).graphic.render_units@[i].render_objects@, handle.position, k)
                            && final(self).graphic.render_units@[i].render_objects@
                            == old(self).graphic.render_units@[i].render_objects@.remove(k))
                        && final(self).graphic.render_units@.len() == old(self).graphic.render_units@.len()
                        && (forall|j: int| 0 <= j < old(self).graphic.render_units@.len() && j != i
                            ==> final(self).graphic.render_units@[j] == old(self).graphic.render_units@[j])
                        && final(self).graphic.uploads == old(self).graphic.uploads
                        && final(self).graphic.registry == old(self).graphic.registry
                        && final(self).graphic.render_texts == old(self).graphic.render_texts
                        && final(self).graphic.render_queue == old(self).graphic.render_queue
                },
            },
    {
        self.graphic.remove_object(&handle.unit, handle.position)
    }

    /// Queues a text run (see `Graphic::add_text`).
    pub fn register_render_text(
        &mut self,
        font: &Vec<u8>,
        text: Vec<char>,
        color: Rgb,
        position: (i32, i32),
        scale: u32,
    ) -> (r: Result<Vec<Upload>, EngineError>)
        requires
            old(self).wf(),
        ensures
            final(self).wf(),
            r is Err ==> *final(self) == *old(self),
            r is Ok <==> (old(self).graphic.registry.has(AssetKind::Shader, text_asset_name())
                && old(self).graphic.registry.has(AssetKind::Font, font@)
                && old(self).graphic.registry.has(AssetKind::Projection, text_asset_name())),
            !old(self).graphic.registry.has(AssetKind::Shader, text_asset_name()) ==> (r matches Err(
                EngineError::AssetNotFound { category, name },
            ) && category == AssetKind::Shader && name@ == text_asset_name()),
            old(self).graphic.registry.has(AssetKind::Shader, text_asset_name())
                && !old(self).graphic.registry.has(AssetKind::Font, font@) ==> (r matches Err(
                EngineError::AssetNotFound { category, name },
            ) && category == AssetKind::Font && name@ == font@),
            old(self).graphic.registry.has(AssetKind::Shader, text_asset_name())
                && old(self).graphic.registry.has(AssetKind::Font, font@)
                && !old(self).graphic.registry.has(AssetKind::Projection, text_asset_name()) ==> (r matches Err(
                EngineError::AssetNotFound { category, name },
            ) && category == AssetKind::Projection && name@ == text_asset_name()),
            r matches Ok(ups) ==> ({
                let g = final(self).graphic;
                let t = g.render_texts@.last();
                &&& g.render_texts@.len() == old(self).graphic.render_texts@.len() + 1
                &&& g.render_texts@.drop_last() == old(self).graphic.render_texts@
                &&& old(self).graphic.registry.name_at(AssetKind::Shader, t.shader as int) == text_asset_name()
                &&& old(self).graphic.registry.name_at(AssetKind::Font, t.font as int) == font@
                &&& old(self).graphic.registry.name_at(AssetKind::Projection, t.projection as int) == text_asset_name()
                &&& t.text@ == text@
                &&& t.color == color
                &&& t.position == position
                &&& t.scale == scale
                &&& ups@ == text_uploads(&old(self).graphic.registry, t.shader, t.font)
                &&& g.uploads@ == old(self).graphic.uploads@ + ups@
                &&& g.render_queue@ == old(self).graphic.render_queue@.push(
                    QueueEntry::Text(old(self).graphic.render_texts@.len() as usize),
                )
                &&& g.render_units == old(self).graphic.render_units
            }),
    {
        self.graphic.add_text(font, text, color, position, scale)
    }

    /// The commands of one frame.
    pub fn render_tick(&self) -> (r: Vec<GpuCommand>)
        requires
            self.wf(),
        ensures
            r@ == self.graphic.frame_commands(),
    {
        self.graphic.render()
    }
}

} // verus!
