use vstd::prelude::*;

use super::attachment::{default_write_barrier, Attachment};
use super::barrier_gen::depth_or_stencil;
use super::file::WriteDesc;
use crate::format::{has_depth_spec, has_stencil_spec};
use crate::image::{
    ImageBarrier, ImageLayout, LoadOp, Offset2D, Rect2D, RenderingAttachmentInfo, StoreOp,
};

verus! {

/// A copy of `v`.
fn copy_vec<T: Copy>(v: &Vec<T>) -> (r: Vec<T>)
    ensures
        r@ == v@,
{
    let mut r: Vec<T> = Vec::new();
    let mut i: usize = 0;
    while i < v.len()
        invariant
            i <= v.len(),
            r@ == v@.take(i as int),
        decreases v.len() - i,
    {
        r.push(v[i]);
        proof {
            assert(v@.take(i as int + 1) == v@.take(i as int).push(v@[i as int]));
        }
        i = i + 1;
    }
    proof {
        assert(v@.take(i as int) == v@);
    }
    r
}

/// How a render pass renders: its color attachments, its depth-stencil
/// attachment if any, and which color attachment is the swapchain image.
pub struct Rendering {
    pub attachments: Vec<RenderingAttachmentInfo>,
    pub depth_stencil: Option<RenderingAttachmentInfo>,
    pub default_attachment_index: Option<usize>,
}

/// How a pass that writes `writing` renders into `att`: cleared when the pass
/// clears attachments of its kind (color, or depth-stencil) and loaded
/// otherwise; stored unless it is a depth-stencil attachment that the pass
/// does not write.
pub open spec fn attachment_info_spec(
    att: Attachment,
    writing: WriteDesc,
    clears_color: bool,
    clears_depth_stencil: bool,
) -> RenderingAttachmentInfo {
    let ds = depth_or_stencil(att.format);
    RenderingAttachmentInfo {
        image_view: att.view,
        image_layout: ImageLayout::AttachmentOptimal,
        load_op: if (ds && clears_depth_stencil) || (!ds && clears_color) {
            LoadOp::Clear
        } else {
            LoadOp::Load
        },
        store_op: if writing.depth || writing.stencil || !ds {
            StoreOp::Store
        } else {
            StoreOp::Nothing
        },
    }
}

/// What a pass does with an attachment it renders into: a color attachment
/// is always stored; a depth-stencil attachment is stored when the pass
/// writes depth or stencil, whatever its format, and discarded otherwise.
/// It is cleared first exactly when the pass clears attachments of its kind,
/// and it is rendered through its view in the attachment layout.
pub proof fn lemma_attachment_info_ops(
    att: Attachment,
    writing: WriteDesc,
    clears_color: bool,
    clears_depth_stencil: bool,
)
    ensures
        ({
            let r = attachment_info_spec(att, writing, clears_color, clears_depth_stencil);
            let ds = has_depth_spec(att.format) || has_stencil_spec(att.format);
            &&& (writing.depth || writing.stencil) ==> r.store_op == StoreOp::Store
            &&& !ds ==> r.store_op == StoreOp::Store
            &&& (ds && !writing.depth && !writing.stencil) ==> r.store_op == StoreOp::Nothing
            &&& (r.load_op == LoadOp::Clear) == (if ds {
                clears_depth_stencil
            } else {
                clears_color
            })
            &&& r.load_op == LoadOp::Clear || r.load_op == LoadOp::Load
            &&& r.image_view == att.view
            &&& r.image_layout == ImageLayout::AttachmentOptimal
        }),
{
}

/// How a pass renders into one attachment.
pub fn rendering_attachment_info(
    att: &Attachment,
    writing: WriteDesc,
    clears_color: bool,
    clears_depth_stencil: bool,
) -> (r: RenderingAttachmentInfo)
    ensures
        r == attachment_info_spec(*att, writing, clears_color, clears_depth_stencil),
{
    let ds = att.format.has_depth_or_stencil();
    RenderingAttachmentInfo {
        image_view: att.view,
        image_layout: ImageLayout::AttachmentOptimal,
        load_op: if ds {
            if clears_depth_stencil {
                LoadOp::Clear
            } else {
                LoadOp::Load
            }
        } else {
            if clears_color {
                LoadOp::Clear
            } else {
                LoadOp::Load
            }
        },
        // Color attachments are stored unconditionally, depth-stencil ones
        // only when the pass writes depth or stencil.
        store_op: if writing.depth_or_stencil() || !ds {
            StoreOp::Store
        } else {
            StoreOp::Nothing
        },
    }
}

/// The position of the swapchain image among the outputs of a pass.
pub fn default_attachment_index(outputs: &Vec<String>) -> (r: Option<usize>)
    ensures
        r matches Some(i) ==> i < outputs.len() && outputs[i as int]@ == Attachment::DEFAULT_NAME@
            && forall|j: int| 0 <= j < i ==> (#[trigger] outputs[j])@ != Attachment::DEFAULT_NAME@,
        r is None ==> forall|j: int|
            0 <= j < outputs.len() ==> (#[trigger] outputs[j])@ != Attachment::DEFAULT_NAME@,
{
    let default_name = Attachment::DEFAULT_NAME.to_owned();
    let mut i: usize = 0;
    while i < outputs.len()
        invariant
            i <= outputs.len(),
            default_name@ == Attachment::DEFAULT_NAME@,
            forall|j: int| 0 <= j < i ==> (#[trigger] outputs[j])@ != Attachment::DEFAULT_NAME@,
        decreases outputs.len() - i,
    {
        if outputs[i] == default_name {
            return Some(i);
        }
        i = i + 1;
    }
    None
}

/// The attachments a render pass writes, as barriers see them: its outputs,
/// and its depth-stencil attachment when the pass writes depth or stencil, so
/// that passes reading it before get their barriers.
pub fn outputs_for_barriers(
    outputs: Vec<Attachment>,
    depth_stencil: Option<Attachment>,
    writing: WriteDesc,
) -> (r: Vec<Attachment>)
    ensures
        r@ == (match depth_stencil {
            Some(att) => if writing.depth || writing.stencil {
                outputs@.push(att)
            } else {
                outputs@
            },
            None => outputs@,
        }),
{
    let mut r = outputs;
    if writing.depth || writing.stencil {
        match depth_stencil {
            Some(att) => r.push(att),
            None => {},
        }
    }
    r
}

/// The barriers a render stage issues before rendering a frame: its own, and
/// the transition of the swapchain image when it renders into it.
pub fn frame_barriers(image_barriers: &Vec<ImageBarrier>, is_final: bool, default_image: u64) -> (r:
    Vec<ImageBarrier>)
    ensures
        r@ == (if is_final {
            image_barriers@.push(default_write_barrier(default_image))
        } else {
            image_barriers@
        }),
{
    let mut barriers = copy_vec(image_barriers);
    if is_final {
        barriers.push(Attachment::default_attachment_write_barrier(default_image));
    }
    barriers
}

impl Rendering {
    /// The color attachments of a frame: the swapchain image in its place
    /// renders through the view of this frame's swapchain image.
    pub fn frame_attachments(&self, default_view: u64) -> (r: Vec<RenderingAttachmentInfo>)
        requires
            self.default_attachment_index matches Some(i) ==> i < self.attachments.len(),
        ensures
            r@ == (match self.default_attachment_index {
                Some(i) => self.attachments@.update(
                    i as int,
                    RenderingAttachmentInfo { image_view: default_view, ..self.attachments@[i as int] },
                ),
                None => self.attachments@,
            }),
    {
        let mut r = copy_vec(&self.attachments);
        match self.default_attachment_index {
            Some(dai) => {
                let info = r[dai];
                r.set(dai, RenderingAttachmentInfo { image_view: default_view, ..info });
            },
            None => {},
        }
        r
    }
}

/// The area a pass renders: its first output, or the swapchain image when it
/// has no output.
pub fn render_area(outputs: &Vec<Attachment>, default_attachment: &Attachment) -> (r: Rect2D)
    ensures
        r == (Rect2D {
            offset: Offset2D { x: 0, y: 0 },
            extent: if outputs.len() > 0 {
                outputs[0].extent
            } else {
                default_attachment.extent
            },
        }),
{
    if outputs.len() > 0 {
        outputs[0].render_area_no_offset()
    } else {
        default_attachment.render_area_no_offset()
    }
}

/// The descriptor buffers a render stage binds, by set index, and their
/// offsets: samplers and images, and the pass's attachments when it samples
/// any.
pub fn descriptor_bindings(has_attachment_descriptors: bool) -> (r: (Vec<u32>, Vec<u64>))
    ensures
        r.0@ == (if has_attachment_descriptors {
            seq![0u32, 1u32, 2u32]
        } else {
            seq![0u32, 1u32]
        }),
        r.1@ == (if has_attachment_descriptors {
            seq![0u64, 0u64, 0u64]
        } else {
            seq![0u64, 0u64]
        }),
{
    let mut indices: Vec<u32> = Vec::new();
    indices.push(0);
    indices.push(1);
    let mut offsets: Vec<u64> = Vec::new();
    offsets.push(0);
    offsets.push(0);
    if has_attachment_descriptors {
        indices.push(2);
        offsets.push(0);
    }
    proof {
        if has_attachment_descriptors {
            assert(indices@ =~= seq![0u32, 1u32, 2u32]);
            assert(offsets@ =~= seq![0u64, 0u64, 0u64]);
        } else {
            assert(indices@ =~= seq![0u32, 1u32]);
            assert(offsets@ =~= seq![0u64, 0u64]);
        }
    }
    (indices, offsets)
}

/// The addresses pushed to the shaders for a draw: the per pass data, then
/// the vertex attributes of the mesh (none for fullscreen passes), then the
/// per instance data.
pub fn push_constants(per_pass: &Vec<u64>, mesh: Option<(u64, u64, u64)>, per_instance: &Vec<u64>) -> (r:
    Vec<u64>)
    ensures
        r@ == per_pass@ + (match mesh {
            Some(m) => seq![m.0, m.1, m.2],
            None => Seq::<u64>::empty(),
        }) + per_instance@,
{
    let mut r = copy_vec(per_pass);
    let ghost mid = match mesh {
        Some(m) => seq![m.0, m.1, m.2],
        None => Seq::<u64>::empty(),
    };
    match mesh {
        Some(m) => {
            r.push(m.0);
            r.push(m.1);
            r.push(m.2);
        },
        None => {},
    }
    proof {
        assert(r@ =~= per_pass@ + mid);
    }
    let mut i: usize = 0;
    while i < per_instance.len()
        invariant
            i <= per_instance.len(),
            r@ == per_pass@ + mid + per_instance@.take(i as int),
        decreases per_instance.len() - i,
    {
        r.push(per_instance[i]);
        proof {
            assert(per_instance@.take(i as int + 1) == per_instance@.take(i as int).push(
                per_instance@[i as int],
            ));
            assert(r@ =~= per_pass@ + mid + per_instance@.take(i as int + 1));
        }
        i = i + 1;
    }
    proof {
        assert(per_instance@.take(i as int) == per_instance@);
    }
    r
}

} // verus!
