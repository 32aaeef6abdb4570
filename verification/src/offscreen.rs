//! Bookkeeping of the off-screen render targets: which GPU objects a buffer
//! owns, and which of them must be deleted before it is rebuilt or dropped.
//! Object name 0 means "none".

use vstd::prelude::*;

verus! {

/// The objects a buffer gave up: each is present exactly when the buffer owned one.
#[derive(Clone, Copy, Debug, PartialEq, Eq, Structural)]
pub struct ReleasedBuffers {
    pub framebuffer: Option<u32>,
    pub color_texture: Option<u32>,
    pub depth_stencil_renderbuffer: Option<u32>,
}

/// The object named `id`, if it names one.
pub open spec fn owned(id: u32) -> Option<u32> {
    if id == 0 {
        None
    } else {
        Some(id)
    }
}

fn owned_exec(id: u32) -> (r: Option<u32>)
    ensures
        r == owned(id),
{
    if id == 0 {
        None
    } else {
        Some(id)
    }
}

/// The abstract value of a [`MsaaOffscreenBuffer`].
pub struct MsaaView {
    pub samples: i32,
    pub width: i32,
    pub height: i32,
    pub color_buffer_id: u32,
    pub depth_stencil_buffer_id: u32,
    pub framebuffer_id: u32,
}

/// A multisampled colour + depth/stencil framebuffer.
pub struct MsaaOffscreenBuffer {
    samples: i32,
    width: i32,
    height: i32,
    color_buffer_id: u32,
    depth_stencil_buffer_id: u32,
    framebuffer_id: u32,
}

impl View for MsaaOffscreenBuffer {
    type V = MsaaView;

    closed spec fn view(&self) -> MsaaView {
        MsaaView {
            samples: self.samples,
            width: self.width,
            height: self.height,
            color_buffer_id: self.color_buffer_id,
            depth_stencil_buffer_id: self.depth_stencil_buffer_id,
            framebuffer_id: self.framebuffer_id,
        }
    }
}

/// What releasing the objects of `v` hands back.
pub open spec fn msaa_released(v: MsaaView) -> ReleasedBuffers {
    ReleasedBuffers {
        framebuffer: owned(v.framebuffer_id),
        color_texture: owned(v.color_buffer_id),
        depth_stencil_renderbuffer: owned(v.depth_stencil_buffer_id),
    }
}

/// `v` after releasing its objects: same samples and size, no objects.
pub open spec fn msaa_emptied(v: MsaaView) -> MsaaView {
    MsaaView { color_buffer_id: 0, depth_stencil_buffer_id: 0, framebuffer_id: 0, ..v }
}

impl MsaaOffscreenBuffer {
    /// A buffer of `samples` samples per pixel that owns no objects yet.
    pub fn new(samples: i32) -> (buffer: Self)
        ensures
            buffer@ == (MsaaView {
                samples,
                width: 0,
                height: 0,
                color_buffer_id: 0,
                depth_stencil_buffer_id: 0,
                framebuffer_id: 0,
            }),
    {
        MsaaOffscreenBuffer {
            samples,
            width: 0,
            height: 0,
            color_buffer_id: 0,
            depth_stencil_buffer_id: 0,
            framebuffer_id: 0,
        }
    }

    /// Gives up the objects the buffer owns, for the caller to delete.
    pub fn release_buffers(&mut self) -> (released: ReleasedBuffers)
        ensures
            released == msaa_released(old(self)@),
            final(self)@ == msaa_emptied(old(self)@),
    {
        let released = ReleasedBuffers {
            framebuffer: owned_exec(self.framebuffer_id),
            color_texture: owned_exec(self.color_buffer_id),
            depth_stencil_renderbuffer: owned_exec(self.depth_stencil_buffer_id),
        };
        self.framebuffer_id = 0;
        self.color_buffer_id = 0;
        self.depth_stencil_buffer_id = 0;
        released
    }

    /// Records the objects created for a `width` x `height` target.
    pub fn attach_buffers(
        &mut self,
        width: i32,
        height: i32,
        framebuffer_id: u32,
        color_buffer_id: u32,
        depth_stencil_buffer_id: u32,
    )
        ensures
            final(self)@ == (MsaaView {
                samples: old(self)@.samples,
                width,
                height,
                color_buffer_id,
                depth_stencil_buffer_id,
                framebuffer_id,
            }),
    {
        self.width = width;
        self.height = height;
        self.framebuffer_id = framebuffer_id;
        self.color_buffer_id = color_buffer_id;
        self.depth_stencil_buffer_id = depth_stencil_buffer_id;
    }

    pub fn samples(&self) -> (samples: i32)
        ensures
            samples == self@.samples,
    {
        self.samples
    }

    pub fn width(&self) -> (width: i32)
        ensures
            width == self@.width,
    {
        self.width
    }

    pub fn height(&self) -> (height: i32)
        ensures
            height == self@.height,
    {
        self.height
    }

    pub fn framebuffer_id(&self) -> (id: u32)
        ensures
            id == self@.framebuffer_id,
    {
        self.framebuffer_id
    }
}

/// Releasing twice hands back nothing the second time, and leaves the buffer as
/// the first release left it.
pub proof fn lemma_msaa_release_idempotent(v: MsaaView)
    ensures
        msaa_released(msaa_emptied(v)) == (ReleasedBuffers {
            framebuffer: None,
            color_texture: None,
            depth_stencil_renderbuffer: None,
        }),
        msaa_emptied(msaa_emptied(v)) == msaa_emptied(v),
{
}

/// The abstract value of a [`ShaderOffscreenBuffer`].
pub struct ShaderBufferView {
    pub color_buffer_id: u32,
    pub depth_stencil_buffer_id: u32,
    pub framebuffer_id: u32,
    pub quad_vertex_array_id: u32,
    pub quad_vertex_buffer_id: u32,
}

/// A single-sampled floating-point framebuffer that is drawn to the screen
/// through a full-screen quad.
pub struct ShaderOffscreenBuffer {
    color_buffer_id: u32,
    depth_stencil_buffer_id: u32,
    framebuffer_id: u32,
    quad_vertex_array_id: u32,
    quad_vertex_buffer_id: u32,
}

impl View for ShaderOffscreenBuffer {
    type V = ShaderBufferView;

    closed spec fn view(&self) -> ShaderBufferView {
        ShaderBufferView {
            color_buffer_id: self.color_buffer_id,
            depth_stencil_buffer_id: self.depth_stencil_buffer_id,
            framebuffer_id: self.framebuffer_id,
            quad_vertex_array_id: self.quad_vertex_array_id,
            quad_vertex_buffer_id: self.quad_vertex_buffer_id,
        }
    }
}

/// What releasing the image objects of `v` hands back.
pub open spec fn image_released(v: ShaderBufferView) -> ReleasedBuffers {
    ReleasedBuffers {
        framebuffer: owned(v.framebuffer_id),
        color_texture: owned(v.color_buffer_id),
        depth_stencil_renderbuffer: owned(v.depth_stencil_buffer_id),
    }
}

/// `v` after releasing its image objects: the quad stays.
pub open spec fn image_emptied(v: ShaderBufferView) -> ShaderBufferView {
    ShaderBufferView { color_buffer_id: 0, depth_stencil_buffer_id: 0, framebuffer_id: 0, ..v }
}

impl ShaderOffscreenBuffer {
    /// A buffer that owns the quad's vertex array and buffer and no image objects yet.
    pub fn with_quad(quad_vertex_array_id: u32, quad_vertex_buffer_id: u32) -> (buffer: Self)
        ensures
            buffer@ == (ShaderBufferView {
                color_buffer_id: 0,
                depth_stencil_buffer_id: 0,
                framebuffer_id: 0,
                quad_vertex_array_id,
                quad_vertex_buffer_id,
            }),
    {
        ShaderOffscreenBuffer {
            color_buffer_id: 0,
            depth_stencil_buffer_id: 0,
            framebuffer_id: 0,
            quad_vertex_array_id,
            quad_vertex_buffer_id,
        }
    }

    /// Gives up the image objects the buffer owns, for the caller to delete.
    pub fn release_image_buffers(&mut self) -> (released: ReleasedBuffers)
        ensures
            released == image_released(old(self)@),
            final(self)@ == image_emptied(old(self)@),
    {
        let released = ReleasedBuffers {
            framebuffer: owned_exec(self.framebuffer_id),
            color_texture: owned_exec(self.color_buffer_id),
            depth_stencil_renderbuffer: owned_exec(self.depth_stencil_buffer_id),
        };
        self.framebuffer_id = 0;
        self.color_buffer_id = 0;
        self.depth_stencil_buffer_id = 0;
        released
    }

    /// Records the image objects created for the current size.
    pub fn attach_image_buffers(
        &mut self,
        framebuffer_id: u32,
        color_buffer_id: u32,
        depth_stencil_buffer_id: u32,
    )
        ensures
            final(self)@ == (ShaderBufferView {
                color_buffer_id,
                depth_stencil_buffer_id,
                framebuffer_id,
                ..old(self)@
            }),
    {
        self.framebuffer_id = framebuffer_id;
        self.color_buffer_id = color_buffer_id;
        self.depth_stencil_buffer_id = depth_stencil_buffer_id;
    }

    pub fn framebuffer_id(&self) -> (id: u32)
        ensures
            id == self@.framebuffer_id,
    {
        self.framebuffer_id
    }

    pub fn color_buffer_id(&self) -> (id: u32)
        ensures
            id == self@.color_buffer_id,
    {
        self.color_buffer_id
    }

    pub fn quad_vertex_array_id(&self) -> (id: u32)
        ensures
            id == self@.quad_vertex_array_id,
    {
        self.quad_vertex_array_id
    }

    pub fn quad_vertex_buffer_id(&self) -> (id: u32)
        ensures
            id == self@.quad_vertex_buffer_id,
    {
        self.quad_vertex_buffer_id
    }
}

/// Releasing the image objects twice hands back nothing the second time.
pub proof fn lemma_image_release_idempotent(v: ShaderBufferView)
    ensures
        image_released(image_emptied(v)) == (ReleasedBuffers {
            framebuffer: None,
            color_texture: None,
            depth_stencil_renderbuffer: None,
        }),
        image_emptied(image_emptied(v)) == image_emptied(v),
{
}

} // verus!
