//! Off-screen render targets: framebuffers, renderbuffers, attachment
//! points and the completeness of a configuration.
use crate::buffer::Bindable;
use crate::context::{Context, GlCall, Handle, HandleKind};
use crate::glenum;
use crate::texture::Texture2D;
use vstd::prelude::*;

verus! {

/// The number of color attachment points the driver names.
pub const MAX_COLOR_ATTACHMENTS: u32 = 32;

/// A named slot of a framebuffer.
#[derive(Copy, Clone, Debug, PartialEq, Eq, Structural)]
pub enum Attachment {
    Color(u32),
    Depth,
    Stencil,
    DepthStencil,
}

pub open spec fn attachment_exists(a: Attachment) -> bool {
    match a {
        Attachment::Color(i) => i < MAX_COLOR_ATTACHMENTS,
        _ => true,
    }
}

pub open spec fn attachment_value(a: Attachment) -> u32
    recommends
        attachment_exists(a),
{
    match a {
        Attachment::Color(i) => (glenum::COLOR_ATTACHMENT0 + i) as u32,
        Attachment::Depth => glenum::DEPTH_ATTACHMENT,
        Attachment::Stencil => glenum::STENCIL_ATTACHMENT,
        Attachment::DepthStencil => glenum::DEPTH_STENCIL_ATTACHMENT,
    }
}

impl Attachment {
    /// The driver's name for this attachment point, if it has one.
    pub fn to_enum(self) -> (r: Option<u32>)
        ensures
            r is Some <==> attachment_exists(self),
            r matches Some(v) ==> v == attachment_value(self),
    {
        match self {
            Attachment::Color(i) => {
                if i < MAX_COLOR_ATTACHMENTS {
                    Some(glenum::COLOR_ATTACHMENT0 + i)
                } else {
                    None
                }
            },
            Attachment::Depth => Some(glenum::DEPTH_ATTACHMENT),
            Attachment::Stencil => Some(glenum::STENCIL_ATTACHMENT),
            Attachment::DepthStencil => Some(glenum::DEPTH_STENCIL_ATTACHMENT),
        }
    }
}

/// Why a framebuffer cannot be drawn into or read from.
#[derive(Clone, Copy, Debug, Eq, PartialEq, Structural)]
pub enum Status {
    /// The framebuffer is the default one, and no default framebuffer exists.
    Undefined,
    /// An attachment point holds an image that cannot serve there.
    IncompleteAttachment,
    /// No image is attached.
    MissingAttachment,
    /// A draw buffer names a color attachment point that holds no image.
    IncompleteDrawBuffer,
    /// The read buffer names a color attachment point that holds no image.
    IncompleteReadBuffer,
    /// The driver does not support this combination of formats.
    Unsupported,
    /// The attached images do not all have the same number of samples.
    IncompleteMultisample,
    /// Layered and non-layered attachments are mixed.
    IncompleteLayerTargets,
}

pub open spec fn status_of_code(code: u32) -> Option<Status> {
    if code == glenum::FRAMEBUFFER_UNDEFINED {
        Some(Status::Undefined)
    } else if code == glenum::FRAMEBUFFER_INCOMPLETE_ATTACHMENT {
        Some(Status::IncompleteAttachment)
    } else if code == glenum::FRAMEBUFFER_INCOMPLETE_MISSING_ATTACHMENT {
        Some(Status::MissingAttachment)
    } else if code == glenum::FRAMEBUFFER_INCOMPLETE_DRAW_BUFFER {
        Some(Status::IncompleteDrawBuffer)
    } else if code == glenum::FRAMEBUFFER_INCOMPLETE_READ_BUFFER {
        Some(Status::IncompleteReadBuffer)
    } else if code == glenum::FRAMEBUFFER_UNSUPPORTED {
        Some(Status::Unsupported)
    } else if code == glenum::FRAMEBUFFER_INCOMPLETE_MULTISAMPLE {
        Some(Status::IncompleteMultisample)
    } else if code == glenum::FRAMEBUFFER_INCOMPLETE_LAYER_TARGETS {
        Some(Status::IncompleteLayerTargets)
    } else {
        None
    }
}

impl Status {
    /// The status that a driver's completeness code reports; `None` for
    /// "complete" and for codes that name no incompleteness.
    pub fn from_code(code: u32) -> (r: Option<Status>)
        ensures
            r == status_of_code(code),
    {
        if code == glenum::FRAMEBUFFER_UNDEFINED {
            Some(Status::Undefined)
        } else if code == glenum::FRAMEBUFFER_INCOMPLETE_ATTACHMENT {
            Some(Status::IncompleteAttachment)
        } else if code == glenum::FRAMEBUFFER_INCOMPLETE_MISSING_ATTACHMENT {
            Some(Status::MissingAttachment)
        } else if code == glenum::FRAMEBUFFER_INCOMPLETE_DRAW_BUFFER {
            Some(Status::IncompleteDrawBuffer)
        } else if code == glenum::FRAMEBUFFER_INCOMPLETE_READ_BUFFER {
            Some(Status::IncompleteReadBuffer)
        } else if code == glenum::FRAMEBUFFER_UNSUPPORTED {
            Some(Status::Unsupported)
        } else if code == glenum::FRAMEBUFFER_INCOMPLETE_MULTISAMPLE {
            Some(Status::IncompleteMultisample)
        } else if code == glenum::FRAMEBUFFER_INCOMPLETE_LAYER_TARGETS {
            Some(Status::IncompleteLayerTargets)
        } else {
            None
        }
    }
}

/// Storage formats of a renderbuffer.
#[derive(Clone, Copy, Debug, PartialEq, Eq, Structural)]
pub enum Format {
    Rgba,
    Depth,
    DepthStencil,
}

pub open spec fn rb_internal_format(f: Format) -> u32 {
    match f {
        Format::Rgba => glenum::RGBA8,
        Format::Depth => glenum::DEPTH_COMPONENT16,
        Format::DepthStencil => glenum::DEPTH24_STENCIL8,
    }
}

impl Format {
    pub fn into_internal_format(self) -> (r: u32)
        ensures
            r == rb_internal_format(self),
    {
        match self {
            Format::Rgba => glenum::RGBA8,
            Format::Depth => glenum::DEPTH_COMPONENT16,
            Format::DepthStencil => glenum::DEPTH24_STENCIL8,
        }
    }
}

/// What an attached image is for.
#[derive(Clone, Copy, Debug, PartialEq, Eq, Structural)]
pub enum ImageClass {
    Color,
    Depth,
    DepthStencil,
}

/// The description of an attached image that completeness depends on.
/// The framebuffer does not own the image.
#[derive(Clone, Copy, Debug, PartialEq, Eq, Structural)]
pub struct ImageDesc {
    pub from_renderbuffer: bool,
    pub id: u64,
    pub width: u32,
    pub height: u32,
    pub class: ImageClass,
    pub samples: u32,
}

/// Whether an image can serve at an attachment point on its own.
pub open spec fn serves(point: Attachment, d: ImageDesc) -> bool {
    &&& d.width > 0
    &&& d.height > 0
    &&& match point {
        Attachment::Color(_) => d.class == ImageClass::Color,
        Attachment::Depth => d.class == ImageClass::Depth || d.class == ImageClass::DepthStencil,
        Attachment::Stencil => d.class == ImageClass::DepthStencil,
        Attachment::DepthStencil => d.class == ImageClass::DepthStencil,
    }
}

/// Whether `point` holds an image in `entries`.
pub open spec fn populated(entries: Seq<(Attachment, ImageDesc)>, point: Attachment) -> bool {
    exists|i: int| 0 <= i < entries.len() && (#[trigger] entries[i]).0 == point
}

/// Entry `i` holds an image that cannot serve at its point.
pub open spec fn unfit(entries: Seq<(Attachment, ImageDesc)>, i: int) -> bool {
    !serves(entries[i].0, entries[i].1)
}

/// Entry `i` differs in size from the first entry.
pub open spec fn size_differs(entries: Seq<(Attachment, ImageDesc)>, i: int) -> bool {
    entries[i].1.width != entries[0].1.width || entries[i].1.height != entries[0].1.height
}

/// Entry `i` differs in sample count from the first entry.
pub open spec fn samples_differ(entries: Seq<(Attachment, ImageDesc)>, i: int) -> bool {
    entries[i].1.samples != entries[0].1.samples
}

/// Whether draw buffer `d` names a color attachment point that holds no
/// image.
pub open spec fn draws_nothing(entries: Seq<(Attachment, ImageDesc)>, d: Option<u32>) -> bool {
    match d {
        Some(c) => !populated(entries, Attachment::Color(c)),
        None => false,
    }
}

/// The completeness of a framebuffer with attachments `entries` and draw
/// buffers `draws`; `None` when it is complete. Checks are made in this
/// order: something attached, each image fit for its point, all images of
/// one size, all images of one sample count, each draw buffer populated.
pub open spec fn status_of(entries: Seq<(Attachment, ImageDesc)>, draws: Seq<Option<u32>>) -> Option<
    Status,
> {
    if entries.len() == 0 {
        Some(Status::MissingAttachment)
    } else if exists|i: int| 0 <= i < entries.len() && #[trigger] unfit(entries, i) {
        Some(Status::IncompleteAttachment)
    } else if exists|i: int| 0 <= i < entries.len() && #[trigger] size_differs(entries, i) {
        Some(Status::IncompleteAttachment)
    } else if exists|i: int| 0 <= i < entries.len() && #[trigger] samples_differ(entries, i) {
        Some(Status::IncompleteMultisample)
    } else if exists|k: int| 0 <= k < draws.len() && draws_nothing(entries, #[trigger] draws[k]) {
        Some(Status::IncompleteDrawBuffer)
    } else {
        None
    }
}

/// `entries` with `point` holding `d`: the entry for `point` is replaced
/// if there is one, else one is added at the end.
pub open spec fn with_attachment(
    entries: Seq<(Attachment, ImageDesc)>,
    point: Attachment,
    d: ImageDesc,
) -> Seq<(Attachment, ImageDesc)> {
    if populated(entries, point) {
        let i = choose|i: int| 0 <= i < entries.len() && (#[trigger] entries[i]).0 == point;
        entries.update(i, (point, d))
    } else {
        entries.push((point, d))
    }
}

pub open spec fn points_unique(entries: Seq<(Attachment, ImageDesc)>) -> bool {
    forall|i: int, j: int|
        0 <= i < entries.len() && 0 <= j < entries.len() && i != j ==> (#[trigger] entries[i]).0
            != (#[trigger] entries[j]).0
}

/// Why a framebuffer operation was refused.
#[derive(Clone, Copy, Debug, PartialEq, Eq, Structural)]
pub enum FramebufferError {
    /// A color attachment index at or past `MAX_COLOR_ATTACHMENTS`.
    NoSuchAttachment,
}

/// Storage of a renderbuffer once allocated.
#[derive(Clone, Copy, Debug, PartialEq, Eq, Structural)]
pub struct RenderbufferStorage {
    pub width: u32,
    pub height: u32,
    pub format: Format,
    pub samples: u32,
}

/// A renderbuffer owned by the library.
pub struct RenderBuffer {
    handle: Handle,
    storage: Option<RenderbufferStorage>,
}

impl RenderBuffer {
    #[verifier::type_invariant]
    spec fn inv(&self) -> bool {
        self.handle.kind_spec() == HandleKind::Renderbuffer
    }

    pub closed spec fn id_spec(&self) -> u64 {
        self.handle.id_spec()
    }

    pub closed spec fn storage_spec(&self) -> Option<RenderbufferStorage> {
        self.storage
    }

    /// How the renderbuffer looks when attached; without storage it is an
    /// empty color image.
    pub open spec fn desc_spec(&self) -> ImageDesc {
        match self.storage_spec() {
            Some(s) => ImageDesc {
                from_renderbuffer: true,
                id: self.id_spec(),
                width: s.width,
                height: s.height,
                class: match s.format {
                    Format::Rgba => ImageClass::Color,
                    Format::Depth => ImageClass::Depth,
                    Format::DepthStencil => ImageClass::DepthStencil,
                },
                samples: s.samples,
            },
            None => ImageDesc {
                from_renderbuffer: true,
                id: self.id_spec(),
                width: 0,
                height: 0,
                class: ImageClass::Color,
                samples: 0,
            },
        }
    }

    pub fn id(&self) -> (r: u64)
        ensures
            r == self.id_spec(),
    {
        self.handle.id()
    }

    pub fn storage(&self) -> (r: Option<RenderbufferStorage>)
        ensures
            r == self.storage_spec(),
    {
        self.storage
    }

    pub fn desc(&self) -> (r: ImageDesc)
        ensures
            r == self.desc_spec(),
    {
        let id = self.id();
        match self.storage {
            Some(s) => ImageDesc {
                from_renderbuffer: true,
                id,
                width: s.width,
                height: s.height,
                class: match s.format {
                    Format::Rgba => ImageClass::Color,
                    Format::Depth => ImageClass::Depth,
                    Format::DepthStencil => ImageClass::DepthStencil,
                },
                samples: s.samples,
            },
            None => ImageDesc {
                from_renderbuffer: true,
                id,
                width: 0,
                height: 0,
                class: ImageClass::Color,
                samples: 0,
            },
        }
    }

    /// A renderbuffer without storage.
    pub fn new(ctx: &mut Context) -> (r: Self)
        requires
            old(ctx).wf(),
            old(ctx).has_room(1),
        ensures
            final(ctx).wf(),
            r.storage_spec() == None::<RenderbufferStorage>,
            r.id_spec() == old(ctx).next_id(),
            r.id_spec() != 0,
            !old(ctx).live().contains(r.id_spec()),
            final(ctx).live() == old(ctx).live().insert(r.id_spec()),
            final(ctx).next_id() == old(ctx).next_id() + 1,
            final(ctx).recorded() == old(ctx).recorded().push(
                GlCall::Generate {
                    kind: HandleKind::Renderbuffer,
                    first: old(ctx).next_id(),
                    count: 1,
                },
            ),
    {
        RenderBuffer { handle: ctx.generate_one(HandleKind::Renderbuffer), storage: None }
    }

    /// `count` renderbuffers without storage, from one driver call.
    pub fn new_array(ctx: &mut Context, count: u64) -> (r: Vec<Self>)
        requires
            old(ctx).wf(),
            old(ctx).has_room(count as nat),
        ensures
            final(ctx).wf(),
            r.len() == count,
            forall|i: int|
                0 <= i < r.len() ==> (#[trigger] r[i]).id_spec() == old(ctx).next_id() + i
                    && r[i].id_spec() != 0 && !old(ctx).live().contains(r[i].id_spec())
                    && r[i].storage_spec() == None::<RenderbufferStorage>,
            final(ctx).next_id() == old(ctx).next_id() + count,
            final(ctx).live() == old(ctx).live().union(
                Set::new(|id: u64| old(ctx).next_id() <= id < old(ctx).next_id() + count),
            ),
            final(ctx).recorded() == old(ctx).recorded().push(
                GlCall::Generate { kind: HandleKind::Renderbuffer, first: old(ctx).next_id(), count },
            ),
    {
        let mut handles = ctx.generate(HandleKind::Renderbuffer, count);
        let ghost first = old(ctx).next_id();
        let mut out: Vec<RenderBuffer> = Vec::new();
        while handles.len() > 0
            invariant
                out.len() + handles.len() == count,
                forall|i: int|
                    0 <= i < handles.len() ==> (#[trigger] handles[i]).id_spec() == first
                        + out.len() + i && handles[i].kind_spec() == HandleKind::Renderbuffer,
                forall|i: int|
                    0 <= i < out.len() ==> (#[trigger] out[i]).id_spec() == first + i
                        && out[i].storage_spec() == None::<RenderbufferStorage>,
            decreases handles.len(),
        {
            let h = handles.remove(0);
            out.push(RenderBuffer { handle: h, storage: None });
        }
        out
    }

    /// Allocates storage of `width` by `height` in `format` with `samples`
    /// samples per pixel.
    pub fn allocate(&mut self, ctx: &mut Context, width: u32, height: u32, format: Format, samples: u32)
        requires
            old(ctx).wf(),
        ensures
            final(self).id_spec() == old(self).id_spec(),
            final(self).storage_spec() == Some(RenderbufferStorage { width, height, format, samples }),
            Context::appended(
                *old(ctx),
                *final(ctx),
                seq![
                    GlCall::BindRenderbuffer { renderbuffer: old(self).id_spec() },
                    GlCall::RenderbufferStorageMultisample {
                        samples,
                        internal_format: rb_internal_format(format),
                        width,
                        height,
                    },
                ],
            ),
    {
        proof {
            use_type_invariant(&*self);
        }
        let id = self.id();
        ctx.record(GlCall::BindRenderbuffer { renderbuffer: id });
        let internal_format = format.into_internal_format();
        ctx.record(GlCall::RenderbufferStorageMultisample { samples, internal_format, width, height });
        self.storage = Some(RenderbufferStorage { width, height, format, samples });
        assert(ctx.recorded() =~= old(ctx).recorded() + seq![
            GlCall::BindRenderbuffer { renderbuffer: old(self).id_spec() },
            GlCall::RenderbufferStorageMultisample {
                samples,
                internal_format: rb_internal_format(format),
                width,
                height,
            },
        ]);
    }

    pub fn bind(&self, ctx: &mut Context)
        requires
            old(ctx).wf(),
        ensures
            Context::appended(
                *old(ctx),
                *final(ctx),
                seq![GlCall::BindRenderbuffer { renderbuffer: self.id_spec() }],
            ),
    {
        let id = self.id();
        ctx.record(GlCall::BindRenderbuffer { renderbuffer: id });
    }

    pub fn unbind(&self, ctx: &mut Context)
        requires
            old(ctx).wf(),
        ensures
            Context::appended(*old(ctx), *final(ctx), seq![GlCall::BindRenderbuffer { renderbuffer: 0 }]),
    {
        ctx.record(GlCall::BindRenderbuffer { renderbuffer: 0 });
    }

    /// Deletes the driver object.
    pub fn delete(self, ctx: &mut Context)
        requires
            old(ctx).wf(),
        ensures
            final(ctx).wf(),
            final(ctx).live() == old(ctx).live().remove(self.id_spec()),
            final(ctx).recorded() == old(ctx).recorded().push(
                GlCall::Delete { kind: HandleKind::Renderbuffer, id: self.id_spec() },
            ),
    {
        proof {
            use_type_invariant(&self);
        }
        let RenderBuffer { handle, .. } = self;
        ctx.release(handle);
    }
}

/// How a texture looks when attached.
pub open spec fn texture_desc(t: Texture2D) -> ImageDesc {
    ImageDesc {
        from_renderbuffer: false,
        id: t.id_spec(),
        width: t.width_spec(),
        height: t.height_spec(),
        class: ImageClass::Color,
        samples: 0,
    }
}

pub fn describe_texture(t: &Texture2D) -> (r: ImageDesc)
    ensures
        r == texture_desc(*t),
{
    ImageDesc {
        from_renderbuffer: false,
        id: t.id(),
        width: t.width(),
        height: t.height(),
        class: ImageClass::Color,
        samples: 0,
    }
}


pub fn serves_point(point: Attachment, d: ImageDesc) -> (r: bool)
    ensures
        r == serves(point, d),
{
    d.width > 0 && d.height > 0 && match point {
        Attachment::Color(_) => d.class == ImageClass::Color,
        Attachment::Depth => d.class == ImageClass::Depth || d.class == ImageClass::DepthStencil,
        Attachment::Stencil => d.class == ImageClass::DepthStencil,
        Attachment::DepthStencil => d.class == ImageClass::DepthStencil,
    }
}

/// The index of the entry for `point`, if there is one.
fn find_point(entries: &Vec<(Attachment, ImageDesc)>, point: Attachment) -> (r: Option<usize>)
    ensures
        r is Some <==> populated(entries@, point),
        r matches Some(i) ==> i < entries.len() && entries@[i as int].0 == point,
{
    let mut i: usize = 0;
    while i < entries.len()
        invariant
            i <= entries.len(),
            forall|j: int| 0 <= j < i ==> (#[trigger] entries@[j]).0 != point,
        decreases entries.len() - i,
    {
        if entries[i].0 == point {
            return Some(i);
        }
        i = i + 1;
    }
    None
}

/// A copy of `entries` with `point` holding `d`.
fn with_entry(entries: &Vec<(Attachment, ImageDesc)>, point: Attachment, d: ImageDesc) -> (r: Vec<
    (Attachment, ImageDesc),
>)
    requires
        points_unique(entries@),
    ensures
        r@ == with_attachment(entries@, point, d),
{
    let found = find_point(entries, point);
    let mut out: Vec<(Attachment, ImageDesc)> = Vec::new();
    let mut i: usize = 0;
    while i < entries.len()
        invariant
            i <= entries.len(),
            out.len() == i,
            found matches Some(f) ==> f < entries.len() && entries@[f as int].0 == point,
            forall|j: int|
                0 <= j < i ==> #[trigger] out@[j] == if found == Some(j as usize) {
                    (point, d)
                } else {
                    entries@[j]
                },
        decreases entries.len() - i,
    {
        if found == Some(i) {
            out.push((point, d));
        } else {
            out.push(entries[i]);
        }
        i = i + 1;
    }
    match found {
        Some(f) => {
            proof {
                let k = choose|k: int| 0 <= k < entries@.len() && (#[trigger] entries@[k]).0 == point;
                assert(k == f);
                assert(out@ =~= entries@.update(k, (point, d)));
            }
        },
        None => {
            out.push((point, d));
            assert(out@ =~= entries@.push((point, d)));
        },
    }
    out
}

/// A framebuffer owned by the library, with the images attached to it
/// and the color attachments that receive fragment output.
pub struct FrameBuffer {
    handle: Handle,
    attachments: Vec<(Attachment, ImageDesc)>,
    draws: Vec<Option<u32>>,
}

impl FrameBuffer {
    #[verifier::type_invariant]
    spec fn inv(&self) -> bool {
        &&& self.handle.kind_spec() == HandleKind::Framebuffer
        &&& points_unique(self.attachments@)
    }

    pub closed spec fn id_spec(&self) -> u64 {
        self.handle.id_spec()
    }

    /// Attachment points and their images, in the order first attached.
    pub closed spec fn attachments_spec(&self) -> Seq<(Attachment, ImageDesc)> {
        self.attachments@
    }

    /// Color attachment indices that receive fragment output, slot by slot.
    pub closed spec fn draw_buffers_spec(&self) -> Seq<Option<u32>> {
        self.draws@
    }

    pub fn id(&self) -> (r: u64)
        ensures
            r == self.id_spec(),
    {
        self.handle.id()
    }

    /// A framebuffer with nothing attached, drawing to color attachment 0.
    pub fn new(ctx: &mut Context) -> (r: Self)
        requires
            old(ctx).wf(),
            old(ctx).has_room(1),
        ensures
            final(ctx).wf(),
            r.attachments_spec() == Seq::<(Attachment, ImageDesc)>::empty(),
            r.draw_buffers_spec() == seq![Some(0u32)],
            r.id_spec() == old(ctx).next_id(),
            r.id_spec() != 0,
            !old(ctx).live().contains(r.id_spec()),
            final(ctx).live() == old(ctx).live().insert(r.id_spec()),
            final(ctx).next_id() == old(ctx).next_id() + 1,
            final(ctx).recorded() == old(ctx).recorded().push(
                GlCall::Generate {
                    kind: HandleKind::Framebuffer,
                    first: old(ctx).next_id(),
                    count: 1,
                },
            ),
    {
        let handle = ctx.generate_one(HandleKind::Framebuffer);
        let fb = FrameBuffer { handle, attachments: Vec::new(), draws: vec![Some(0u32)] };
        assert(fb.draws@ =~= seq![Some(0u32)]);
        fb
    }

    /// `count` framebuffers with nothing attached, from one driver call.
    pub fn new_array(ctx: &mut Context, count: u64) -> (r: Vec<Self>)
        requires
            old(ctx).wf(),
            old(ctx).has_room(count as nat),
        ensures
            final(ctx).wf(),
            r.len() == count,
            forall|i: int|
                0 <= i < r.len() ==> (#[trigger] r[i]).id_spec() == old(ctx).next_id() + i
                    && r[i].id_spec() != 0 && !old(ctx).live().contains(r[i].id_spec())
                    && r[i].attachments_spec() == Seq::<(Attachment, ImageDesc)>::empty()
                    && r[i].draw_buffers_spec() == seq![Some(0u32)],
            final(ctx).next_id() == old(ctx).next_id() + count,
            final(ctx).live() == old(ctx).live().union(
                Set::new(|id: u64| old(ctx).next_id() <= id < old(ctx).next_id() + count),
            ),
            final(ctx).recorded() == old(ctx).recorded().push(
                GlCall::Generate { kind: HandleKind::Framebuffer, first: old(ctx).next_id(), count },
            ),
    {
        let mut handles = ctx.generate(HandleKind::Framebuffer, count);
        let ghost first = old(ctx).next_id();
        let mut out: Vec<FrameBuffer> = Vec::new();
        while handles.len() > 0
            invariant
                out.len() + handles.len() == count,
                forall|i: int|
                    0 <= i < handles.len() ==> (#[trigger] handles[i]).id_spec() == first
                        + out.len() + i && handles[i].kind_spec() == HandleKind::Framebuffer,
                forall|i: int|
                    0 <= i < out.len() ==> (#[trigger] out[i]).id_spec() == first + i
                        && out[i].attachments_spec() == Seq::<(Attachment, ImageDesc)>::empty()
                        && out[i].draw_buffers_spec() == seq![Some(0u32)],
            decreases handles.len(),
        {
            let h = handles.remove(0);
            let fb = FrameBuffer { handle: h, attachments: Vec::new(), draws: vec![Some(0u32)] };
            assert(fb.draws@ =~= seq![Some(0u32)]);
            out.push(fb);
        }
        out
    }

    /// Records `d` at `point` in the model.
    fn set_entry(&mut self, point: Attachment, d: ImageDesc)
        ensures
            final(self).id_spec() == old(self).id_spec(),
            final(self).draw_buffers_spec() == old(self).draw_buffers_spec(),
            final(self).attachments_spec() == with_attachment(old(self).attachments_spec(), point, d),
    {
        proof {
            use_type_invariant(&*self);
        }
        let entries = with_entry(&self.attachments, point, d);
        proof {
            let old_e = self.attachments@;
            assert forall|i: int, j: int|
                0 <= i < entries@.len() && 0 <= j < entries@.len() && i != j implies (
                #[trigger] entries@[i]).0 != (#[trigger] entries@[j]).0 by {
                if populated(old_e, point) {
                    let k = choose|k: int| 0 <= k < old_e.len() && (#[trigger] old_e[k]).0 == point;
                    if i != k && j != k {
                        assert(entries@[i] == old_e[i]);
                        assert(entries@[j] == old_e[j]);
                    }
                } else {
                    if i < old_e.len() && j < old_e.len() {
                        assert(entries@[i] == old_e[i]);
                        assert(entries@[j] == old_e[j]);
                    } else if i < old_e.len() {
                        assert(entries@[i] == old_e[i]);
                    } else {
                        assert(entries@[j] == old_e[j]);
                    }
                }
            }
        }
        self.attachments = entries;
    }

    /// Attaches `texture` at `attachment`, replacing what was there. The
    /// framebuffer does not take ownership of the texture.
    pub fn attach_texture2d(&mut self, ctx: &mut Context, texture: &Texture2D, attachment: Attachment) -> (r:
        Result<(), FramebufferError>)
        requires
            old(ctx).wf(),
        ensures
            r is Err <==> !attachment_exists(attachment),
            r is Err ==> *final(ctx) == *old(ctx) && *final(self) == *old(self),
            final(self).id_spec() == old(self).id_spec(),
            final(self).draw_buffers_spec() == old(self).draw_buffers_spec(),
            r is Ok ==> final(self).attachments_spec() == with_attachment(
                old(self).attachments_spec(),
                attachment,
                texture_desc(*texture),
            ),
            r is Ok ==> Context::appended(
                *old(ctx),
                *final(ctx),
                seq![
                    GlCall::BindFramebuffer { framebuffer: old(self).id_spec() },
                    GlCall::FramebufferTexture {
                        attachment: attachment_value(attachment),
                        texture: texture.id_spec(),
                    },
                    GlCall::BindFramebuffer { framebuffer: 0 },
                ],
            ),
    {
        let point = match attachment.to_enum() {
            Some(v) => v,
            None => return Err(FramebufferError::NoSuchAttachment),
        };
        self.bind(ctx);
        let tex = texture.id();
        ctx.record(GlCall::FramebufferTexture { attachment: point, texture: tex });
        self.unbind(ctx);
        let d = describe_texture(texture);
        self.set_entry(attachment, d);
        assert(ctx.recorded() =~= old(ctx).recorded() + seq![
            GlCall::BindFramebuffer { framebuffer: old(self).id_spec() },
            GlCall::FramebufferTexture {
                attachment: attachment_value(attachment),
                texture: texture.id_spec(),
            },
            GlCall::BindFramebuffer { framebuffer: 0 },
        ]);
        Ok(())
    }

    /// Attaches `renderbuffer` at `attachment`, replacing what was there.
    /// The framebuffer does not take ownership of the renderbuffer.
    pub fn attach_renderbuffer(
        &mut self,
        ctx: &mut Context,
        renderbuffer: &RenderBuffer,
        attachment: Attachment,
    ) -> (r: Result<(), FramebufferError>)
        requires
            old(ctx).wf(),
        ensures
            r is Err <==> !attachment_exists(attachment),
            r is Err ==> *final(ctx) == *old(ctx) && *final(self) == *old(self),
            final(self).id_spec() == old(self).id_spec(),
            final(self).draw_buffers_spec() == old(self).draw_buffers_spec(),
            r is Ok ==> final(self).attachments_spec() == with_attachment(
                old(self).attachments_spec(),
                attachment,
                renderbuffer.desc_spec(),
            ),
            r is Ok ==> Context::appended(
                *old(ctx),
                *final(ctx),
                seq![
                    GlCall::BindFramebuffer { framebuffer: old(self).id_spec() },
                    GlCall::BindRenderbuffer { renderbuffer: renderbuffer.id_spec() },
                    GlCall::FramebufferRenderbuffer {
                        attachment: attachment_value(attachment),
                        renderbuffer: renderbuffer.id_spec(),
                    },
                    GlCall::BindFramebuffer { framebuffer: 0 },
                ],
            ),
    {
        let point = match attachment.to_enum() {
            Some(v) => v,
            None => return Err(FramebufferError::NoSuchAttachment),
        };
        self.bind(ctx);
        renderbuffer.bind(ctx);
        let rb = renderbuffer.id();
        ctx.record(GlCall::FramebufferRenderbuffer { attachment: point, renderbuffer: rb });
        self.unbind(ctx);
        let d = renderbuffer.desc();
        self.set_entry(attachment, d);
        assert(ctx.recorded() =~= old(ctx).recorded() + seq![
            GlCall::BindFramebuffer { framebuffer: old(self).id_spec() },
            GlCall::BindRenderbuffer { renderbuffer: renderbuffer.id_spec() },
            GlCall::FramebufferRenderbuffer {
                attachment: attachment_value(attachment),
                renderbuffer: renderbuffer.id_spec(),
            },
            GlCall::BindFramebuffer { framebuffer: 0 },
        ]);
        Ok(())
    }

    /// Selects the color attachments that receive output, slot by slot;
    /// `None` silences a slot.
    pub fn set_draw_buffers(&mut self, ctx: &mut Context, buffers: &Vec<Option<u32>>) -> (r: Result<
        (),
        FramebufferError,
    >)
        requires
            old(ctx).wf(),
        ensures
            r is Err <==> exists|k: int|
                0 <= k < buffers.len() && (#[trigger] buffers@[k]) is Some && !attachment_exists(
                    Attachment::Color(buffers@[k]->0),
                ),
            r is Err ==> *final(ctx) == *old(ctx) && *final(self) == *old(self),
            final(self).id_spec() == old(self).id_spec(),
            final(self).attachments_spec() == old(self).attachments_spec(),
            r is Ok ==> final(self).draw_buffers_spec() == buffers@,
            r is Ok ==> ({
                let n = old(ctx).recorded().len() as int;
                &&& final(ctx).wf()
                &&& final(ctx).live() == old(ctx).live()
                &&& final(ctx).next_id() == old(ctx).next_id()
                &&& final(ctx).recorded().len() == n + 2
                &&& final(ctx).recorded().subrange(0, n) == old(ctx).recorded()
                &&& final(ctx).recorded()[n] == (GlCall::BindFramebuffer {
                    framebuffer: old(self).id_spec(),
                })
                &&& final(ctx).recorded()[n + 1] matches GlCall::DrawBuffers { buffers: b }
                    && b@.len() == buffers.len() && forall|k: int|
                    0 <= k < buffers.len() ==> #[trigger] b@[k] == match buffers@[k] {
                        Some(c) => attachment_value(Attachment::Color(c)),
                        None => glenum::NONE,
                    }
            }),
    {
        let mut values: Vec<u32> = Vec::new();
        let mut k: usize = 0;
        while k < buffers.len()
            invariant
                k <= buffers.len(),
                values.len() == k,
                forall|j: int|
                    0 <= j < k ==> (#[trigger] buffers@[j]) is Some ==> attachment_exists(
                        Attachment::Color(buffers@[j]->0),
                    ),
                forall|j: int|
                    0 <= j < k ==> #[trigger] values@[j] == match buffers@[j] {
                        Some(c) => attachment_value(Attachment::Color(c)),
                        None => glenum::NONE,
                    },
            decreases buffers.len() - k,
        {
            match buffers[k] {
                Some(c) => {
                    match Attachment::Color(c).to_enum() {
                        Some(v) => values.push(v),
                        None => return Err(FramebufferError::NoSuchAttachment),
                    }
                },
                None => values.push(glenum::NONE),
            }
            k = k + 1;
        }
        proof {
            use_type_invariant(&*self);
        }
        self.bind(ctx);
        ctx.record(GlCall::DrawBuffers { buffers: values });
        self.draws = buffers.clone();
        assert(self.draws@ =~= buffers@);
        Ok(())
    }

    /// Clears color output `drawbuffer` to `value`.
    pub fn clear_color<C: ColorClearable>(&self, ctx: &mut Context, drawbuffer: i32, value: &Vec<C>)
        requires
            old(ctx).wf(),
        ensures
            ({
                let n = old(ctx).recorded().len() as int;
                &&& final(ctx).wf()
                &&& final(ctx).live() == old(ctx).live()
                &&& final(ctx).next_id() == old(ctx).next_id()
                &&& final(ctx).recorded().len() == n + 2
                &&& final(ctx).recorded().subrange(0, n) == old(ctx).recorded()
                &&& final(ctx).recorded()[n] == (GlCall::BindFramebuffer {
                    framebuffer: self.id_spec(),
                })
                &&& C::clears(final(ctx).recorded()[n + 1], drawbuffer, value@)
            }),
    {
        self.bind(ctx);
        let call = C::clear(drawbuffer, value);
        ctx.record(call);
    }

    /// Whether the framebuffer can be drawn into, by the library's own
    /// completeness rules over the attachments it recorded (`status_of`):
    /// `None` when complete, else the first reason it is not. What the
    /// driver itself reports is read through `Status::from_code`.
    pub fn status(&self) -> (r: Option<Status>)
        ensures
            r == status_of(self.attachments_spec(), self.draw_buffers_spec()),
    {
        let entries = &self.attachments;
        let draws = &self.draws;
        let n = entries.len();
        if n == 0 {
            return Some(Status::MissingAttachment);
        }
        let mut i: usize = 0;
        while i < n
            invariant
                entries@ == self.attachments_spec(),
                draws@ == self.draw_buffers_spec(),
                n == entries.len(),
                i <= n,
                forall|j: int| 0 <= j < i ==> !#[trigger] unfit(entries@, j),
            decreases n - i,
        {
            if !serves_point(entries[i].0, entries[i].1) {
                assert(unfit(entries@, i as int));
                return Some(Status::IncompleteAttachment);
            }
            i = i + 1;
        }
        let w = entries[0].1.width;
        let h = entries[0].1.height;
        let samples = entries[0].1.samples;
        let mut i: usize = 0;
        while i < n
            invariant
                entries@ == self.attachments_spec(),
                draws@ == self.draw_buffers_spec(),
                n == entries.len(),
                n > 0,
                w == entries@[0].1.width,
                h == entries@[0].1.height,
                i <= n,
                forall|j: int| 0 <= j < n ==> !#[trigger] unfit(entries@, j),
                forall|j: int| 0 <= j < i ==> !#[trigger] size_differs(entries@, j),
            decreases n - i,
        {
            if entries[i].1.width != w || entries[i].1.height != h {
                assert(size_differs(entries@, i as int));
                return Some(Status::IncompleteAttachment);
            }
            i = i + 1;
        }
        let mut i: usize = 0;
        while i < n
            invariant
                entries@ == self.attachments_spec(),
                draws@ == self.draw_buffers_spec(),
                n == entries.len(),
                n > 0,
                samples == entries@[0].1.samples,
                i <= n,
                forall|j: int| 0 <= j < n ==> !#[trigger] unfit(entries@, j),
                forall|j: int| 0 <= j < n ==> !#[trigger] size_differs(entries@, j),
                forall|j: int| 0 <= j < i ==> !#[trigger] samples_differ(entries@, j),
            decreases n - i,
        {
            if entries[i].1.samples != samples {
                assert(samples_differ(entries@, i as int));
                return Some(Status::IncompleteMultisample);
            }
            i = i + 1;
        }
        let mut k: usize = 0;
        while k < draws.len()
            invariant
                entries@ == self.attachments_spec(),
                draws@ == self.draw_buffers_spec(),
                n == entries.len(),
                n > 0,
                k <= draws.len(),
                forall|j: int| 0 <= j < n ==> !#[trigger] unfit(entries@, j),
                forall|j: int| 0 <= j < n ==> !#[trigger] size_differs(entries@, j),
                forall|j: int| 0 <= j < n ==> !#[trigger] samples_differ(entries@, j),
                forall|j: int| 0 <= j < k ==> !draws_nothing(entries@, #[trigger] draws@[j]),
            decreases draws.len() - k,
        {
            match draws[k] {
                Some(c) => {
                    if find_point(entries, Attachment::Color(c)).is_none() {
                        assert(draws_nothing(entries@, draws@[k as int]));
                        return Some(Status::IncompleteDrawBuffer);
                    }
                },
                None => {},
            }
            k = k + 1;
        }
        None
    }

    /// Deletes the driver object; attached images are not affected.
    pub fn delete(self, ctx: &mut Context)
        requires
            old(ctx).wf(),
        ensures
            final(ctx).wf(),
            final(ctx).live() == old(ctx).live().remove(self.id_spec()),
            final(ctx).recorded() == old(ctx).recorded().push(
                GlCall::Delete { kind: HandleKind::Framebuffer, id: self.id_spec() },
            ),
    {
        proof {
            use_type_invariant(&self);
        }
        let FrameBuffer { handle, .. } = self;
        ctx.release(handle);
    }
}

impl Bindable for FrameBuffer {
    open spec fn binding(&self) -> GlCall {
        GlCall::BindFramebuffer { framebuffer: self.id_spec() }
    }

    open spec fn unbinding(&self) -> GlCall {
        GlCall::BindFramebuffer { framebuffer: 0 }
    }

    fn bind(&self, ctx: &mut Context) {
        let id = self.id();
        ctx.record(GlCall::BindFramebuffer { framebuffer: id });
    }

    fn unbind(&self, ctx: &mut Context) {
        ctx.record(GlCall::BindFramebuffer { framebuffer: 0 });
    }
}

/// A type of value that a color output can be cleared to.
pub trait ColorClearable: Sized {
    /// `c` clears color output `drawbuffer` to `value`.
    spec fn clears(c: GlCall, drawbuffer: i32, value: Seq<Self>) -> bool;

    fn clear(drawbuffer: i32, value: &Vec<Self>) -> (r: GlCall)
        ensures
            Self::clears(r, drawbuffer, value@),
    ;
}

impl ColorClearable for i32 {
    open spec fn clears(c: GlCall, drawbuffer: i32, value: Seq<i32>) -> bool {
        c matches GlCall::ClearBufferInt { drawbuffer: d, value: v } && d == drawbuffer && v@ == value
    }

    fn clear(drawbuffer: i32, value: &Vec<i32>) -> (r: GlCall) {
        let v = value.clone();
        assert(v@ =~= value@);
        GlCall::ClearBufferInt { drawbuffer, value: v }
    }
}

impl ColorClearable for u32 {
    open spec fn clears(c: GlCall, drawbuffer: i32, value: Seq<u32>) -> bool {
        c matches GlCall::ClearBufferUint { drawbuffer: d, value: v } && d == drawbuffer && v@ == value
    }

    fn clear(drawbuffer: i32, value: &Vec<u32>) -> (r: GlCall) {
        let v = value.clone();
        assert(v@ =~= value@);
        GlCall::ClearBufferUint { drawbuffer, value: v }
    }
}

/// A framebuffer with nothing attached reports a missing attachment. One
/// color image at color attachment 0 and a depth-stencil image of the same
/// size and sample count, with output going to color attachment 0, make it
/// complete, in either order of attaching.
pub proof fn lemma_color_and_depth_stencil_complete(color: ImageDesc, depth_stencil: ImageDesc)
    requires
        color.class == ImageClass::Color,
        depth_stencil.class == ImageClass::DepthStencil,
        color.width > 0,
        color.height > 0,
        depth_stencil.width == color.width,
        depth_stencil.height == color.height,
        depth_stencil.samples == color.samples,
    ensures
        status_of(Seq::empty(), seq![Some(0u32)]) == Some(Status::MissingAttachment),
        status_of(
            seq![(Attachment::Color(0), color), (Attachment::DepthStencil, depth_stencil)],
            seq![Some(0u32)],
        ) == None::<Status>,
        status_of(
            seq![(Attachment::DepthStencil, depth_stencil), (Attachment::Color(0), color)],
            seq![Some(0u32)],
        ) == None::<Status>,
{
    let e1 = seq![(Attachment::Color(0), color), (Attachment::DepthStencil, depth_stencil)];
    let e2 = seq![(Attachment::DepthStencil, depth_stencil), (Attachment::Color(0), color)];
    let d = seq![Some(0u32)];
    assert(!draws_nothing(e1, d[0])) by {
        assert(e1[0].0 == Attachment::Color(0));
    }
    assert(!draws_nothing(e2, d[0])) by {
        assert(e2[1].0 == Attachment::Color(0));
    }
    assert(forall|i: int| 0 <= i < 2 ==> !#[trigger] unfit(e1, i));
    assert(forall|i: int| 0 <= i < 2 ==> !#[trigger] unfit(e2, i));
    assert(forall|i: int| 0 <= i < 2 ==> !#[trigger] size_differs(e1, i));
    assert(forall|i: int| 0 <= i < 2 ==> !#[trigger] size_differs(e2, i));
    assert(forall|i: int| 0 <= i < 2 ==> !#[trigger] samples_differ(e1, i));
    assert(forall|i: int| 0 <= i < 2 ==> !#[trigger] samples_differ(e2, i));
}

} // verus!
