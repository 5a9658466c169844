//! Vertex buffers, vertex-array objects and the attribute bindings that
//! connect them to shader input slots.
use crate::context::{Context, GlCall, Handle, HandleKind};
use crate::glenum;
use vstd::prelude::*;

verus! {

/// An object that can be made the driver's current one of its kind.
pub trait Bindable {
    /// The call that makes this object current.
    spec fn binding(&self) -> GlCall;

    /// The call that makes no object of this kind current.
    spec fn unbinding(&self) -> GlCall;

    fn bind(&self, ctx: &mut Context)
        requires
            old(ctx).wf(),
        ensures
            Context::appended(*old(ctx), *final(ctx), seq![self.binding()]),
    ;

    fn unbind(&self, ctx: &mut Context)
        requires
            old(ctx).wf(),
        ensures
            Context::appended(*old(ctx), *final(ctx), seq![self.unbinding()]),
    ;
}

/// A bindable source of vertex data.
pub trait Buffer: Bindable {
    /// The id of the buffer's driver object.
    spec fn buffer_id(&self) -> u64;
}

#[derive(Clone, Copy, Debug, PartialEq, Eq, Structural)]
pub enum AccessFrequency {
    Static,
    Stream,
    Dynamic,
}

#[derive(Clone, Copy, Debug, PartialEq, Eq, Structural)]
pub enum AccessType {
    Draw,
    Read,
    Copy,
}

/// The driver's usage hint for a frequency and kind of access.
pub open spec fn usage_of(freq: AccessFrequency, typ: AccessType) -> u32 {
    match (freq, typ) {
        (AccessFrequency::Static, AccessType::Draw) => glenum::STATIC_DRAW,
        (AccessFrequency::Static, AccessType::Read) => glenum::STATIC_READ,
        (AccessFrequency::Static, AccessType::Copy) => glenum::STATIC_COPY,
        (AccessFrequency::Stream, AccessType::Draw) => glenum::STREAM_DRAW,
        (AccessFrequency::Stream, AccessType::Read) => glenum::STREAM_READ,
        (AccessFrequency::Stream, AccessType::Copy) => glenum::STREAM_COPY,
        (AccessFrequency::Dynamic, AccessType::Draw) => glenum::DYNAMIC_DRAW,
        (AccessFrequency::Dynamic, AccessType::Read) => glenum::DYNAMIC_READ,
        (AccessFrequency::Dynamic, AccessType::Copy) => glenum::DYNAMIC_COPY,
    }
}

pub fn storage_type(freq: AccessFrequency, typ: AccessType) -> (r: u32)
    ensures
        r == usage_of(freq, typ),
{
    match (freq, typ) {
        (AccessFrequency::Static, AccessType::Draw) => glenum::STATIC_DRAW,
        (AccessFrequency::Static, AccessType::Read) => glenum::STATIC_READ,
        (AccessFrequency::Static, AccessType::Copy) => glenum::STATIC_COPY,
        (AccessFrequency::Stream, AccessType::Draw) => glenum::STREAM_DRAW,
        (AccessFrequency::Stream, AccessType::Read) => glenum::STREAM_READ,
        (AccessFrequency::Stream, AccessType::Copy) => glenum::STREAM_COPY,
        (AccessFrequency::Dynamic, AccessType::Draw) => glenum::DYNAMIC_DRAW,
        (AccessFrequency::Dynamic, AccessType::Read) => glenum::DYNAMIC_READ,
        (AccessFrequency::Dynamic, AccessType::Copy) => glenum::DYNAMIC_COPY,
    }
}

/// An element type that vertex data can be made of, with the driver's
/// name for it.
pub trait GlType {
    spec fn gl_enum() -> u32;

    fn to_enum() -> (r: u32)
        ensures
            r == Self::gl_enum(),
    ;
}

impl GlType for i32 {
    open spec fn gl_enum() -> u32 {
        glenum::INT
    }

    fn to_enum() -> (r: u32) {
        glenum::INT
    }
}

impl GlType for u32 {
    open spec fn gl_enum() -> u32 {
        glenum::UNSIGNED_INT
    }

    fn to_enum() -> (r: u32) {
        glenum::UNSIGNED_INT
    }
}

impl GlType for i16 {
    open spec fn gl_enum() -> u32 {
        glenum::SHORT
    }

    fn to_enum() -> (r: u32) {
        glenum::SHORT
    }
}

impl GlType for u16 {
    open spec fn gl_enum() -> u32 {
        glenum::UNSIGNED_SHORT
    }

    fn to_enum() -> (r: u32) {
        glenum::UNSIGNED_SHORT
    }
}

impl GlType for i8 {
    open spec fn gl_enum() -> u32 {
        glenum::BYTE
    }

    fn to_enum() -> (r: u32) {
        glenum::BYTE
    }
}

impl GlType for u8 {
    open spec fn gl_enum() -> u32 {
        glenum::UNSIGNED_BYTE
    }

    fn to_enum() -> (r: u32) {
        glenum::UNSIGNED_BYTE
    }
}

/// How a buffer's elements feed one shader input slot.
pub struct VertexAttribArray<T: GlType> {
    pub id: u32,
    /// Advance once every `divisor` instances instead of once per vertex.
    pub divisor: Option<u32>,
    pub ncomponents: i32,
    pub normalise: bool,
    pub stride: i32,
    pub offset: i32,
    pub element: core::marker::PhantomData<T>,
}

impl<T: GlType> VertexAttribArray<T> {
    /// A binding of slot `id`: one component per vertex, tightly packed,
    /// not normalised, advancing per vertex.
    pub fn with_id(id: u32) -> (r: Self)
        ensures
            r.id == id,
            r.divisor == None::<u32>,
            r.ncomponents == 1,
            !r.normalise,
            r.stride == 0,
            r.offset == 0,
    {
        VertexAttribArray {
            id,
            divisor: None,
            ncomponents: 1,
            normalise: false,
            stride: 0,
            offset: 0,
            element: core::marker::PhantomData,
        }
    }

    pub fn normalise(self) -> (r: Self)
        ensures
            r == (Self { normalise: true, ..self }),
    {
        VertexAttribArray { normalise: true, ..self }
    }

    pub fn with_divisor(self, divisor: u32) -> (r: Self)
        ensures
            r == (Self { divisor: Some(divisor), ..self }),
    {
        VertexAttribArray { divisor: Some(divisor), ..self }
    }

    pub fn with_components_per_value(self, ncomponents: i32) -> (r: Self)
        ensures
            r == (Self { ncomponents, ..self }),
    {
        VertexAttribArray { ncomponents, ..self }
    }

    pub fn with_stride(self, stride: i32) -> (r: Self)
        ensures
            r == (Self { stride, ..self }),
    {
        VertexAttribArray { stride, ..self }
    }

    pub fn with_offset(self, offset: i32) -> (r: Self)
        ensures
            r == (Self { offset, ..self }),
    {
        VertexAttribArray { offset, ..self }
    }
}

/// Why a buffer operation was refused.
#[derive(Clone, Copy, Debug, PartialEq, Eq, Structural)]
pub enum BufferError {
    /// The write would reach past the buffer's allocated elements.
    OutOfRange,
}

/// A buffer of vertex data owned by the library.
pub struct VertexBuffer {
    handle: Handle,
    store: Stored,
}

/// The element count of a buffer together with what its elements hold.
struct Stored {
    len: usize,
    data: Ghost<Seq<i32>>,
}

impl VertexBuffer {
    #[verifier::type_invariant]
    spec fn inv(&self) -> bool {
        &&& self.handle.kind_spec() == HandleKind::Buffer
        &&& self.store.data@.len() == self.store.len
    }

    pub closed spec fn id_spec(&self) -> u64 {
        self.handle.id_spec()
    }

    /// The number of elements allocated.
    pub closed spec fn len_spec(&self) -> nat {
        self.store.len as nat
    }

    /// The elements the driver holds, as far as the library wrote them.
    pub closed spec fn data_spec(&self) -> Seq<i32> {
        self.store.data@
    }

    pub fn id(&self) -> (r: u64)
        ensures
            r == self.id_spec(),
    {
        self.handle.id()
    }

    pub fn len(&self) -> (r: usize)
        ensures
            r == self.len_spec(),
    {
        self.store.len
    }

    pub fn new(ctx: &mut Context) -> (r: Self)
        requires
            old(ctx).wf(),
            old(ctx).has_room(1),
        ensures
            final(ctx).wf(),
            r.len_spec() == 0,
            r.data_spec() == Seq::<i32>::empty(),
            r.id_spec() == old(ctx).next_id(),
            r.id_spec() != 0,
            !old(ctx).live().contains(r.id_spec()),
            final(ctx).live() == old(ctx).live().insert(r.id_spec()),
            final(ctx).next_id() == old(ctx).next_id() + 1,
            final(ctx).recorded() == old(ctx).recorded().push(
                GlCall::Generate { kind: HandleKind::Buffer, first: old(ctx).next_id(), count: 1 },
            ),
    {
        VertexBuffer { handle: ctx.generate_one(HandleKind::Buffer), store: Stored { len: 0, data: Ghost(Seq::empty()) } }
    }

    /// `count` buffers from one driver call, with consecutive fresh ids.
    pub fn new_array(ctx: &mut Context, count: u64) -> (r: Vec<Self>)
        requires
            old(ctx).wf(),
            old(ctx).has_room(count as nat),
        ensures
            final(ctx).wf(),
            r.len() == count,
            forall|i: int|
                0 <= i < r.len() ==> (#[trigger] r[i]).id_spec() == old(ctx).next_id() + i
                    && r[i].id_spec() != 0 && !old(ctx).live().contains(r[i].id_spec())
                    && r[i].len_spec() == 0 && r[i].data_spec() == Seq::<i32>::empty(),
            final(ctx).next_id() == old(ctx).next_id() + count,
            final(ctx).live() == old(ctx).live().union(
                Set::new(|id: u64| old(ctx).next_id() <= id < old(ctx).next_id() + count),
            ),
            final(ctx).recorded() == old(ctx).recorded().push(
                GlCall::Generate { kind: HandleKind::Buffer, first: old(ctx).next_id(), count },
            ),
    {
        let mut handles = ctx.generate(HandleKind::Buffer, count);
        let ghost first = old(ctx).next_id();
        let mut buffers: Vec<VertexBuffer> = Vec::new();
        while handles.len() > 0
            invariant
                buffers.len() + handles.len() == count,
                forall|i: int|
                    0 <= i < handles.len() ==> (#[trigger] handles[i]).id_spec() == first
                        + buffers.len() + i && handles[i].kind_spec() == HandleKind::Buffer,
                forall|i: int|
                    0 <= i < buffers.len() ==> (#[trigger] buffers[i]).id_spec() == first + i
                        && buffers[i].len_spec() == 0 && buffers[i].data_spec() == Seq::<i32>::empty(),
            decreases handles.len(),
        {
            let h = handles.remove(0);
            buffers.push(VertexBuffer { handle: h, store: Stored { len: 0, data: Ghost(Seq::empty()) } });
        }
        buffers
    }

    /// Fills the buffer with `data`, replacing its storage.
    pub fn alloc_with(
        &mut self,
        ctx: &mut Context,
        data: Vec<i32>,
        freq: AccessFrequency,
        typ: AccessType,
    )
        requires
            old(ctx).wf(),
        ensures
            final(self).id_spec() == old(self).id_spec(),
            final(self).len_spec() == data.len(),
            final(self).data_spec() == data@,
            Context::appended(
                *old(ctx),
                *final(ctx),
                seq![
                    GlCall::BindBuffer { target: glenum::ARRAY_BUFFER, buffer: old(self).id_spec() },
                    GlCall::BufferData {
                        target: glenum::ARRAY_BUFFER,
                        data,
                        usage: usage_of(freq, typ),
                    },
                ],
            ),
    {
        proof {
            use_type_invariant(&*self);
        }
        let ghost d = data;
        self.bind(ctx);
        self.store = Stored { len: data.len(), data: Ghost(data@) };
        let usage = storage_type(freq, typ);
        ctx.record(GlCall::BufferData { target: glenum::ARRAY_BUFFER, data, usage });
        assert(ctx.recorded() =~= old(ctx).recorded() + seq![
            GlCall::BindBuffer { target: glenum::ARRAY_BUFFER, buffer: old(self).id_spec() },
            GlCall::BufferData { target: glenum::ARRAY_BUFFER, data: d, usage: usage_of(freq, typ) },
        ]);
    }

    /// Overwrites elements `offset .. offset + data.len()`. A write that
    /// reaches past the allocated elements is refused before any call.
    pub fn replace_sub_data(&mut self, ctx: &mut Context, offset: usize, data: Vec<i32>) -> (r: Result<
        (),
        BufferError,
    >)
        requires
            old(ctx).wf(),
        ensures
            r is Err <==> offset + data.len() > old(self).len_spec(),
            r is Err ==> *final(ctx) == *old(ctx) && *final(self) == *old(self),
            final(self).id_spec() == old(self).id_spec(),
            final(self).len_spec() == old(self).len_spec(),
            old(self).data_spec().len() == old(self).len_spec(),
            r is Ok ==> final(self).data_spec() == old(self).data_spec().subrange(0, offset as int)
                + data@ + old(self).data_spec().subrange(
                offset + data.len(),
                old(self).len_spec() as int,
            ),
            r is Ok ==> Context::appended(
                *old(ctx),
                *final(ctx),
                seq![
                    GlCall::BindBuffer { target: glenum::ARRAY_BUFFER, buffer: old(self).id_spec() },
                    GlCall::BufferSubData {
                        target: glenum::ARRAY_BUFFER,
                        offset: offset as u64,
                        data,
                    },
                ],
            ),
    {
        proof {
            use_type_invariant(&*self);
        }
        if data.len() > self.store.len || offset > self.store.len - data.len() {
            return Err(BufferError::OutOfRange);
        }
        proof {
            use_type_invariant(&*self);
        }
        let ghost d = data;
        self.bind(ctx);
        let ghost before = self.store.data@;
        let len = self.store.len;
        self.store = Stored {
            len,
            data: Ghost(
                before.subrange(0, offset as int) + d@ + before.subrange(
                    offset + d.len(),
                    before.len() as int,
                ),
            ),
        };
        ctx.record(
            GlCall::BufferSubData { target: glenum::ARRAY_BUFFER, offset: offset as u64, data },
        );
        assert(ctx.recorded() =~= old(ctx).recorded() + seq![
            GlCall::BindBuffer { target: glenum::ARRAY_BUFFER, buffer: self.id_spec() },
            GlCall::BufferSubData { target: glenum::ARRAY_BUFFER, offset: offset as u64, data: d },
        ]);
        Ok(())
    }

    /// Deletes the driver object.
    pub fn delete(self, ctx: &mut Context)
        requires
            old(ctx).wf(),
        ensures
            final(ctx).wf(),
            final(ctx).live() == old(ctx).live().remove(self.id_spec()),
            final(ctx).recorded() == old(ctx).recorded().push(
                GlCall::Delete { kind: HandleKind::Buffer, id: self.id_spec() },
            ),
    {
        proof {
            use_type_invariant(&self);
        }
        let VertexBuffer { handle, .. } = self;
        ctx.release(handle);
    }
}

impl Bindable for VertexBuffer {
    open spec fn binding(&self) -> GlCall {
        GlCall::BindBuffer { target: glenum::ARRAY_BUFFER, buffer: self.id_spec() }
    }

    open spec fn unbinding(&self) -> GlCall {
        GlCall::BindBuffer { target: glenum::ARRAY_BUFFER, buffer: 0 }
    }

    fn bind(&self, ctx: &mut Context) {
        ctx.record(GlCall::BindBuffer { target: glenum::ARRAY_BUFFER, buffer: self.id() });
    }

    fn unbind(&self, ctx: &mut Context) {
        ctx.record(GlCall::BindBuffer { target: glenum::ARRAY_BUFFER, buffer: 0 });
    }
}

impl Buffer for VertexBuffer {
    open spec fn buffer_id(&self) -> u64 {
        self.id_spec()
    }
}

/// The calls that bind `attrib` of element type `ty` to the current
/// buffer: enable the slot, set its divisor if it has one, describe its
/// layout.
pub open spec fn attrib_calls<T: GlType>(attrib: VertexAttribArray<T>) -> Seq<GlCall> {
    let enable = seq![GlCall::EnableVertexAttribArray { index: attrib.id }];
    let divisor = match attrib.divisor {
        Some(d) => seq![GlCall::VertexAttribDivisor { index: attrib.id, divisor: d }],
        None => Seq::<GlCall>::empty(),
    };
    enable + divisor + seq![
        GlCall::VertexAttribPointer {
            index: attrib.id,
            size: attrib.ncomponents,
            ty: T::gl_enum(),
            normalized: attrib.normalise,
            stride: attrib.stride,
            offset: attrib.offset,
        },
    ]
}

/// A vertex-array object: the record of which buffer feeds which slot.
pub struct VertexAttribObject {
    handle: Handle,
    slots: Ghost<Map<u32, SlotBinding>>,
}

/// What feeds one shader input slot of a vertex array.
#[derive(Clone, Copy, Debug, PartialEq, Eq, Structural)]
pub struct SlotBinding {
    pub buffer: u64,
    pub components: i32,
    pub ty: u32,
    pub normalized: bool,
    pub stride: i32,
    pub offset: i32,
    /// 0 advances per vertex; `d` advances once every `d` instances.
    pub divisor: u32,
}

/// Slot `attrib.id` after binding `buffer` to it. A binding without a
/// divisor keeps the slot's earlier divisor, which starts at 0.
pub open spec fn bound_slot<T: GlType>(
    slots: Map<u32, SlotBinding>,
    buffer: u64,
    attrib: VertexAttribArray<T>,
) -> SlotBinding {
    SlotBinding {
        buffer,
        components: attrib.ncomponents,
        ty: T::gl_enum(),
        normalized: attrib.normalise,
        stride: attrib.stride,
        offset: attrib.offset,
        divisor: match attrib.divisor {
            Some(d) => d,
            None => if slots.contains_key(attrib.id) {
                slots[attrib.id].divisor
            } else {
                0
            },
        },
    }
}

impl VertexAttribObject {
    #[verifier::type_invariant]
    spec fn inv(&self) -> bool {
        self.handle.kind_spec() == HandleKind::VertexArray
    }

    pub closed spec fn id_spec(&self) -> u64 {
        self.handle.id_spec()
    }

    /// The bound slots and what feeds each.
    pub closed spec fn slots(&self) -> Map<u32, SlotBinding> {
        self.slots@
    }

    pub fn id(&self) -> (r: u64)
        ensures
            r == self.id_spec(),
    {
        self.handle.id()
    }

    pub fn new(ctx: &mut Context) -> (r: Self)
        requires
            old(ctx).wf(),
            old(ctx).has_room(1),
        ensures
            final(ctx).wf(),
            r.slots() == Map::<u32, SlotBinding>::empty(),
            r.id_spec() == old(ctx).next_id(),
            r.id_spec() != 0,
            !old(ctx).live().contains(r.id_spec()),
            final(ctx).live() == old(ctx).live().insert(r.id_spec()),
            final(ctx).next_id() == old(ctx).next_id() + 1,
            final(ctx).recorded() == old(ctx).recorded().push(
                GlCall::Generate {
                    kind: HandleKind::VertexArray,
                    first: old(ctx).next_id(),
                    count: 1,
                },
            ),
    {
        VertexAttribObject { handle: ctx.generate_one(HandleKind::VertexArray), slots: Ghost(Map::empty()) }
    }

    /// `count` vertex arrays from one driver call, with consecutive fresh ids.
    pub fn new_array(ctx: &mut Context, count: u64) -> (r: Vec<Self>)
        requires
            old(ctx).wf(),
            old(ctx).has_room(count as nat),
        ensures
            final(ctx).wf(),
            r.len() == count,
            forall|i: int| 0 <= i < r.len() ==> (#[trigger] r[i]).id_spec() == old(ctx).next_id() + i
                    && r[i].id_spec() != 0 && !old(ctx).live().contains(r[i].id_spec())
                    && r[i].slots() == Map::<u32, SlotBinding>::empty(),
            final(ctx).next_id() == old(ctx).next_id() + count,
            final(ctx).live() == old(ctx).live().union(
                Set::new(|id: u64| old(ctx).next_id() <= id < old(ctx).next_id() + count),
            ),
            final(ctx).recorded() == old(ctx).recorded().push(
                GlCall::Generate { kind: HandleKind::VertexArray, first: old(ctx).next_id(), count },
            ),
    {
        let mut handles = ctx.generate(HandleKind::VertexArray, count);
        let ghost first = old(ctx).next_id();
        let mut arrays: Vec<VertexAttribObject> = Vec::new();
        while handles.len() > 0
            invariant
                arrays.len() + handles.len() == count,
                forall|i: int|
                    0 <= i < handles.len() ==> (#[trigger] handles[i]).id_spec() == first
                        + arrays.len() + i && handles[i].kind_spec() == HandleKind::VertexArray,
                forall|i: int|
                    0 <= i < arrays.len() ==> (#[trigger] arrays[i]).id_spec() == first + i
                        && arrays[i].slots() == Map::<u32, SlotBinding>::empty(),
            decreases handles.len(),
        {
            let h = handles.remove(0);
            arrays.push(VertexAttribObject { handle: h, slots: Ghost(Map::empty()) });
        }
        arrays
    }

    /// Makes `buffer` the source of slot `attrib.id` for later draws with
    /// this vertex array.
    pub fn vertex_attribute_array<T: GlType, B: Buffer>(
        &mut self,
        ctx: &mut Context,
        buffer: &B,
        attrib: VertexAttribArray<T>,
    )
        requires
            old(ctx).wf(),
        ensures
            final(self).id_spec() == old(self).id_spec(),
            final(self).slots() == old(self).slots().insert(
                attrib.id,
                bound_slot(old(self).slots(), buffer.buffer_id(), attrib),
            ),
            Context::appended(
                *old(ctx),
                *final(ctx),
                seq![old(self).binding(), buffer.binding()] + attrib_calls(attrib),
            ),
    {
        proof {
            use_type_invariant(&*self);
        }
        let ghost prev = self.slots@;
        self.slots = Ghost(prev.insert(attrib.id, bound_slot(prev, buffer.buffer_id(), attrib)));
        self.bind(ctx);
        buffer.bind(ctx);
        ctx.record(GlCall::EnableVertexAttribArray { index: attrib.id });
        match attrib.divisor {
            Some(d) => ctx.record(GlCall::VertexAttribDivisor { index: attrib.id, divisor: d }),
            None => {},
        }
        let ty = T::to_enum();
        ctx.record(
            GlCall::VertexAttribPointer {
                index: attrib.id,
                size: attrib.ncomponents,
                ty,
                normalized: attrib.normalise,
                stride: attrib.stride,
                offset: attrib.offset,
            },
        );
        assert(ctx.recorded() =~= old(ctx).recorded() + (seq![old(self).binding(), buffer.binding()]
            + attrib_calls(attrib)));
    }

    /// Deletes the driver object.
    pub fn delete(self, ctx: &mut Context)
        requires
            old(ctx).wf(),
        ensures
            final(ctx).wf(),
            final(ctx).live() == old(ctx).live().remove(self.id_spec()),
            final(ctx).recorded() == old(ctx).recorded().push(
                GlCall::Delete { kind: HandleKind::VertexArray, id: self.id_spec() },
            ),
    {
        proof {
            use_type_invariant(&self);
        }
        let VertexAttribObject { handle, .. } = self;
        ctx.release(handle);
    }
}

impl Bindable for VertexAttribObject {
    open spec fn binding(&self) -> GlCall {
        GlCall::BindVertexArray { vao: self.id_spec() }
    }

    open spec fn unbinding(&self) -> GlCall {
        GlCall::BindVertexArray { vao: 0 }
    }

    fn bind(&self, ctx: &mut Context) {
        ctx.record(GlCall::BindVertexArray { vao: self.id() });
    }

    fn unbind(&self, ctx: &mut Context) {
        ctx.record(GlCall::BindVertexArray { vao: 0 });
    }
}

/// The two triangles of the unit square, as six `x`, `y` vertex pairs.
pub open spec fn unit_quad_spec() -> Seq<i32> {
    seq![0i32, 0, 0, 1, 1, 1, 0, 0, 1, 0, 1, 1]
}

pub fn unit_quad() -> (r: Vec<i32>)
    ensures
        r@ == unit_quad_spec(),
{
    let r = vec![0i32, 0, 0, 1, 1, 1, 0, 0, 1, 0, 1, 1];
    assert(r@ =~= unit_quad_spec());
    r
}

} // verus!
