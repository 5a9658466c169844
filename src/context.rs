//! The driver-side world as the library sees it: owned handles, the
//! calls that the library asks the driver to make, and the context that
//! allocates the first and records the second.
//!
//! Every operation of the library appends the driver calls it needs, in
//! order, to the context. An executor outside the library replays them on
//! the thread that owns the graphics context. Handle identifiers are the
//! library's own; the executor maps each to the name that the driver gave
//! it when the handle was generated.
use vstd::prelude::*;

verus! {

/// The kinds of driver object that the library owns.
#[derive(Clone, Copy, Debug, PartialEq, Eq, Structural)]
pub enum HandleKind {
    Buffer,
    VertexArray,
    Texture,
    Renderbuffer,
    Framebuffer,
    Shader,
    Program,
}

/// A driver object with exactly one owner.
///
/// `Handle` is neither `Copy` nor `Clone`: the only way to end its life is
/// to give it back to `Context::release`, which consumes it.
#[derive(Debug)]
pub struct Handle {
    kind: HandleKind,
    id: u64,
}

impl Handle {
    pub closed spec fn kind_spec(&self) -> HandleKind {
        self.kind
    }

    pub closed spec fn id_spec(&self) -> u64 {
        self.id
    }

    pub fn kind(&self) -> (r: HandleKind)
        ensures
            r == self.kind_spec(),
    {
        self.kind
    }

    pub fn id(&self) -> (r: u64)
        ensures
            r == self.id_spec(),
    {
        self.id
    }
}

/// A value handed to a shader uniform. Floating-point values are described
/// by the integers they are made of; the executor performs the conversion.
#[derive(Clone, Copy, Debug, PartialEq, Eq, Structural)]
pub enum UniformValue {
    I32(i32),
    IVec2(i32, i32),
    IVec3(i32, i32, i32),
    IVec4(i32, i32, i32, i32),
    /// A float equal to the integer.
    FloatOf(u32),
    /// A two-component float vector equal to the integers.
    Vec2Of(u32, u32),
    /// The two-component float vector `(x / den, y / den)`.
    Vec2Ratio { x: u64, y: u64, den: u64 },
    /// The projection matrix that the caller supplies for the frame.
    Projection,
    /// The orthographic projection of a `width` by `height` pixel viewport
    /// onto clip space, depths -1 to 100.
    Ortho { width: u32, height: u32 },
}

/// One call into the driver. Object operands are library handle ids; `0`
/// stands for "no object" (unbinding).
#[derive(Debug, PartialEq, Eq)]
pub enum GlCall {
    /// Generate `count` objects of one kind, named `first`, `first + 1`, ...
    Generate { kind: HandleKind, first: u64, count: u64 },
    CreateShader { shader: u64, stage: u32 },
    CreateProgram { program: u64 },
    Delete { kind: HandleKind, id: u64 },
    BindBuffer { target: u32, buffer: u64 },
    BufferData { target: u32, data: Vec<i32>, usage: u32 },
    /// Overwrite `data.len()` elements starting at element `offset`.
    BufferSubData { target: u32, offset: u64, data: Vec<i32> },
    BindVertexArray { vao: u64 },
    EnableVertexAttribArray { index: u32 },
    VertexAttribDivisor { index: u32, divisor: u32 },
    VertexAttribPointer {
        index: u32,
        size: i32,
        ty: u32,
        normalized: bool,
        stride: i32,
        offset: i32,
    },
    ActiveTexture { unit: u32 },
    BindTexture { target: u32, texture: u64 },
    TexImage2D {
        internal_format: u32,
        width: u32,
        height: u32,
        format: u32,
        data: Option<Vec<u8>>,
    },
    TexSubImage2D { x: u32, y: u32, width: u32, height: u32, format: u32, data: Vec<u8> },
    GenerateMipmap { target: u32 },
    TexParameter { target: u32, pname: u32, value: u32 },
    BindFramebuffer { framebuffer: u64 },
    FramebufferTexture { attachment: u32, texture: u64 },
    BindRenderbuffer { renderbuffer: u64 },
    FramebufferRenderbuffer { attachment: u32, renderbuffer: u64 },
    RenderbufferStorageMultisample { samples: u32, internal_format: u32, width: u32, height: u32 },
    DrawBuffers { buffers: Vec<u32> },
    ClearBufferInt { drawbuffer: i32, value: Vec<i32> },
    ClearBufferUint { drawbuffer: i32, value: Vec<u32> },
    ShaderSource { shader: u64, source: String },
    CompileShader { shader: u64 },
    AttachShader { program: u64, shader: u64 },
    DetachShader { program: u64, shader: u64 },
    LinkProgram { program: u64 },
    UseProgram { program: u64 },
    Uniform { program: u64, name: String, value: UniformValue },
    DrawArrays { mode: u32, first: i32, count: i32 },
    DrawArraysInstanced { mode: u32, first: i32, count: i32, instances: i32 },
    DrawArraysInstancedBaseInstance {
        mode: u32,
        first: i32,
        count: i32,
        instances: i32,
        base_instance: u32,
    },
}

/// Allocates handles and records driver calls.
pub struct Context {
    next: u64,
    live: Ghost<Set<u64>>,
    calls: Vec<GlCall>,
}

impl Context {
    /// The calls recorded and not yet taken, oldest first.
    pub closed spec fn recorded(&self) -> Seq<GlCall> {
        self.calls@
    }

    /// The ids of the handles that are alive.
    pub closed spec fn live(&self) -> Set<u64> {
        self.live@
    }

    /// The id that the next allocation hands out.
    pub closed spec fn next_id(&self) -> u64 {
        self.next
    }

    pub closed spec fn wf(&self) -> bool {
        &&& self.next >= 1
        &&& forall|i: u64| #[trigger] self.live@.contains(i) ==> 1 <= i < self.next
    }

    /// Room is left for `n` more handles.
    pub open spec fn has_room(&self, n: nat) -> bool {
        self.next_id() + n <= u64::MAX
    }

    /// What the context holds after `calls` were appended to `old`, with
    /// handles unchanged.
    pub open spec fn appended(old: Context, new: Context, calls: Seq<GlCall>) -> bool {
        &&& new.wf()
        &&& new.recorded() == old.recorded() + calls
        &&& new.live() == old.live()
        &&& new.next_id() == old.next_id()
    }

    pub fn new() -> (r: Context)
        ensures
            r.wf(),
            r.recorded() == Seq::<GlCall>::empty(),
            r.live() == Set::<u64>::empty(),
            r.next_id() == 1,
    {
        Context { next: 1, live: Ghost(Set::empty()), calls: Vec::new() }
    }

    pub fn calls(&self) -> (r: &Vec<GlCall>)
        ensures
            r@ == self.recorded(),
    {
        &self.calls
    }

    /// Hands the recorded calls over for execution and forgets them.
    pub fn take_calls(&mut self) -> (r: Vec<GlCall>)
        requires
            old(self).wf(),
        ensures
            r@ == old(self).recorded(),
            final(self).wf(),
            final(self).recorded() == Seq::<GlCall>::empty(),
            final(self).live() == old(self).live(),
            final(self).next_id() == old(self).next_id(),
    {
        let mut taken = Vec::new();
        std::mem::swap(&mut taken, &mut self.calls);
        taken
    }

    /// Appends one call.
    pub fn record(&mut self, call: GlCall)
        requires
            old(self).wf(),
        ensures
            Context::appended(*old(self), *final(self), seq![call]),
    {
        let ghost c = call;
        self.calls.push(call);
        assert(self.calls@ =~= old(self).calls@ + seq![c]);
    }

    /// Allocates `count` handles of one kind with a single driver call.
    ///
    /// The handles have distinct ids, none of which was alive before, and
    /// each can be released on its own.
    pub fn generate(&mut self, kind: HandleKind, count: u64) -> (r: Vec<Handle>)
        requires
            old(self).wf(),
            old(self).has_room(count as nat),
            kind != HandleKind::Shader,
            kind != HandleKind::Program,
        ensures
            final(self).wf(),
            r.len() == count,
            forall|i: int| 0 <= i < r.len() ==> (#[trigger] r[i]).kind_spec() == kind,
            forall|i: int| 0 <= i < r.len() ==> !old(self).live().contains((#[trigger] r[i]).id_spec()),
            forall|i: int, j: int|
                0 <= i < r.len() && 0 <= j < r.len() && i != j ==> (#[trigger] r[i]).id_spec()
                    != (#[trigger] r[j]).id_spec(),
            forall|i: int| 0 <= i < r.len() ==> r[i].id_spec() == old(self).next_id() + i,
            old(self).next_id() >= 1,
            forall|id: u64| id >= old(self).next_id() ==> !old(self).live().contains(id),
            final(self).live() == old(self).live().union(
                Set::new(|id: u64| old(self).next_id() <= id < old(self).next_id() + count),
            ),
            final(self).next_id() == old(self).next_id() + count,
            final(self).recorded() == old(self).recorded().push(
                GlCall::Generate { kind, first: old(self).next_id(), count },
            ),
    {
        let first = self.next;
        let mut handles: Vec<Handle> = Vec::new();
        let mut k: u64 = 0;
        while k < count
            invariant
                self.next == first,
                first + count <= u64::MAX,
                k <= count,
                handles.len() == k,
                forall|i: int| 0 <= i < handles.len() ==> (#[trigger] handles[i]).kind == kind,
                forall|i: int| 0 <= i < handles.len() ==> (#[trigger] handles[i]).id == first + i,
            decreases count - k,
        {
            handles.push(Handle { kind, id: first + k });
            k = k + 1;
        }
        self.next = first + count;
        self.live = Ghost(self.live@.union(Set::new(|id: u64| first <= id < first + count)));
        self.calls.push(GlCall::Generate { kind, first, count });
        handles
    }

    /// Allocates one handle of one kind.
    pub fn generate_one(&mut self, kind: HandleKind) -> (r: Handle)
        requires
            old(self).wf(),
            old(self).has_room(1),
            kind != HandleKind::Shader,
            kind != HandleKind::Program,
        ensures
            final(self).wf(),
            r.kind_spec() == kind,
            r.id_spec() == old(self).next_id(),
            r.id_spec() != 0,
            !old(self).live().contains(r.id_spec()),
            final(self).live() == old(self).live().insert(r.id_spec()),
            final(self).next_id() == old(self).next_id() + 1,
            final(self).recorded() == old(self).recorded().push(
                GlCall::Generate { kind, first: old(self).next_id(), count: 1 },
            ),
    {
        let mut hs = self.generate(kind, 1);
        assert(self.live() =~= old(self).live().insert(old(self).next_id()));
        hs.pop().unwrap()
    }

    /// Allocates a shader object for one stage.
    pub fn create_shader(&mut self, stage: u32) -> (r: Handle)
        requires
            old(self).wf(),
            old(self).has_room(1),
        ensures
            final(self).wf(),
            r.kind_spec() == HandleKind::Shader,
            r.id_spec() == old(self).next_id(),
            r.id_spec() != 0,
            !old(self).live().contains(r.id_spec()),
            final(self).live() == old(self).live().insert(r.id_spec()),
            final(self).next_id() == old(self).next_id() + 1,
            final(self).recorded() == old(self).recorded().push(
                GlCall::CreateShader { shader: old(self).next_id(), stage },
            ),
    {
        let id = self.next;
        self.next = id + 1;
        self.live = Ghost(self.live@.insert(id));
        self.calls.push(GlCall::CreateShader { shader: id, stage });
        Handle { kind: HandleKind::Shader, id }
    }

    /// Allocates a program object.
    pub fn create_program(&mut self) -> (r: Handle)
        requires
            old(self).wf(),
            old(self).has_room(1),
        ensures
            final(self).wf(),
            r.kind_spec() == HandleKind::Program,
            r.id_spec() == old(self).next_id(),
            r.id_spec() != 0,
            !old(self).live().contains(r.id_spec()),
            final(self).live() == old(self).live().insert(r.id_spec()),
            final(self).next_id() == old(self).next_id() + 1,
            final(self).recorded() == old(self).recorded().push(
                GlCall::CreateProgram { program: old(self).next_id() },
            ),
    {
        let id = self.next;
        self.next = id + 1;
        self.live = Ghost(self.live@.insert(id));
        self.calls.push(GlCall::CreateProgram { program: id });
        Handle { kind: HandleKind::Program, id }
    }

    /// Ends the life of a handle: the driver object is deleted once, and
    /// every other handle stays alive.
    pub fn release(&mut self, handle: Handle)
        requires
            old(self).wf(),
        ensures
            final(self).wf(),
            final(self).live() == old(self).live().remove(handle.id_spec()),
            forall|id: u64| id != handle.id_spec() ==> (old(self).live().contains(id) <==> final(self).live().contains(id)),
            final(self).next_id() == old(self).next_id(),
            final(self).recorded() == old(self).recorded().push(
                GlCall::Delete { kind: handle.kind_spec(), id: handle.id_spec() },
            ),
    {
        let Handle { kind, id } = handle;
        self.live = Ghost(self.live@.remove(id));
        self.calls.push(GlCall::Delete { kind, id });
    }
}

} // verus!
