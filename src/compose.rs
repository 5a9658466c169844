//! Compositing off-screen textures into screen rectangles, and resolving
//! clicks to the rectangle drawn on top.
use crate::buffer::{
    unit_quad, unit_quad_spec, AccessFrequency, AccessType, Bindable, SlotBinding,
    VertexAttribArray, VertexAttribObject, VertexBuffer,
};
use crate::context::{Context, GlCall, HandleKind, UniformValue};
use crate::glenum;
use crate::program::{is_uniform, Program};
use crate::texture::Texture2D;
use vstd::prelude::*;

verus! {

/// Identifies a composited rectangle to the caller.
pub type WidgetId = u32;

/// A pair of pixel quantities.
#[derive(Clone, Copy, Debug, PartialEq, Eq, Structural)]
pub struct UVec2 {
    pub x: u32,
    pub y: u32,
}

/// An axis-aligned screen rectangle: its lower corner and its size.
#[derive(Clone, Copy, Debug, PartialEq, Eq, Structural)]
pub struct Quad {
    pub offset: UVec2,
    pub size: UVec2,
}

/// Whether `p` lies in `q`, lower edges included, upper edges excluded.
pub open spec fn quad_contains(q: Quad, p: UVec2) -> bool {
    &&& q.offset.x <= p.x < q.offset.x + q.size.x
    &&& q.offset.y <= p.y < q.offset.y + q.size.y
}

impl Quad {
    /// The empty rectangle at the origin.
    pub fn default() -> (r: Quad)
        ensures
            r == (Quad { offset: UVec2 { x: 0, y: 0 }, size: UVec2 { x: 0, y: 0 } }),
    {
        Quad { offset: UVec2 { x: 0, y: 0 }, size: UVec2 { x: 0, y: 0 } }
    }

    pub fn contains(&self, p: UVec2) -> (r: bool)
        ensures
            r == quad_contains(*self, p),
    {
        p.x >= self.offset.x && p.y >= self.offset.y && (p.x as u64) < (self.offset.x as u64)
            + (self.size.x as u64) && (p.y as u64) < (self.offset.y as u64) + (self.size.y as u64)
    }
}

/// The id of the last rectangle in `quads` that contains `p`.
pub open spec fn topmost(quads: Seq<(WidgetId, Quad)>, p: UVec2) -> Option<WidgetId>
    decreases quads.len(),
{
    if quads.len() == 0 {
        None
    } else if quad_contains(quads.last().1, p) {
        Some(quads.last().0)
    } else {
        topmost(quads.drop_last(), p)
    }
}

/// A rectangle drawn after the others wins every point it contains; with
/// nothing drawn no point hits.
pub proof fn lemma_topmost_wins(quads: Seq<(WidgetId, Quad)>, id: WidgetId, q: Quad, p: UVec2)
    requires
        quad_contains(q, p),
    ensures
        topmost(quads.push((id, q)), p) == Some(id),
        topmost(Seq::empty(), p) == None::<WidgetId>,
{
    assert(quads.push((id, q)).last() == (id, q));
}

/// Draws textures as screen rectangles and remembers, for the current
/// frame, which rectangle went where.
pub struct QuadComposer {
    quads: Vec<(WidgetId, Quad)>,
    vbo: VertexBuffer,
    vao: VertexAttribObject,
    program: Program,
    size: UVec2,
}

impl QuadComposer {
    /// The rectangles drawn this frame, oldest first.
    pub closed spec fn quads(&self) -> Seq<(WidgetId, Quad)> {
        self.quads@
    }

    /// The size of the viewport the projection maps.
    pub closed spec fn viewport(&self) -> UVec2 {
        self.size
    }

    pub closed spec fn program_id(&self) -> u64 {
        self.program.id_spec()
    }

    pub closed spec fn vao_id(&self) -> u64 {
        self.vao.id_spec()
    }

    /// The vertex array's slot bindings.
    pub closed spec fn slots(&self) -> Map<u32, SlotBinding> {
        self.vao.slots()
    }

    pub closed spec fn quad_buffer(&self) -> Seq<i32> {
        self.vbo.data_spec()
    }

    pub closed spec fn quad_buffer_id(&self) -> u64 {
        self.vbo.id_spec()
    }

    /// A composer for a viewport of `size`, drawing with `program`.
    pub fn new(ctx: &mut Context, size: UVec2, program: Program) -> (r: QuadComposer)
        requires
            old(ctx).wf(),
            old(ctx).has_room(2),
        ensures
            final(ctx).wf(),
            final(ctx).next_id() == old(ctx).next_id() + 2,
            r.quads() == Seq::<(WidgetId, Quad)>::empty(),
            r.viewport() == size,
            r.program_id() == program.id_spec(),
            r.quad_buffer_id() == old(ctx).next_id(),
            r.vao_id() == old(ctx).next_id() + 1,
            !old(ctx).live().contains(r.quad_buffer_id()),
            !old(ctx).live().contains(r.vao_id()),
            final(ctx).live() == old(ctx).live().insert(r.quad_buffer_id()).insert(r.vao_id()),
            r.quad_buffer() == unit_quad_spec(),
            r.slots() == map![
                0u32 => SlotBinding {
                    buffer: r.quad_buffer_id(),
                    components: 2,
                    ty: glenum::INT,
                    normalized: false,
                    stride: 0,
                    offset: 0,
                    divisor: 0,
                },
            ],
            ({
                let n = old(ctx).recorded().len() as int;
                let c = final(ctx).recorded();
                let b = r.quad_buffer_id();
                &&& c.len() == n + 8
                &&& c.subrange(0, n) == old(ctx).recorded()
                &&& c[n] == (GlCall::Generate { kind: HandleKind::Buffer, first: b, count: 1 })
                &&& c[n + 1] == (GlCall::BindBuffer { target: glenum::ARRAY_BUFFER, buffer: b })
                &&& c[n + 2] matches GlCall::BufferData { target: t, data: d, usage: u } && t
                    == glenum::ARRAY_BUFFER && d@ == unit_quad_spec() && u == glenum::STATIC_DRAW
                &&& c[n + 3] == (GlCall::Generate {
                    kind: HandleKind::VertexArray,
                    first: r.vao_id(),
                    count: 1,
                })
                &&& c[n + 4] == (GlCall::BindVertexArray { vao: r.vao_id() })
                &&& c[n + 5] == (GlCall::BindBuffer { target: glenum::ARRAY_BUFFER, buffer: b })
                &&& c[n + 6] == (GlCall::EnableVertexAttribArray { index: 0 })
                &&& c[n + 7] == (GlCall::VertexAttribPointer {
                    index: 0,
                    size: 2,
                    ty: glenum::INT,
                    normalized: false,
                    stride: 0,
                    offset: 0,
                })
            }),
    {
        let ghost s0 = ctx.recorded();
        let mut vbo = VertexBuffer::new(ctx);
        let ghost s1 = ctx.recorded();
        vbo.alloc_with(ctx, unit_quad(), AccessFrequency::Static, AccessType::Draw);
        let ghost s2 = ctx.recorded();
        let mut vao = VertexAttribObject::new(ctx);
        let ghost s3 = ctx.recorded();
        vao.vertex_attribute_array(
            ctx,
            &vbo,
            VertexAttribArray::<i32>::with_id(0).with_components_per_value(2),
        );
        let ghost s4 = ctx.recorded();
        proof {
            let n = s0.len() as int;
            assert(s4.subrange(0, s3.len() as int) =~= s3);
            assert(s3.subrange(0, s2.len() as int) =~= s2);
            assert(s2.subrange(0, s1.len() as int) =~= s1);
            assert(s4.subrange(0, n) =~= s0);
            assert(s4[n] == s1[n]);
            assert(s4[n + 1] == s2[n + 1]);
            assert(s4[n + 2] == s2[n + 2]);
            assert(s4[n + 3] == s3[n + 3]);
            assert(vao.slots() =~= map![
                0u32 => SlotBinding {
                    buffer: vbo.id_spec(),
                    components: 2,
                    ty: glenum::INT,
                    normalized: false,
                    stride: 0,
                    offset: 0,
                    divisor: 0,
                },
            ]);
        }
        QuadComposer { quads: Vec::new(), vbo, vao, program, size }
    }

    /// Draws `texture` into `quad` on the current target and records the
    /// rectangle under `id` for click resolution.
    pub fn render_quad(&mut self, ctx: &mut Context, id: WidgetId, quad: Quad, texture: &Texture2D)
        requires
            old(ctx).wf(),
        ensures
            final(self).quads() == old(self).quads().push((id, quad)),
            final(self).viewport() == old(self).viewport(),
            final(self).program_id() == old(self).program_id(),
            final(self).vao_id() == old(self).vao_id(),
            final(self).slots() == old(self).slots(),
            final(self).quad_buffer() == old(self).quad_buffer(),
            final(self).quad_buffer_id() == old(self).quad_buffer_id(),
            ({
                let n = old(ctx).recorded().len() as int;
                let c = final(ctx).recorded();
                let p = old(self).program_id();
                &&& final(ctx).wf()
                &&& final(ctx).live() == old(ctx).live()
                &&& final(ctx).next_id() == old(ctx).next_id()
                &&& c.len() == n + 9
                &&& c.subrange(0, n) == old(ctx).recorded()
                &&& c[n] == (GlCall::UseProgram { program: p })
                &&& c[n + 1] == (GlCall::ActiveTexture { unit: 0 })
                &&& c[n + 2] == (GlCall::BindTexture {
                    target: glenum::TEXTURE_2D,
                    texture: texture.id_spec(),
                })
                &&& is_uniform(c[n + 3], p, "texture"@, UniformValue::I32(0))
                &&& is_uniform(c[n + 4], p, "offset"@, UniformValue::Vec2Of(quad.offset.x, quad.offset.y))
                &&& is_uniform(c[n + 5], p, "dimensions"@, UniformValue::Vec2Of(quad.size.x, quad.size.y))
                &&& is_uniform(
                    c[n + 6],
                    p,
                    "projection"@,
                    UniformValue::Ortho { width: old(self).viewport().x, height: old(self).viewport().y },
                )
                &&& c[n + 7] == (GlCall::BindVertexArray { vao: old(self).vao_id() })
                &&& c[n + 8] == (GlCall::DrawArrays { mode: glenum::TRIANGLES, first: 0, count: 6 })
            }),
    {
        self.quads.push((id, quad));
        let ghost s0 = ctx.recorded();
        self.program.bind(ctx);
        let ghost s1 = ctx.recorded();
        assert(s1 =~= s0.push(s1.last()));
        texture.bind(ctx, 0);
        let ghost s2 = ctx.recorded();
        assert(s2 =~= s1.push(s2[s2.len() - 2]).push(s2.last()));
        self.program.uniform_i32(ctx, "texture", 0);
        let ghost s3 = ctx.recorded();
        assert(s3 =~= s2.push(s3.last()));
        self.program.uniform(ctx, "offset", UniformValue::Vec2Of(quad.offset.x, quad.offset.y));
        let ghost s4 = ctx.recorded();
        assert(s4 =~= s3.push(s4.last()));
        self.program.uniform(ctx, "dimensions", UniformValue::Vec2Of(quad.size.x, quad.size.y));
        let ghost s5 = ctx.recorded();
        assert(s5 =~= s4.push(s5.last()));
        self.program.uniform(
            ctx,
            "projection",
            UniformValue::Ortho { width: self.size.x, height: self.size.y },
        );
        let ghost s6 = ctx.recorded();
        assert(s6 =~= s5.push(s6.last()));
        self.vao.bind(ctx);
        let ghost s7 = ctx.recorded();
        assert(s7 =~= s6.push(s7.last()));
        ctx.record(GlCall::DrawArrays { mode: glenum::TRIANGLES, first: 0, count: 6 });
        let ghost s8 = ctx.recorded();
        assert(s8 =~= s7.push(s8.last()));
        assert(s8.subrange(0, s0.len() as int) =~= s0);
    }

    /// Follows a change of the viewport's size.
    pub fn resize(&mut self, size: UVec2)
        ensures
            final(self).viewport() == size,
            final(self).quads() == old(self).quads(),
            final(self).program_id() == old(self).program_id(),
            final(self).vao_id() == old(self).vao_id(),
            final(self).slots() == old(self).slots(),
            final(self).quad_buffer() == old(self).quad_buffer(),
            final(self).quad_buffer_id() == old(self).quad_buffer_id(),
    {
        self.size = size;
    }

    /// The id of the rectangle drawn last this frame that contains `p`.
    pub fn resolve_click(&self, p: UVec2) -> (r: Option<WidgetId>)
        ensures
            r == topmost(self.quads(), p),
    {
        let mut i: usize = self.quads.len();
        assert(self.quads@.subrange(0, i as int) =~= self.quads@);
        while i > 0
            invariant
                i <= self.quads@.len(),
                topmost(self.quads@, p) == topmost(self.quads@.subrange(0, i as int), p),
            decreases i,
        {
            let (id, q) = self.quads[i - 1];
            let ghost s = self.quads@.subrange(0, i as int);
            assert(s.drop_last() =~= self.quads@.subrange(0, i - 1));
            if q.contains(p) {
                return Some(id);
            }
            i = i - 1;
        }
        assert(self.quads@.subrange(0, 0) =~= Seq::<(WidgetId, Quad)>::empty());
        None
    }

    /// Forgets this frame's rectangles: until the next `render_quad`, no
    /// click resolves.
    pub fn end_frame(&mut self)
        ensures
            final(self).quads() == Seq::<(WidgetId, Quad)>::empty(),
            final(self).viewport() == old(self).viewport(),
            final(self).program_id() == old(self).program_id(),
            final(self).vao_id() == old(self).vao_id(),
            final(self).slots() == old(self).slots(),
            final(self).quad_buffer() == old(self).quad_buffer(),
            final(self).quad_buffer_id() == old(self).quad_buffer_id(),
    {
        self.quads.clear();
    }
}

impl QuadComposer {
    /// Deletes the composer's driver objects: its quad buffer, its vertex
    /// array and its program.
    pub fn delete(self, ctx: &mut Context)
        requires
            old(ctx).wf(),
        ensures
            final(ctx).wf(),
            final(ctx).live() == old(ctx).live().difference(
                set![self.quad_buffer_id(), self.vao_id(), self.program_id()],
            ),
    {
        let ghost ids = set![self.quad_buffer_id(), self.vao_id(), self.program_id()];
        let QuadComposer { vbo, vao, program, .. } = self;
        vbo.delete(ctx);
        vao.delete(ctx);
        program.delete(ctx);
        assert(ctx.live() =~= old(ctx).live().difference(ids));
    }
}

} // verus!
