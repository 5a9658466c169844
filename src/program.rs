//! Shader stages and linked programs.
//!
//! Compiling and linking happen in the driver, after the recorded calls
//! are executed. Each is therefore two steps: `Shader::from_source` and
//! `ProgramBuilder::link` record the work, and `Shader::check_compiled`
//! and `Program::check_linked` take the driver's verdict and diagnostic
//! text and decide what the caller gets.
use crate::context::{Context, GlCall, Handle, HandleKind, UniformValue};
use crate::glenum;
use vstd::prelude::*;

verus! {

#[derive(Clone, Copy, Debug, Eq, PartialEq, Structural)]
pub enum ShaderType {
    Vertex,
    Fragment,
}

pub open spec fn stage_value(t: ShaderType) -> u32 {
    match t {
        ShaderType::Vertex => glenum::VERTEX_SHADER,
        ShaderType::Fragment => glenum::FRAGMENT_SHADER,
    }
}

impl ShaderType {
    pub fn gl_value(self) -> (r: u32)
        ensures
            r == stage_value(self),
    {
        match self {
            ShaderType::Vertex => glenum::VERTEX_SHADER,
            ShaderType::Fragment => glenum::FRAGMENT_SHADER,
        }
    }
}

/// A shader stage object owned by the library.
pub struct Shader {
    handle: Handle,
    stage: ShaderType,
}

/// `c` hands `source` to shader `shader`.
pub open spec fn is_shader_source(c: GlCall, shader: u64, source: Seq<char>) -> bool {
    c matches GlCall::ShaderSource { shader: s, source: t } && s == shader && t@ == source
}

impl Shader {
    #[verifier::type_invariant]
    spec fn inv(&self) -> bool {
        self.handle.kind_spec() == HandleKind::Shader
    }

    pub closed spec fn id_spec(&self) -> u64 {
        self.handle.id_spec()
    }

    pub closed spec fn stage_spec(&self) -> ShaderType {
        self.stage
    }

    pub fn id(&self) -> (r: u64)
        ensures
            r == self.id_spec(),
    {
        self.handle.id()
    }

    pub fn stage(&self) -> (r: ShaderType)
        ensures
            r == self.stage_spec(),
    {
        self.stage
    }

    /// Creates a shader of `shader_type` and asks the driver to compile
    /// `source` into it.
    pub fn from_source(ctx: &mut Context, shader_type: ShaderType, source: &str) -> (r: Shader)
        requires
            old(ctx).wf(),
            old(ctx).has_room(1),
        ensures
            final(ctx).wf(),
            r.stage_spec() == shader_type,
            r.id_spec() == old(ctx).next_id(),
            r.id_spec() != 0,
            !old(ctx).live().contains(r.id_spec()),
            final(ctx).live() == old(ctx).live().insert(r.id_spec()),
            final(ctx).next_id() == old(ctx).next_id() + 1,
            ({
                let n = old(ctx).recorded().len() as int;
                &&& final(ctx).recorded().len() == n + 3
                &&& final(ctx).recorded().subrange(0, n) == old(ctx).recorded()
                &&& final(ctx).recorded()[n] == (GlCall::CreateShader {
                    shader: r.id_spec(),
                    stage: stage_value(shader_type),
                })
                &&& is_shader_source(final(ctx).recorded()[n + 1], r.id_spec(), source@)
                &&& final(ctx).recorded()[n + 2] == (GlCall::CompileShader { shader: r.id_spec() })
            }),
    {
        let stage = shader_type.gl_value();
        let handle = ctx.create_shader(stage);
        let id = handle.id();
        let text = source.to_string();
        proof {
            vstd::string::to_string_from_display_ensures_for_str(source, text);
        }
        ctx.record(GlCall::ShaderSource { shader: id, source: text });
        ctx.record(GlCall::CompileShader { shader: id });
        Shader { handle, stage: shader_type }
    }

    /// The outcome of compiling: the shader when the driver reported
    /// success, else the driver's diagnostic text, with the shader deleted.
    pub fn check_compiled(self, ctx: &mut Context, compiled: bool, log: String) -> (r: Result<
        Shader,
        String,
    >)
        requires
            old(ctx).wf(),
        ensures
            final(ctx).wf(),
            compiled ==> *final(ctx) == *old(ctx),
            compiled ==> (r matches Ok(s) && s.id_spec() == self.id_spec() && s.stage_spec()
                == self.stage_spec()),
            !compiled ==> (r matches Err(e) && e@ == log@),
            !compiled ==> final(ctx).live() == old(ctx).live().remove(self.id_spec()),
            !compiled ==> final(ctx).recorded() == old(ctx).recorded().push(
                GlCall::Delete { kind: HandleKind::Shader, id: self.id_spec() },
            ),
    {
        if compiled {
            Ok(self)
        } else {
            self.delete(ctx);
            Err(log)
        }
    }

    /// Deletes the driver object.
    pub fn delete(self, ctx: &mut Context)
        requires
            old(ctx).wf(),
        ensures
            final(ctx).wf(),
            final(ctx).live() == old(ctx).live().remove(self.id_spec()),
            final(ctx).next_id() == old(ctx).next_id(),
            final(ctx).recorded() == old(ctx).recorded().push(
                GlCall::Delete { kind: HandleKind::Shader, id: self.id_spec() },
            ),
    {
        proof {
            use_type_invariant(&self);
        }
        let Shader { handle, .. } = self;
        ctx.release(handle);
    }
}

/// Collects compiled stages for one link.
pub struct ProgramBuilder {
    shaders: Vec<Shader>,
}

/// The calls that link `shaders` into `program`: attach each stage, link,
/// detach each stage, delete each stage.
pub open spec fn link_calls(program: u64, shaders: Seq<Shader>) -> Seq<GlCall> {
    Seq::new(shaders.len(), |i: int| GlCall::AttachShader { program, shader: shaders[i].id_spec() })
        + seq![GlCall::LinkProgram { program }] + Seq::new(
        shaders.len(),
        |i: int| GlCall::DetachShader { program, shader: shaders[i].id_spec() },
    ) + Seq::new(
        shaders.len(),
        |i: int| GlCall::Delete { kind: HandleKind::Shader, id: shaders[i].id_spec() },
    )
}

/// The ids of `shaders`.
pub open spec fn shader_ids(shaders: Seq<Shader>) -> Set<u64> {
    Set::new(|id: u64| exists|k: int| 0 <= k < shaders.len() && (#[trigger] shaders[k]).id_spec() == id)
}

impl ProgramBuilder {
    pub closed spec fn shaders_spec(&self) -> Seq<Shader> {
        self.shaders@
    }

    pub fn default() -> (r: ProgramBuilder)
        ensures
            r.shaders_spec() == Seq::<Shader>::empty(),
    {
        ProgramBuilder { shaders: Vec::new() }
    }

    pub fn attach_shader(self, shader: Shader) -> (r: ProgramBuilder)
        ensures
            r.shaders_spec() == self.shaders_spec().push(shader),
    {
        let mut shaders = self.shaders;
        shaders.push(shader);
        ProgramBuilder { shaders }
    }

    /// Creates a program, links the attached stages into it, then detaches
    /// and deletes the stages.
    pub fn link(self, ctx: &mut Context) -> (r: Program)
        requires
            old(ctx).wf(),
            old(ctx).has_room(1),
        ensures
            final(ctx).wf(),
            r.id_spec() == old(ctx).next_id(),
            r.id_spec() != 0,
            !old(ctx).live().contains(r.id_spec()),
            final(ctx).next_id() == old(ctx).next_id() + 1,
            final(ctx).live() == old(ctx).live().insert(r.id_spec()).difference(
                shader_ids(self.shaders_spec()),
            ),
            final(ctx).recorded() == old(ctx).recorded() + seq![
                GlCall::CreateProgram { program: r.id_spec() },
            ] + link_calls(r.id_spec(), self.shaders_spec()),
    {
        let handle = ctx.create_program();
        let program = handle.id();
        let shaders = self.shaders;
        let ghost s = shaders@;
        let ghost start = ctx.recorded();
        let n = shaders.len();
        let mut i: usize = 0;
        while i < n
            invariant
                ctx.wf(),
                ctx.next_id() == old(ctx).next_id() + 1,
                ctx.live() == old(ctx).live().insert(program),
                n == shaders.len(),
                s == shaders@,
                i <= n,
                ctx.recorded() == start + Seq::new(
                    i as nat,
                    |k: int| GlCall::AttachShader { program, shader: s[k].id_spec() },
                ),
            decreases n - i,
        {
            let sid = shaders[i].id();
            ctx.record(GlCall::AttachShader { program, shader: sid });
            assert(ctx.recorded() =~= start + Seq::new(
                (i + 1) as nat,
                |k: int| GlCall::AttachShader { program, shader: s[k].id_spec() },
            ));
            i = i + 1;
        }
        ctx.record(GlCall::LinkProgram { program });
        let ghost start = ctx.recorded();
        let mut i: usize = 0;
        while i < n
            invariant
                ctx.wf(),
                ctx.next_id() == old(ctx).next_id() + 1,
                ctx.live() == old(ctx).live().insert(program),
                n == shaders.len(),
                s == shaders@,
                i <= n,
                ctx.recorded() == start + Seq::new(
                    i as nat,
                    |k: int| GlCall::DetachShader { program, shader: s[k].id_spec() },
                ),
            decreases n - i,
        {
            let sid = shaders[i].id();
            ctx.record(GlCall::DetachShader { program, shader: sid });
            assert(ctx.recorded() =~= start + Seq::new(
                (i + 1) as nat,
                |k: int| GlCall::DetachShader { program, shader: s[k].id_spec() },
            ));
            i = i + 1;
        }
        let ghost start = ctx.recorded();
        let ghost next = ctx.next_id();
        let mut rest = shaders;
        let mut i: usize = 0;
        while rest.len() > 0
            invariant
                ctx.wf(),
                ctx.next_id() == next,
                ctx.live() == old(ctx).live().insert(program).difference(
                    shader_ids(s.subrange(0, i as int)),
                ),
                i + rest.len() == n,
                n == s.len(),
                forall|k: int| 0 <= k < rest.len() ==> #[trigger] rest@[k] == s[i + k],
                ctx.recorded() == start + Seq::new(
                    i as nat,
                    |k: int| GlCall::Delete { kind: HandleKind::Shader, id: s[k].id_spec() },
                ),
            decreases rest.len(),
        {
            let sh = rest.remove(0);
            let ghost before = ctx.live();
            sh.delete(ctx);
            proof {
                let a = shader_ids(s.subrange(0, i as int));
                let b = shader_ids(s.subrange(0, i + 1));
                assert forall|id: u64| #[trigger] b.contains(id) <==> (a.contains(id) || id == s[i as int].id_spec()) by {
                    if b.contains(id) {
                        let k = choose|k: int| 0 <= k < i + 1 && (#[trigger] s.subrange(0, i + 1)[k]).id_spec() == id;
                        if k < i {
                            assert(s.subrange(0, i as int)[k] == s.subrange(0, i + 1)[k]);
                        }
                    }
                    if a.contains(id) {
                        let k = choose|k: int| 0 <= k < i && (#[trigger] s.subrange(0, i as int)[k]).id_spec() == id;
                        assert(s.subrange(0, i + 1)[k] == s.subrange(0, i as int)[k]);
                    }
                    if id == s[i as int].id_spec() {
                        assert(s.subrange(0, i + 1)[i as int] == s[i as int]);
                    }
                }
                assert(ctx.live() =~= old(ctx).live().insert(program).difference(b));
            }
            assert(ctx.recorded() =~= start + Seq::new(
                (i + 1) as nat,
                |k: int| GlCall::Delete { kind: HandleKind::Shader, id: s[k].id_spec() },
            ));
            i = i + 1;
        }
        let r = Program { handle };
        assert(s.subrange(0, n as int) =~= s);
        assert(ctx.recorded() =~= old(ctx).recorded() + seq![
            GlCall::CreateProgram { program: r.id_spec() },
        ] + link_calls(r.id_spec(), s));
        r
    }
}

/// A linked program owned by the library. Apart from uniform values it
/// does not change after linking.
pub struct Program {
    handle: Handle,
}

/// `c` sets uniform `name` of `program` to `value`.
pub open spec fn is_uniform(c: GlCall, program: u64, name: Seq<char>, value: UniformValue) -> bool {
    c matches GlCall::Uniform { program: p, name: n, value: v } && p == program && n@ == name && v
        == value
}

impl Program {
    #[verifier::type_invariant]
    spec fn inv(&self) -> bool {
        self.handle.kind_spec() == HandleKind::Program
    }

    pub closed spec fn id_spec(&self) -> u64 {
        self.handle.id_spec()
    }

    pub fn id(&self) -> (r: u64)
        ensures
            r == self.id_spec(),
    {
        self.handle.id()
    }

    /// The outcome of linking: the program when the driver reported
    /// success, else the driver's diagnostic text, with the program deleted.
    pub fn check_linked(self, ctx: &mut Context, linked: bool, log: String) -> (r: Result<
        Program,
        String,
    >)
        requires
            old(ctx).wf(),
        ensures
            final(ctx).wf(),
            linked ==> *final(ctx) == *old(ctx),
            linked ==> (r matches Ok(p) && p.id_spec() == self.id_spec()),
            !linked ==> (r matches Err(e) && e@ == log@),
            !linked ==> final(ctx).live() == old(ctx).live().remove(self.id_spec()),
            !linked ==> final(ctx).recorded() == old(ctx).recorded().push(
                GlCall::Delete { kind: HandleKind::Program, id: self.id_spec() },
            ),
    {
        if linked {
            Ok(self)
        } else {
            self.delete(ctx);
            Err(log)
        }
    }

    /// Makes this program the one later draws use.
    pub fn bind(&self, ctx: &mut Context)
        requires
            old(ctx).wf(),
        ensures
            Context::appended(*old(ctx), *final(ctx), seq![GlCall::UseProgram { program: self.id_spec() }]),
    {
        let id = self.id();
        ctx.record(GlCall::UseProgram { program: id });
    }

    /// Sets uniform `name` to `value`. The location is looked up by name
    /// each time; a name the program does not declare is ignored by the
    /// driver.
    pub fn uniform(&self, ctx: &mut Context, name: &str, value: UniformValue)
        requires
            old(ctx).wf(),
        ensures
            final(ctx).wf(),
            final(ctx).live() == old(ctx).live(),
            final(ctx).next_id() == old(ctx).next_id(),
            final(ctx).recorded().len() == old(ctx).recorded().len() + 1,
            final(ctx).recorded().drop_last() == old(ctx).recorded(),
            is_uniform(final(ctx).recorded().last(), self.id_spec(), name@, value),
    {
        let id = self.id();
        let text = name.to_string();
        proof {
            vstd::string::to_string_from_display_ensures_for_str(name, text);
        }
        ctx.record(GlCall::Uniform { program: id, name: text, value });
    }

    pub fn uniform_i32(&self, ctx: &mut Context, name: &str, value: i32)
        requires
            old(ctx).wf(),
        ensures
            final(ctx).wf(),
            final(ctx).live() == old(ctx).live(),
            final(ctx).next_id() == old(ctx).next_id(),
            final(ctx).recorded().len() == old(ctx).recorded().len() + 1,
            final(ctx).recorded().drop_last() == old(ctx).recorded(),
            is_uniform(final(ctx).recorded().last(), self.id_spec(), name@, UniformValue::I32(value)),
    {
        self.uniform(ctx, name, UniformValue::I32(value));
    }

    pub fn uniform_ivec2(&self, ctx: &mut Context, name: &str, value: (i32, i32))
        requires
            old(ctx).wf(),
        ensures
            final(ctx).wf(),
            final(ctx).live() == old(ctx).live(),
            final(ctx).next_id() == old(ctx).next_id(),
            final(ctx).recorded().len() == old(ctx).recorded().len() + 1,
            final(ctx).recorded().drop_last() == old(ctx).recorded(),
            is_uniform(
                final(ctx).recorded().last(),
                self.id_spec(),
                name@,
                UniformValue::IVec2(value.0, value.1),
            ),
    {
        self.uniform(ctx, name, UniformValue::IVec2(value.0, value.1));
    }

    pub fn uniform_ivec3(&self, ctx: &mut Context, name: &str, value: (i32, i32, i32))
        requires
            old(ctx).wf(),
        ensures
            final(ctx).wf(),
            final(ctx).live() == old(ctx).live(),
            final(ctx).next_id() == old(ctx).next_id(),
            final(ctx).recorded().len() == old(ctx).recorded().len() + 1,
            final(ctx).recorded().drop_last() == old(ctx).recorded(),
            is_uniform(
                final(ctx).recorded().last(),
                self.id_spec(),
                name@,
                UniformValue::IVec3(value.0, value.1, value.2),
            ),
    {
        self.uniform(ctx, name, UniformValue::IVec3(value.0, value.1, value.2));
    }

    pub fn uniform_ivec4(&self, ctx: &mut Context, name: &str, value: (i32, i32, i32, i32))
        requires
            old(ctx).wf(),
        ensures
            final(ctx).wf(),
            final(ctx).live() == old(ctx).live(),
            final(ctx).next_id() == old(ctx).next_id(),
            final(ctx).recorded().len() == old(ctx).recorded().len() + 1,
            final(ctx).recorded().drop_last() == old(ctx).recorded(),
            is_uniform(
                final(ctx).recorded().last(),
                self.id_spec(),
                name@,
                UniformValue::IVec4(value.0, value.1, value.2, value.3),
            ),
    {
        self.uniform(ctx, name, UniformValue::IVec4(value.0, value.1, value.2, value.3));
    }

    /// Deletes the driver object.
    pub fn delete(self, ctx: &mut Context)
        requires
            old(ctx).wf(),
        ensures
            final(ctx).wf(),
            final(ctx).live() == old(ctx).live().remove(self.id_spec()),
            final(ctx).recorded() == old(ctx).recorded().push(
                GlCall::Delete { kind: HandleKind::Program, id: self.id_spec() },
            ),
    {
        proof {
            use_type_invariant(&self);
        }
        let Program { handle } = self;
        ctx.release(handle);
    }
}

} // verus!
