use feywild::buffer::{
    storage_type, AccessFrequency, AccessType, BufferError, VertexAttribArray, VertexAttribObject,
    VertexBuffer,
};
use feywild::context::{Context, GlCall, HandleKind};
use feywild::glenum;

#[test]
fn batch_generate_yields_distinct_live_handles() {
    for n in 1u64..6 {
        let mut ctx = Context::new();
        let handles = ctx.generate(HandleKind::Buffer, n);
        assert_eq!(handles.len() as u64, n);
        for i in 0..handles.len() {
            assert_eq!(handles[i].kind(), HandleKind::Buffer);
            for j in 0..handles.len() {
                if i != j {
                    assert_ne!(handles[i].id(), handles[j].id());
                }
            }
        }
        assert_eq!(ctx.calls().len(), 1);
        assert_eq!(ctx.calls()[0], GlCall::Generate { kind: HandleKind::Buffer, first: 1, count: n });
    }
}

#[test]
fn releasing_one_handle_keeps_the_others() {
    let mut ctx = Context::new();
    let mut handles = ctx.generate(HandleKind::Texture, 3);
    let second = handles.remove(1);
    let released = second.id();
    ctx.release(second);
    assert_eq!(ctx.calls().len(), 2);
    assert_eq!(ctx.calls()[1], GlCall::Delete { kind: HandleKind::Texture, id: released });
    let rest: Vec<u64> = handles.iter().map(|h| h.id()).collect();
    assert_eq!(rest, vec![1, 3]);
    let taken = ctx.take_calls();
    assert_eq!(taken.len(), 2);
    assert!(ctx.calls().is_empty());
    let next = ctx.generate_one(HandleKind::Framebuffer);
    assert_eq!(next.id(), 4);
}

#[test]
fn shader_and_program_handles_are_fresh() {
    let mut ctx = Context::new();
    let b = ctx.generate_one(HandleKind::Buffer);
    let s = ctx.create_shader(glenum::VERTEX_SHADER);
    let p = ctx.create_program();
    assert_eq!((b.id(), s.id(), p.id()), (1, 2, 3));
    assert_eq!(s.kind(), HandleKind::Shader);
    assert_eq!(p.kind(), HandleKind::Program);
    assert_eq!(ctx.calls()[1], GlCall::CreateShader { shader: 2, stage: glenum::VERTEX_SHADER });
    assert_eq!(ctx.calls()[2], GlCall::CreateProgram { program: 3 });
}

#[test]
fn enumerants_match_the_gl_bindings() {
    let pairs: Vec<(u32, u32)> = vec![
        (glenum::NONE, gl::NONE),
        (glenum::TRIANGLES, gl::TRIANGLES),
        (glenum::TEXTURE_2D, gl::TEXTURE_2D),
        (glenum::COLOR, gl::COLOR),
        (glenum::BYTE, gl::BYTE),
        (glenum::UNSIGNED_BYTE, gl::UNSIGNED_BYTE),
        (glenum::SHORT, gl::SHORT),
        (glenum::UNSIGNED_SHORT, gl::UNSIGNED_SHORT),
        (glenum::INT, gl::INT),
        (glenum::UNSIGNED_INT, gl::UNSIGNED_INT),
        (glenum::FLOAT, gl::FLOAT),
        (glenum::RGB, gl::RGB),
        (glenum::RGBA, gl::RGBA),
        (glenum::BGR, gl::BGR),
        (glenum::BGRA, gl::BGRA),
        (glenum::RGB8, gl::RGB8),
        (glenum::RGBA8, gl::RGBA8),
        (glenum::DEPTH_COMPONENT16, gl::DEPTH_COMPONENT16),
        (glenum::DEPTH24_STENCIL8, gl::DEPTH24_STENCIL8),
        (glenum::NEAREST, gl::NEAREST),
        (glenum::LINEAR, gl::LINEAR),
        (glenum::NEAREST_MIPMAP_NEAREST, gl::NEAREST_MIPMAP_NEAREST),
        (glenum::LINEAR_MIPMAP_NEAREST, gl::LINEAR_MIPMAP_NEAREST),
        (glenum::NEAREST_MIPMAP_LINEAR, gl::NEAREST_MIPMAP_LINEAR),
        (glenum::LINEAR_MIPMAP_LINEAR, gl::LINEAR_MIPMAP_LINEAR),
        (glenum::TEXTURE_MAG_FILTER, gl::TEXTURE_MAG_FILTER),
        (glenum::TEXTURE_MIN_FILTER, gl::TEXTURE_MIN_FILTER),
        (glenum::TEXTURE0, gl::TEXTURE0),
        (glenum::ARRAY_BUFFER, gl::ARRAY_BUFFER),
        (glenum::STREAM_DRAW, gl::STREAM_DRAW),
        (glenum::STREAM_READ, gl::STREAM_READ),
        (glenum::STREAM_COPY, gl::STREAM_COPY),
        (glenum::STATIC_DRAW, gl::STATIC_DRAW),
        (glenum::STATIC_READ, gl::STATIC_READ),
        (glenum::STATIC_COPY, gl::STATIC_COPY),
        (glenum::DYNAMIC_DRAW, gl::DYNAMIC_DRAW),
        (glenum::DYNAMIC_READ, gl::DYNAMIC_READ),
        (glenum::DYNAMIC_COPY, gl::DYNAMIC_COPY),
        (glenum::FRAMEBUFFER, gl::FRAMEBUFFER),
        (glenum::RENDERBUFFER, gl::RENDERBUFFER),
        (glenum::COLOR_ATTACHMENT0, gl::COLOR_ATTACHMENT0),
        (glenum::DEPTH_ATTACHMENT, gl::DEPTH_ATTACHMENT),
        (glenum::STENCIL_ATTACHMENT, gl::STENCIL_ATTACHMENT),
        (glenum::DEPTH_STENCIL_ATTACHMENT, gl::DEPTH_STENCIL_ATTACHMENT),
        (glenum::FRAMEBUFFER_COMPLETE, gl::FRAMEBUFFER_COMPLETE),
        (glenum::FRAMEBUFFER_UNDEFINED, gl::FRAMEBUFFER_UNDEFINED),
        (glenum::FRAMEBUFFER_INCOMPLETE_ATTACHMENT, gl::FRAMEBUFFER_INCOMPLETE_ATTACHMENT),
        (
            glenum::FRAMEBUFFER_INCOMPLETE_MISSING_ATTACHMENT,
            gl::FRAMEBUFFER_INCOMPLETE_MISSING_ATTACHMENT,
        ),
        (glenum::FRAMEBUFFER_INCOMPLETE_DRAW_BUFFER, gl::FRAMEBUFFER_INCOMPLETE_DRAW_BUFFER),
        (glenum::FRAMEBUFFER_INCOMPLETE_READ_BUFFER, gl::FRAMEBUFFER_INCOMPLETE_READ_BUFFER),
        (glenum::FRAMEBUFFER_UNSUPPORTED, gl::FRAMEBUFFER_UNSUPPORTED),
        (glenum::FRAMEBUFFER_INCOMPLETE_MULTISAMPLE, gl::FRAMEBUFFER_INCOMPLETE_MULTISAMPLE),
        (glenum::FRAMEBUFFER_INCOMPLETE_LAYER_TARGETS, gl::FRAMEBUFFER_INCOMPLETE_LAYER_TARGETS),
        (glenum::VERTEX_SHADER, gl::VERTEX_SHADER),
        (glenum::FRAGMENT_SHADER, gl::FRAGMENT_SHADER),
    ];
    for (mine, theirs) in pairs {
        assert_eq!(mine, theirs);
    }
}

#[test]
fn storage_type_covers_every_pair() {
    let expected = [
        (AccessFrequency::Static, AccessType::Draw, gl::STATIC_DRAW),
        (AccessFrequency::Static, AccessType::Read, gl::STATIC_READ),
        (AccessFrequency::Static, AccessType::Copy, gl::STATIC_COPY),
        (AccessFrequency::Stream, AccessType::Draw, gl::STREAM_DRAW),
        (AccessFrequency::Stream, AccessType::Read, gl::STREAM_READ),
        (AccessFrequency::Stream, AccessType::Copy, gl::STREAM_COPY),
        (AccessFrequency::Dynamic, AccessType::Draw, gl::DYNAMIC_DRAW),
        (AccessFrequency::Dynamic, AccessType::Read, gl::DYNAMIC_READ),
        (AccessFrequency::Dynamic, AccessType::Copy, gl::DYNAMIC_COPY),
    ];
    for (f, t, v) in expected.iter() {
        assert_eq!(storage_type(*f, *t), *v);
    }
}

#[test]
fn attribute_binding_rebinds_and_sets_divisor() {
    let mut ctx = Context::new();
    let mut vao = VertexAttribObject::new(&mut ctx);
    let vbo = VertexBuffer::new(&mut ctx);
    ctx.take_calls();
    vao.vertex_attribute_array(
        &mut ctx,
        &vbo,
        VertexAttribArray::<i32>::with_id(1)
            .with_components_per_value(2)
            .with_divisor(6)
            .with_stride(8)
            .with_offset(4)
            .normalise(),
    );
    assert_eq!(
        ctx.calls(),
        &vec![
            GlCall::BindVertexArray { vao: vao.id() },
            GlCall::BindBuffer { target: gl::ARRAY_BUFFER, buffer: vbo.id() },
            GlCall::EnableVertexAttribArray { index: 1 },
            GlCall::VertexAttribDivisor { index: 1, divisor: 6 },
            GlCall::VertexAttribPointer {
                index: 1,
                size: 2,
                ty: gl::INT,
                normalized: true,
                stride: 8,
                offset: 4,
            },
        ]
    );
    ctx.take_calls();
    vao.vertex_attribute_array(&mut ctx, &vbo, VertexAttribArray::<u8>::with_id(0));
    assert_eq!(ctx.calls().len(), 4);
    assert_eq!(
        ctx.calls()[3],
        GlCall::VertexAttribPointer {
            index: 0,
            size: 1,
            ty: gl::UNSIGNED_BYTE,
            normalized: false,
            stride: 0,
            offset: 0,
        }
    );
}

#[test]
fn buffer_writes_past_the_end_are_refused() {
    let mut ctx = Context::new();
    let mut vbo = VertexBuffer::new(&mut ctx);
    vbo.alloc_with(&mut ctx, vec![1, 2, 3, 4], AccessFrequency::Dynamic, AccessType::Draw);
    assert_eq!(vbo.len(), 4);
    let before = ctx.calls().len();
    assert_eq!(vbo.replace_sub_data(&mut ctx, 3, vec![7, 8]), Err(BufferError::OutOfRange));
    assert_eq!(ctx.calls().len(), before);
    assert_eq!(vbo.replace_sub_data(&mut ctx, 2, vec![7, 8]), Ok(()));
    assert_eq!(
        ctx.calls()[before + 1],
        GlCall::BufferSubData { target: gl::ARRAY_BUFFER, offset: 2, data: vec![7, 8] }
    );
}

#[test]
fn vertex_buffers_from_one_call() {
    let mut ctx = Context::new();
    let vbos = VertexBuffer::new_array(&mut ctx, 3);
    let ids: Vec<u64> = vbos.iter().map(|b| b.id()).collect();
    assert_eq!(ids, vec![1, 2, 3]);
    assert_eq!(ctx.calls().len(), 1);
    let vaos = VertexAttribObject::new_array(&mut ctx, 2);
    assert_eq!(vaos[1].id(), 5);
    let first = vbos.into_iter().next().unwrap();
    first.delete(&mut ctx);
    assert_eq!(ctx.calls()[2], GlCall::Delete { kind: HandleKind::Buffer, id: 1 });
}
