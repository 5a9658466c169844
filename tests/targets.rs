use feywild::context::{Context, GlCall, HandleKind, UniformValue};
use feywild::framebuffer::{
    Attachment, Format as RbFormat, FrameBuffer, FramebufferError, RenderBuffer, Status,
};
use feywild::program::{ProgramBuilder, Shader, ShaderType};
use feywild::texture::{
    upload_format, Filter, Format, Image, MipMapFilter, SourceLayout, Texture2D, TextureError,
};

fn image(width: u32, height: u32, format: Format, fill: u8) -> Image {
    let n = (width * height * format.bytes_per_pixel() as u32) as usize;
    Image::new(width, height, format, vec![fill; n]).unwrap()
}

#[test]
fn uploaded_texture_reports_its_dimensions_and_format() {
    let mut ctx = Context::new();
    for (w, h, f) in [(3u32, 2u32, Format::Rgb), (1, 5, Format::Bgra), (4, 4, Format::Rgba)] {
        let t = Texture2D::from_image(&mut ctx, image(w, h, f, 9));
        assert_eq!((t.width(), t.height(), t.format()), (w, h, f));
    }
    let t = Texture2D::with_dimensions(&mut ctx, 640, 480, Format::Bgr);
    assert_eq!((t.width(), t.height(), t.format()), (640, 480, Format::Bgr));
}

#[test]
fn upload_records_the_whole_image() {
    let mut ctx = Context::new();
    let img = Image::new(1, 2, Format::Rgb, vec![1, 2, 3, 4, 5, 6]).unwrap();
    let t = Texture2D::from_image(&mut ctx, img);
    assert_eq!(
        ctx.calls(),
        &vec![
            GlCall::Generate { kind: HandleKind::Texture, first: t.id(), count: 1 },
            GlCall::BindTexture { target: gl::TEXTURE_2D, texture: t.id() },
            GlCall::TexImage2D {
                internal_format: gl::RGB8,
                width: 1,
                height: 2,
                format: gl::RGB,
                data: Some(vec![1, 2, 3, 4, 5, 6]),
            },
            GlCall::GenerateMipmap { target: gl::TEXTURE_2D },
        ]
    );
}

#[test]
fn image_byte_count_must_match() {
    assert!(Image::new(2, 2, Format::Rgba, vec![0; 16]).is_some());
    assert!(Image::new(2, 2, Format::Rgba, vec![0; 15]).is_none());
    assert!(Image::new(2, 2, Format::Rgb, vec![0; 12]).is_some());
    assert!(Image::new(0, 7, Format::Bgr, vec![]).is_some());
}

#[test]
fn partial_update_past_the_edge_is_refused_before_any_call() {
    let mut ctx = Context::new();
    let mut t = Texture2D::with_dimensions(&mut ctx, 8, 4, Format::Rgba);
    let before = ctx.calls().len();
    let tile = image(3, 2, Format::Rgba, 1);
    assert_eq!(t.replace_rect(&mut ctx, 6, 0, &tile), Err(TextureError::OutOfBounds));
    assert_eq!(t.replace_rect(&mut ctx, 0, 3, &tile), Err(TextureError::OutOfBounds));
    assert_eq!(ctx.calls().len(), before);
    assert_eq!(t.replace_rect(&mut ctx, 5, 2, &tile), Ok(()));
    assert_eq!(ctx.calls().len(), before + 4);
    assert_eq!(ctx.calls()[before], GlCall::ActiveTexture { unit: 0 });
    assert_eq!(
        ctx.calls()[before + 2],
        GlCall::TexSubImage2D { x: 5, y: 2, width: 3, height: 2, format: gl::RGBA, data: vec![1; 24] }
    );
    assert_eq!(ctx.calls()[before + 3], GlCall::GenerateMipmap { target: gl::TEXTURE_2D });
}

#[test]
fn filters_have_six_minification_values() {
    let cases = [
        (MipMapFilter::Nearest { mipmap: None }, gl::NEAREST),
        (MipMapFilter::Nearest { mipmap: Some(Filter::Nearest) }, gl::NEAREST_MIPMAP_NEAREST),
        (MipMapFilter::Nearest { mipmap: Some(Filter::Linear) }, gl::NEAREST_MIPMAP_LINEAR),
        (MipMapFilter::Linear { mipmap: None }, gl::LINEAR),
        (MipMapFilter::Linear { mipmap: Some(Filter::Nearest) }, gl::LINEAR_MIPMAP_NEAREST),
        (MipMapFilter::Linear { mipmap: Some(Filter::Linear) }, gl::LINEAR_MIPMAP_LINEAR),
    ];
    for (f, v) in cases.iter() {
        assert_eq!(f.gl_value(), *v);
    }
    assert_eq!(Filter::Linear.into_min_filter(), MipMapFilter::Linear { mipmap: None });
    let mut ctx = Context::new();
    let t = Texture2D::with_dimensions(&mut ctx, 2, 2, Format::Rgba);
    ctx.take_calls();
    t.set_min_filter(&mut ctx, MipMapFilter::Linear { mipmap: Some(Filter::Nearest) });
    t.set_mag_filter(&mut ctx, Filter::Nearest);
    assert_eq!(
        ctx.calls()[2],
        GlCall::TexParameter {
            target: gl::TEXTURE_2D,
            pname: gl::TEXTURE_MIN_FILTER,
            value: gl::LINEAR_MIPMAP_NEAREST,
        }
    );
    assert_eq!(
        ctx.calls()[5],
        GlCall::TexParameter { target: gl::TEXTURE_2D, pname: gl::TEXTURE_MAG_FILTER, value: gl::NEAREST }
    );
}

#[test]
fn binding_to_a_unit_and_to_the_current_unit() {
    let mut ctx = Context::new();
    let t = Texture2D::with_dimensions(&mut ctx, 2, 2, Format::Rgb);
    ctx.take_calls();
    t.bind(&mut ctx, 3);
    t.bind_current(&mut ctx);
    assert_eq!(
        ctx.calls(),
        &vec![
            GlCall::ActiveTexture { unit: 3 },
            GlCall::BindTexture { target: gl::TEXTURE_2D, texture: t.id() },
            GlCall::BindTexture { target: gl::TEXTURE_2D, texture: t.id() },
        ]
    );
}

#[test]
fn layouts_normalise_to_supported_formats() {
    assert_eq!(upload_format(SourceLayout::Luma8), Format::Rgb);
    assert_eq!(upload_format(SourceLayout::Rgb16), Format::Rgb);
    assert_eq!(upload_format(SourceLayout::LumaA16), Format::Rgba);
    assert_eq!(upload_format(SourceLayout::Bgra8), Format::Bgra);
    assert_eq!(upload_format(SourceLayout::Bgr8), Format::Bgr);
    assert_eq!(Format::Bgr.into_internal_format(), gl::RGB8);
    assert_eq!(Format::Bgra.into_format(), gl::BGRA);
}

#[test]
fn framebuffer_without_attachments_is_missing_one() {
    let mut ctx = Context::new();
    let fb = FrameBuffer::new(&mut ctx);
    assert_eq!(fb.status(), Some(Status::MissingAttachment));
}

#[test]
fn color_texture_and_depth_stencil_renderbuffer_are_complete() {
    let mut ctx = Context::new();
    let mut fb = FrameBuffer::new(&mut ctx);
    let t = Texture2D::with_dimensions(&mut ctx, 800, 600, Format::Rgba);
    let mut rb = RenderBuffer::new(&mut ctx);
    rb.allocate(&mut ctx, 800, 600, RbFormat::DepthStencil, 0);
    assert_eq!(fb.attach_texture2d(&mut ctx, &t, Attachment::Color(0)), Ok(()));
    assert_eq!(fb.status(), None);
    assert_eq!(fb.attach_renderbuffer(&mut ctx, &rb, Attachment::DepthStencil), Ok(()));
    assert_eq!(fb.status(), None);
}

#[test]
fn mismatched_or_unfit_attachments_are_incomplete() {
    let mut ctx = Context::new();
    let mut fb = FrameBuffer::new(&mut ctx);
    let t = Texture2D::with_dimensions(&mut ctx, 800, 600, Format::Rgba);
    let mut rb = RenderBuffer::new(&mut ctx);
    rb.allocate(&mut ctx, 640, 480, RbFormat::DepthStencil, 0);
    fb.attach_texture2d(&mut ctx, &t, Attachment::Color(0)).unwrap();
    fb.attach_renderbuffer(&mut ctx, &rb, Attachment::DepthStencil).unwrap();
    assert_eq!(fb.status(), Some(Status::IncompleteAttachment));
    rb.allocate(&mut ctx, 800, 600, RbFormat::DepthStencil, 4);
    fb.attach_renderbuffer(&mut ctx, &rb, Attachment::DepthStencil).unwrap();
    assert_eq!(fb.status(), Some(Status::IncompleteMultisample));
    let mut depth = RenderBuffer::new(&mut ctx);
    depth.allocate(&mut ctx, 800, 600, RbFormat::Depth, 0);
    let mut fb2 = FrameBuffer::new(&mut ctx);
    fb2.attach_texture2d(&mut ctx, &t, Attachment::Color(0)).unwrap();
    fb2.attach_renderbuffer(&mut ctx, &depth, Attachment::Stencil).unwrap();
    assert_eq!(fb2.status(), Some(Status::IncompleteAttachment));
}

#[test]
fn draw_buffers_must_name_populated_attachments() {
    let mut ctx = Context::new();
    let mut fb = FrameBuffer::new(&mut ctx);
    let t = Texture2D::with_dimensions(&mut ctx, 4, 4, Format::Rgba);
    fb.attach_texture2d(&mut ctx, &t, Attachment::Color(0)).unwrap();
    assert_eq!(fb.set_draw_buffers(&mut ctx, &vec![Some(0), Some(1)]), Ok(()));
    assert_eq!(
        ctx.calls().last(),
        Some(&GlCall::DrawBuffers { buffers: vec![gl::COLOR_ATTACHMENT0, gl::COLOR_ATTACHMENT0 + 1] })
    );
    assert_eq!(fb.status(), Some(Status::IncompleteDrawBuffer));
    fb.attach_texture2d(&mut ctx, &t, Attachment::Color(1)).unwrap();
    assert_eq!(fb.status(), None);
    assert_eq!(fb.set_draw_buffers(&mut ctx, &vec![None, Some(40)]), Err(FramebufferError::NoSuchAttachment));
    assert_eq!(
        fb.attach_texture2d(&mut ctx, &t, Attachment::Color(32)),
        Err(FramebufferError::NoSuchAttachment)
    );
}

#[test]
fn attaching_records_bind_attach_unbind() {
    let mut ctx = Context::new();
    let mut fb = FrameBuffer::new(&mut ctx);
    let t = Texture2D::with_dimensions(&mut ctx, 4, 4, Format::Rgba);
    ctx.take_calls();
    fb.attach_texture2d(&mut ctx, &t, Attachment::Color(2)).unwrap();
    assert_eq!(
        ctx.calls(),
        &vec![
            GlCall::BindFramebuffer { framebuffer: fb.id() },
            GlCall::FramebufferTexture { attachment: gl::COLOR_ATTACHMENT0 + 2, texture: t.id() },
            GlCall::BindFramebuffer { framebuffer: 0 },
        ]
    );
    ctx.take_calls();
    fb.clear_color(&mut ctx, 1, &vec![0u32, 125, 0]);
    assert_eq!(ctx.calls()[1], GlCall::ClearBufferUint { drawbuffer: 1, value: vec![0, 125, 0] });
    fb.clear_color(&mut ctx, 0, &vec![-1i32, 2, 3, 4]);
    assert_eq!(ctx.calls()[3], GlCall::ClearBufferInt { drawbuffer: 0, value: vec![-1, 2, 3, 4] });
}

#[test]
fn driver_status_codes_map_to_reasons() {
    assert_eq!(Status::from_code(gl::FRAMEBUFFER_COMPLETE), None);
    assert_eq!(Status::from_code(gl::FRAMEBUFFER_UNDEFINED), Some(Status::Undefined));
    assert_eq!(
        Status::from_code(gl::FRAMEBUFFER_INCOMPLETE_MISSING_ATTACHMENT),
        Some(Status::MissingAttachment)
    );
    assert_eq!(Status::from_code(gl::FRAMEBUFFER_UNSUPPORTED), Some(Status::Unsupported));
    assert_eq!(
        Status::from_code(gl::FRAMEBUFFER_INCOMPLETE_LAYER_TARGETS),
        Some(Status::IncompleteLayerTargets)
    );
    assert_eq!(Status::from_code(12345), None);
    assert_eq!(Attachment::DepthStencil.to_enum(), Some(gl::DEPTH_STENCIL_ATTACHMENT));
    assert_eq!(Attachment::Color(31).to_enum(), Some(gl::COLOR_ATTACHMENT0 + 31));
    assert_eq!(Attachment::Color(32).to_enum(), None);
}

#[test]
fn linking_attaches_links_detaches_and_deletes_stages() {
    let mut ctx = Context::new();
    let vs = Shader::from_source(&mut ctx, ShaderType::Vertex, "void main() {}");
    assert_eq!(ctx.calls()[1], GlCall::ShaderSource { shader: vs.id(), source: "void main() {}".to_string() });
    let vs = vs.check_compiled(&mut ctx, true, String::new()).unwrap();
    let fs = Shader::from_source(&mut ctx, ShaderType::Fragment, "x");
    let fs = fs.check_compiled(&mut ctx, true, String::new()).unwrap();
    let (v, f) = (vs.id(), fs.id());
    ctx.take_calls();
    let program = ProgramBuilder::default().attach_shader(vs).attach_shader(fs).link(&mut ctx);
    let p = program.id();
    assert_eq!(
        ctx.calls(),
        &vec![
            GlCall::CreateProgram { program: p },
            GlCall::AttachShader { program: p, shader: v },
            GlCall::AttachShader { program: p, shader: f },
            GlCall::LinkProgram { program: p },
            GlCall::DetachShader { program: p, shader: v },
            GlCall::DetachShader { program: p, shader: f },
            GlCall::Delete { kind: HandleKind::Shader, id: v },
            GlCall::Delete { kind: HandleKind::Shader, id: f },
        ]
    );
    let program = program.check_linked(&mut ctx, true, String::new()).unwrap();
    ctx.take_calls();
    program.uniform_ivec3(&mut ctx, "cell", (1, -2, 3));
    assert_eq!(
        ctx.calls()[0],
        GlCall::Uniform { program: p, name: "cell".to_string(), value: UniformValue::IVec3(1, -2, 3) }
    );
}

#[test]
fn failed_compile_and_link_surface_the_log() {
    let mut ctx = Context::new();
    let s = Shader::from_source(&mut ctx, ShaderType::Vertex, "broken");
    let id = s.id();
    let r = s.check_compiled(&mut ctx, false, "0:1: syntax error".to_string());
    assert_eq!(r.err(), Some("0:1: syntax error".to_string()));
    assert_eq!(ctx.calls().last(), Some(&GlCall::Delete { kind: HandleKind::Shader, id }));
    let p = ProgramBuilder::default().link(&mut ctx);
    let pid = p.id();
    let r = p.check_linked(&mut ctx, false, "missing main".to_string());
    assert_eq!(r.err(), Some("missing main".to_string()));
    assert_eq!(ctx.calls().last(), Some(&GlCall::Delete { kind: HandleKind::Program, id: pid }));
}
