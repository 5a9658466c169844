//! 2D textures: allocation, upload, partial replacement, filtering and
//! binding to texture units.
//!
//! A texture carries a model of its texels: what the driver holds after
//! the calls that the library recorded for it.
use crate::context::{Context, GlCall, Handle, HandleKind};
use crate::glenum;
use vstd::prelude::*;

verus! {

/// The channel layouts that an upload accepts.
#[derive(Clone, Copy, Debug, PartialEq, Eq, Structural)]
pub enum Format {
    Rgb,
    Rgba,
    Bgr,
    Bgra,
}

pub open spec fn has_alpha(f: Format) -> bool {
    f == Format::Rgba || f == Format::Bgra
}

pub open spec fn bytes_per_pixel(f: Format) -> nat {
    if has_alpha(f) {
        4
    } else {
        3
    }
}

pub open spec fn internal_format_of(f: Format) -> u32 {
    if has_alpha(f) {
        glenum::RGBA8
    } else {
        glenum::RGB8
    }
}

pub open spec fn pixel_format_of(f: Format) -> u32 {
    match f {
        Format::Rgb => glenum::RGB,
        Format::Rgba => glenum::RGBA,
        Format::Bgr => glenum::BGR,
        Format::Bgra => glenum::BGRA,
    }
}

impl Format {
    /// The storage format the driver allocates for this layout.
    pub fn into_internal_format(self) -> (r: u32)
        ensures
            r == internal_format_of(self),
    {
        match self {
            Format::Rgb => glenum::RGB8,
            Format::Rgba => glenum::RGBA8,
            Format::Bgr => glenum::RGB8,
            Format::Bgra => glenum::RGBA8,
        }
    }

    /// The driver's name for this channel order.
    pub fn into_format(self) -> (r: u32)
        ensures
            r == pixel_format_of(self),
    {
        match self {
            Format::Rgb => glenum::RGB,
            Format::Rgba => glenum::RGBA,
            Format::Bgr => glenum::BGR,
            Format::Bgra => glenum::BGRA,
        }
    }

    pub fn bytes_per_pixel(self) -> (r: u8)
        ensures
            r == bytes_per_pixel(self),
    {
        match self {
            Format::Rgb | Format::Bgr => 3,
            Format::Rgba | Format::Bgra => 4,
        }
    }
}

/// Every channel layout an incoming image may have.
#[derive(Clone, Copy, Debug, PartialEq, Eq, Structural)]
pub enum SourceLayout {
    Luma8,
    LumaA8,
    Rgb8,
    Rgba8,
    Bgr8,
    Bgra8,
    Luma16,
    LumaA16,
    Rgb16,
    Rgba16,
}

/// The supported layout that an image of layout `l` is normalised into
/// before upload: supported layouts stay, layouts without alpha widen to
/// RGB, layouts with alpha to RGBA.
pub open spec fn normalised_layout(l: SourceLayout) -> Format {
    match l {
        SourceLayout::Rgb8 => Format::Rgb,
        SourceLayout::Rgba8 => Format::Rgba,
        SourceLayout::Bgr8 => Format::Bgr,
        SourceLayout::Bgra8 => Format::Bgra,
        SourceLayout::Luma8 | SourceLayout::Luma16 | SourceLayout::Rgb16 => Format::Rgb,
        SourceLayout::LumaA8 | SourceLayout::LumaA16 | SourceLayout::Rgba16 => Format::Rgba,
    }
}

pub fn upload_format(l: SourceLayout) -> (r: Format)
    ensures
        r == normalised_layout(l),
{
    match l {
        SourceLayout::Rgb8 => Format::Rgb,
        SourceLayout::Rgba8 => Format::Rgba,
        SourceLayout::Bgr8 => Format::Bgr,
        SourceLayout::Bgra8 => Format::Bgra,
        SourceLayout::Luma8 | SourceLayout::Luma16 | SourceLayout::Rgb16 => Format::Rgb,
        SourceLayout::LumaA8 | SourceLayout::LumaA16 | SourceLayout::Rgba16 => Format::Rgba,
    }
}

/// One texel, channels in the order red, green, blue, alpha.
#[derive(Clone, Copy, Debug, PartialEq, Eq, Structural)]
pub struct Rgba {
    pub r: u8,
    pub g: u8,
    pub b: u8,
    pub a: u8,
}

/// The pixel whose bytes start at `at` in data of layout `f`.
pub open spec fn decode_pixel(f: Format, bytes: Seq<u8>, at: int) -> Rgba {
    match f {
        Format::Rgb => Rgba { r: bytes[at], g: bytes[at + 1], b: bytes[at + 2], a: 255 },
        Format::Rgba => Rgba { r: bytes[at], g: bytes[at + 1], b: bytes[at + 2], a: bytes[at + 3] },
        Format::Bgr => Rgba { r: bytes[at + 2], g: bytes[at + 1], b: bytes[at], a: 255 },
        Format::Bgra => Rgba { r: bytes[at + 2], g: bytes[at + 1], b: bytes[at], a: bytes[at + 3] },
    }
}

/// What a texture of format `f` holds after `p` is written to it: storage
/// without alpha reads back as opaque.
pub open spec fn stored(f: Format, p: Rgba) -> Rgba {
    if has_alpha(f) {
        p
    } else {
        Rgba { a: 255, ..p }
    }
}

/// A decoded raster image in one of the supported layouts, rows top to
/// bottom, pixels left to right.
#[derive(Debug)]
pub struct Image {
    width: u32,
    height: u32,
    format: Format,
    data: Vec<u8>,
}

impl Image {
    #[verifier::type_invariant]
    spec fn inv(&self) -> bool {
        self.data@.len() == self.width * self.height * bytes_per_pixel(self.format)
    }

    pub closed spec fn width_spec(&self) -> u32 {
        self.width
    }

    pub closed spec fn height_spec(&self) -> u32 {
        self.height
    }

    pub closed spec fn format_spec(&self) -> Format {
        self.format
    }

    pub closed spec fn data_spec(&self) -> Seq<u8> {
        self.data@
    }

    /// The pixel in row `row` and column `col`.
    pub open spec fn pixel(&self, row: int, col: int) -> Rgba {
        decode_pixel(
            self.format_spec(),
            self.data_spec(),
            (row * self.width_spec() + col) * bytes_per_pixel(self.format_spec()),
        )
    }

    /// An image of `width` by `height` pixels from its bytes; `None` when
    /// the number of bytes does not match.
    pub fn new(width: u32, height: u32, format: Format, data: Vec<u8>) -> (r: Option<Image>)
        ensures
            r is Some <==> data@.len() == width * height * bytes_per_pixel(format),
            r matches Some(img) ==> img.width_spec() == width && img.height_spec() == height
                && img.format_spec() == format && img.data_spec() == data@,
    {
        let bpp = format.bytes_per_pixel() as u64;
        let w = width as u64;
        let h = height as u64;
        assert(w * h <= 0xffff_ffff * 0xffff_ffff) by (nonlinear_arith)
            requires
                w <= 0xffff_ffff,
                h <= 0xffff_ffff,
        ;
        let pixels = w * h;
        assert(pixels * bpp == width * height * bytes_per_pixel(format));
        match pixels.checked_mul(bpp) {
            Some(n) => {
                if n == data.len() as u64 {
                    Some(Image { width, height, format, data })
                } else {
                    None
                }
            },
            None => {
                let len: usize = data.len();
                assert(len as int <= u64::MAX as int);
                None
            },
        }
    }

    pub fn width(&self) -> (r: u32)
        ensures
            r == self.width_spec(),
    {
        self.width
    }

    pub fn height(&self) -> (r: u32)
        ensures
            r == self.height_spec(),
    {
        self.height
    }

    pub fn format(&self) -> (r: Format)
        ensures
            r == self.format_spec(),
    {
        self.format
    }

    pub fn data(&self) -> (r: &Vec<u8>)
        ensures
            r@ == self.data_spec(),
    {
        &self.data
    }

    /// Gives up the image's bytes.
    pub fn into_data(self) -> (r: Vec<u8>)
        ensures
            r@ == self.data_spec(),
    {
        self.data
    }
}

#[derive(Debug, PartialEq, Eq, Clone, Copy, Structural)]
pub enum Filter {
    Nearest,
    Linear,
}

/// A minification filter: how texels are sampled within a level, and how
/// levels of the mip chain are blended, if at all.
#[derive(Debug, PartialEq, Eq, Clone, Copy, Structural)]
pub enum MipMapFilter {
    Nearest { mipmap: Option<Filter> },
    Linear { mipmap: Option<Filter> },
}

pub open spec fn filter_value(f: Filter) -> u32 {
    match f {
        Filter::Nearest => glenum::NEAREST,
        Filter::Linear => glenum::LINEAR,
    }
}

pub open spec fn min_filter_value(f: MipMapFilter) -> u32 {
    match f {
        MipMapFilter::Nearest { mipmap: None } => glenum::NEAREST,
        MipMapFilter::Nearest { mipmap: Some(Filter::Nearest) } => glenum::NEAREST_MIPMAP_NEAREST,
        MipMapFilter::Nearest { mipmap: Some(Filter::Linear) } => glenum::NEAREST_MIPMAP_LINEAR,
        MipMapFilter::Linear { mipmap: None } => glenum::LINEAR,
        MipMapFilter::Linear { mipmap: Some(Filter::Nearest) } => glenum::LINEAR_MIPMAP_NEAREST,
        MipMapFilter::Linear { mipmap: Some(Filter::Linear) } => glenum::LINEAR_MIPMAP_LINEAR,
    }
}

impl Filter {
    /// The same filter used for minification, without mip blending.
    pub fn into_min_filter(self) -> (r: MipMapFilter)
        ensures
            r == (match self {
                Filter::Nearest => MipMapFilter::Nearest { mipmap: None },
                Filter::Linear => MipMapFilter::Linear { mipmap: None },
            }),
    {
        match self {
            Filter::Nearest => MipMapFilter::Nearest { mipmap: None },
            Filter::Linear => MipMapFilter::Linear { mipmap: None },
        }
    }

    pub fn gl_value(self) -> (r: u32)
        ensures
            r == filter_value(self),
    {
        match self {
            Filter::Nearest => glenum::NEAREST,
            Filter::Linear => glenum::LINEAR,
        }
    }
}

impl MipMapFilter {
    pub fn gl_value(self) -> (r: u32)
        ensures
            r == min_filter_value(self),
    {
        match self {
            MipMapFilter::Nearest { mipmap: None } => glenum::NEAREST,
            MipMapFilter::Nearest { mipmap: Some(Filter::Nearest) } => glenum::NEAREST_MIPMAP_NEAREST,
            MipMapFilter::Nearest { mipmap: Some(Filter::Linear) } => glenum::NEAREST_MIPMAP_LINEAR,
            MipMapFilter::Linear { mipmap: None } => glenum::LINEAR,
            MipMapFilter::Linear { mipmap: Some(Filter::Nearest) } => glenum::LINEAR_MIPMAP_NEAREST,
            MipMapFilter::Linear { mipmap: Some(Filter::Linear) } => glenum::LINEAR_MIPMAP_LINEAR,
        }
    }
}

/// Why a texture operation was refused.
#[derive(Clone, Copy, Debug, PartialEq, Eq, Structural)]
pub enum TextureError {
    /// The rectangle reaches past the texture's width or height.
    OutOfBounds,
}

/// A 2D texture owned by the library. Its dimensions and format are fixed
/// when it is allocated.
pub struct Texture2D {
    handle: Handle,
    width: u32,
    height: u32,
    format: Format,
    texels: Ghost<Seq<Seq<Rgba>>>,
}

/// Whether texel (`row`, `col`) lies in the `w` by `h` rectangle whose top
/// left corner is (`x`, `y`).
pub open spec fn in_rect(x: int, y: int, w: int, h: int, row: int, col: int) -> bool {
    x <= col < x + w && y <= row < y + h
}

impl Texture2D {
    #[verifier::type_invariant]
    spec fn inv(&self) -> bool {
        &&& self.handle.kind_spec() == HandleKind::Texture
        &&& self.texels@.len() == self.height
        &&& forall|row: int| 0 <= row < self.height ==> (#[trigger] self.texels@[row]).len() == self.width
    }

    pub closed spec fn id_spec(&self) -> u64 {
        self.handle.id_spec()
    }

    pub closed spec fn width_spec(&self) -> u32 {
        self.width
    }

    pub closed spec fn height_spec(&self) -> u32 {
        self.height
    }

    pub closed spec fn format_spec(&self) -> Format {
        self.format
    }

    /// The texel in row `row` and column `col`.
    pub closed spec fn texel(&self, row: int, col: int) -> Rgba {
        self.texels@[row][col]
    }

    pub fn id(&self) -> (r: u64)
        ensures
            r == self.id_spec(),
    {
        self.handle.id()
    }

    pub fn width(&self) -> (r: u32)
        ensures
            r == self.width_spec(),
    {
        self.width
    }

    pub fn height(&self) -> (r: u32)
        ensures
            r == self.height_spec(),
    {
        self.height
    }

    pub fn format(&self) -> (r: Format)
        ensures
            r == self.format_spec(),
    {
        self.format
    }

    /// Storage of `width` by `height` texels of `format`, contents
    /// unspecified, with its mip chain generated.
    pub fn with_dimensions(ctx: &mut Context, width: u32, height: u32, format: Format) -> (r: Self)
        requires
            old(ctx).wf(),
            old(ctx).has_room(1),
        ensures
            final(ctx).wf(),
            r.width_spec() == width,
            r.height_spec() == height,
            r.format_spec() == format,
            r.id_spec() == old(ctx).next_id(),
            r.id_spec() != 0,
            !old(ctx).live().contains(r.id_spec()),
            final(ctx).live() == old(ctx).live().insert(r.id_spec()),
            final(ctx).next_id() == old(ctx).next_id() + 1,
            final(ctx).recorded() == old(ctx).recorded() + seq![
                GlCall::Generate { kind: HandleKind::Texture, first: r.id_spec(), count: 1 },
                GlCall::BindTexture { target: glenum::TEXTURE_2D, texture: r.id_spec() },
                GlCall::TexImage2D {
                    internal_format: internal_format_of(format),
                    width,
                    height,
                    format: pixel_format_of(format),
                    data: None,
                },
                GlCall::GenerateMipmap { target: glenum::TEXTURE_2D },
            ],
    {
        let handle = ctx.generate_one(HandleKind::Texture);
        let id = handle.id();
        ctx.record(GlCall::BindTexture { target: glenum::TEXTURE_2D, texture: id });
        let internal_format = format.into_internal_format();
        let pixel_format = format.into_format();
        ctx.record(
            GlCall::TexImage2D {
                internal_format,
                width,
                height,
                format: pixel_format,
                data: None,
            },
        );
        ctx.record(GlCall::GenerateMipmap { target: glenum::TEXTURE_2D });
        let ghost blank = Rgba { r: 0, g: 0, b: 0, a: 0 };
        let t = Texture2D {
            handle,
            width,
            height,
            format,
            texels: Ghost(Seq::new(height as nat, |row: int| Seq::new(width as nat, |col: int| blank))),
        };
        assert(ctx.recorded() =~= old(ctx).recorded() + seq![
            GlCall::Generate { kind: HandleKind::Texture, first: t.id_spec(), count: 1 },
            GlCall::BindTexture { target: glenum::TEXTURE_2D, texture: t.id_spec() },
            GlCall::TexImage2D {
                internal_format: internal_format_of(format),
                width,
                height,
                format: pixel_format_of(format),
                data: None,
            },
            GlCall::GenerateMipmap { target: glenum::TEXTURE_2D },
        ]);
        t
    }
}


/// `c` uploads `bytes` as a whole `width` by `height` level.
pub open spec fn is_tex_image(
    c: GlCall,
    internal_format: u32,
    width: u32,
    height: u32,
    format: u32,
    bytes: Seq<u8>,
) -> bool {
    match c {
        GlCall::TexImage2D { internal_format: i, width: w, height: h, format: f, data: Some(d) } => {
            i == internal_format && w == width && h == height && f == format && d@ == bytes
        },
        _ => false,
    }
}

/// `c` overwrites the `width` by `height` rectangle at (`x`, `y`) with `bytes`.
pub open spec fn is_tex_sub_image(
    c: GlCall,
    x: u32,
    y: u32,
    width: u32,
    height: u32,
    format: u32,
    bytes: Seq<u8>,
) -> bool {
    match c {
        GlCall::TexSubImage2D { x: cx, y: cy, width: w, height: h, format: f, data: d } => {
            cx == x && cy == y && w == width && h == height && f == format && d@ == bytes
        },
        _ => false,
    }
}

impl Texture2D {
    /// A texture holding `image`: same dimensions, same format, each texel
    /// the image's pixel, with its mip chain generated.
    pub fn from_image(ctx: &mut Context, image: Image) -> (r: Self)
        requires
            old(ctx).wf(),
            old(ctx).has_room(1),
        ensures
            final(ctx).wf(),
            r.width_spec() == image.width_spec(),
            r.height_spec() == image.height_spec(),
            r.format_spec() == image.format_spec(),
            forall|row: int, col: int|
                0 <= row < r.height_spec() && 0 <= col < r.width_spec() ==> #[trigger] r.texel(row, col)
                    == stored(r.format_spec(), image.pixel(row, col)),
            r.id_spec() == old(ctx).next_id(),
            r.id_spec() != 0,
            !old(ctx).live().contains(r.id_spec()),
            final(ctx).live() == old(ctx).live().insert(r.id_spec()),
            final(ctx).next_id() == old(ctx).next_id() + 1,
            ({
                let n = old(ctx).recorded().len() as int;
                &&& final(ctx).recorded().len() == n + 4
                &&& final(ctx).recorded().subrange(0, n) == old(ctx).recorded()
                &&& final(ctx).recorded()[n] == (GlCall::Generate {
                    kind: HandleKind::Texture,
                    first: r.id_spec(),
                    count: 1,
                })
                &&& final(ctx).recorded()[n + 1] == (GlCall::BindTexture {
                    target: glenum::TEXTURE_2D,
                    texture: r.id_spec(),
                })
                &&& is_tex_image(
                    final(ctx).recorded()[n + 2],
                    internal_format_of(image.format_spec()),
                    image.width_spec(),
                    image.height_spec(),
                    pixel_format_of(image.format_spec()),
                    image.data_spec(),
                )
                &&& final(ctx).recorded()[n + 3] == (GlCall::GenerateMipmap {
                    target: glenum::TEXTURE_2D,
                })
            }),
    {
        proof {
            use_type_invariant(&image);
        }
        let ghost img = image;
        let handle = ctx.generate_one(HandleKind::Texture);
        let id = handle.id();
        ctx.record(GlCall::BindTexture { target: glenum::TEXTURE_2D, texture: id });
        let width = image.width();
        let height = image.height();
        let format = image.format();
        let internal_format = format.into_internal_format();
        let pixel_format = format.into_format();
        let data = image.into_data();
        ctx.record(
            GlCall::TexImage2D {
                internal_format,
                width,
                height,
                format: pixel_format,
                data: Some(data),
            },
        );
        ctx.record(GlCall::GenerateMipmap { target: glenum::TEXTURE_2D });
        Texture2D {
            handle,
            width,
            height,
            format,
            texels: Ghost(
                Seq::new(
                    height as nat,
                    |row: int| Seq::new(width as nat, |col: int| stored(format, img.pixel(row, col))),
                ),
            ),
        }
    }

    /// Overwrites the rectangle at (`x`, `y`) with `image` and regenerates
    /// the mip chain. A rectangle that reaches past the texture is refused
    /// before any call; texels outside the rectangle keep their values.
    pub fn replace_rect(&mut self, ctx: &mut Context, x: u32, y: u32, image: &Image) -> (r: Result<
        (),
        TextureError,
    >)
        requires
            old(ctx).wf(),
        ensures
            r is Err <==> x + image.width_spec() > old(self).width_spec() || y + image.height_spec()
                > old(self).height_spec(),
            r is Err ==> *final(ctx) == *old(ctx) && *final(self) == *old(self),
            final(self).id_spec() == old(self).id_spec(),
            final(self).width_spec() == old(self).width_spec(),
            final(self).height_spec() == old(self).height_spec(),
            final(self).format_spec() == old(self).format_spec(),
            r is Ok ==> forall|row: int, col: int|
                0 <= row < old(self).height_spec() && 0 <= col < old(self).width_spec()
                    ==> #[trigger] final(self).texel(row, col) == if in_rect(
                    x as int,
                    y as int,
                    image.width_spec() as int,
                    image.height_spec() as int,
                    row,
                    col,
                ) {
                    stored(old(self).format_spec(), image.pixel(row - y, col - x))
                } else {
                    old(self).texel(row, col)
                },
            r is Ok ==> ({
                let n = old(ctx).recorded().len() as int;
                &&& final(ctx).wf()
                &&& final(ctx).live() == old(ctx).live()
                &&& final(ctx).next_id() == old(ctx).next_id()
                &&& final(ctx).recorded().len() == n + 4
                &&& final(ctx).recorded().subrange(0, n) == old(ctx).recorded()
                &&& final(ctx).recorded()[n] == (GlCall::ActiveTexture { unit: 0 })
                &&& final(ctx).recorded()[n + 1] == (GlCall::BindTexture {
                    target: glenum::TEXTURE_2D,
                    texture: old(self).id_spec(),
                })
                &&& is_tex_sub_image(
                    final(ctx).recorded()[n + 2],
                    x,
                    y,
                    image.width_spec(),
                    image.height_spec(),
                    pixel_format_of(image.format_spec()),
                    image.data_spec(),
                )
                &&& final(ctx).recorded()[n + 3] == (GlCall::GenerateMipmap {
                    target: glenum::TEXTURE_2D,
                })
            }),
    {
        proof {
            use_type_invariant(&*self);
        }
        let iw = image.width();
        let ih = image.height();
        if iw > self.width || x > self.width - iw || ih > self.height || y > self.height - ih {
            return Err(TextureError::OutOfBounds);
        }
        self.bind(ctx, 0);
        let pixel_format = image.format().into_format();
        let data = image.data().clone();
        assert(data@ =~= image.data_spec());
        ctx.record(GlCall::TexSubImage2D { x, y, width: iw, height: ih, format: pixel_format, data });
        ctx.record(GlCall::GenerateMipmap { target: glenum::TEXTURE_2D });
        let ghost before = self.texels@;
        let ghost fmt = self.format;
        let ghost w = self.width;
        let ghost img = *image;
        self.texels = Ghost(
            Seq::new(
                self.height as nat,
                |row: int|
                    Seq::new(
                        w as nat,
                        |col: int|
                            if in_rect(x as int, y as int, iw as int, ih as int, row, col) {
                                stored(fmt, img.pixel(row - y, col - x))
                            } else {
                                before[row][col]
                            },
                    ),
            ),
        );
        Ok(())
    }

    /// Sets how the texture is sampled when magnified.
    pub fn set_mag_filter(&self, ctx: &mut Context, f: Filter)
        requires
            old(ctx).wf(),
        ensures
            Context::appended(
                *old(ctx),
                *final(ctx),
                seq![
                    GlCall::ActiveTexture { unit: 0 },
                    GlCall::BindTexture { target: glenum::TEXTURE_2D, texture: self.id_spec() },
                    GlCall::TexParameter {
                        target: glenum::TEXTURE_2D,
                        pname: glenum::TEXTURE_MAG_FILTER,
                        value: filter_value(f),
                    },
                ],
            ),
    {
        self.bind(ctx, 0);
        let value = f.gl_value();
        ctx.record(
            GlCall::TexParameter {
                target: glenum::TEXTURE_2D,
                pname: glenum::TEXTURE_MAG_FILTER,
                value,
            },
        );
        assert(ctx.recorded() =~= old(ctx).recorded() + seq![
            GlCall::ActiveTexture { unit: 0 },
            GlCall::BindTexture { target: glenum::TEXTURE_2D, texture: self.id_spec() },
            GlCall::TexParameter {
                target: glenum::TEXTURE_2D,
                pname: glenum::TEXTURE_MAG_FILTER,
                value: filter_value(f),
            },
        ]);
    }

    /// Sets how the texture is sampled when minified, mip blending included.
    pub fn set_min_filter(&self, ctx: &mut Context, f: MipMapFilter)
        requires
            old(ctx).wf(),
        ensures
            Context::appended(
                *old(ctx),
                *final(ctx),
                seq![
                    GlCall::ActiveTexture { unit: 0 },
                    GlCall::BindTexture { target: glenum::TEXTURE_2D, texture: self.id_spec() },
                    GlCall::TexParameter {
                        target: glenum::TEXTURE_2D,
                        pname: glenum::TEXTURE_MIN_FILTER,
                        value: min_filter_value(f),
                    },
                ],
            ),
    {
        self.bind(ctx, 0);
        let value = f.gl_value();
        ctx.record(
            GlCall::TexParameter {
                target: glenum::TEXTURE_2D,
                pname: glenum::TEXTURE_MIN_FILTER,
                value,
            },
        );
        assert(ctx.recorded() =~= old(ctx).recorded() + seq![
            GlCall::ActiveTexture { unit: 0 },
            GlCall::BindTexture { target: glenum::TEXTURE_2D, texture: self.id_spec() },
            GlCall::TexParameter {
                target: glenum::TEXTURE_2D,
                pname: glenum::TEXTURE_MIN_FILTER,
                value: min_filter_value(f),
            },
        ]);
    }

    /// Makes texture unit `unit` active and attaches this texture to it.
    pub fn bind(&self, ctx: &mut Context, unit: u32)
        requires
            old(ctx).wf(),
        ensures
            Context::appended(
                *old(ctx),
                *final(ctx),
                seq![
                    GlCall::ActiveTexture { unit },
                    GlCall::BindTexture { target: glenum::TEXTURE_2D, texture: self.id_spec() },
                ],
            ),
    {
        ctx.record(GlCall::ActiveTexture { unit });
        let id = self.id();
        ctx.record(GlCall::BindTexture { target: glenum::TEXTURE_2D, texture: id });
        assert(ctx.recorded() =~= old(ctx).recorded() + seq![
            GlCall::ActiveTexture { unit },
            GlCall::BindTexture { target: glenum::TEXTURE_2D, texture: self.id_spec() },
        ]);
    }

    /// Attaches this texture to whichever unit is active.
    pub fn bind_current(&self, ctx: &mut Context)
        requires
            old(ctx).wf(),
        ensures
            Context::appended(
                *old(ctx),
                *final(ctx),
                seq![GlCall::BindTexture { target: glenum::TEXTURE_2D, texture: self.id_spec() }],
            ),
    {
        let id = self.id();
        ctx.record(GlCall::BindTexture { target: glenum::TEXTURE_2D, texture: id });
    }

    /// Deletes the driver object.
    pub fn delete(self, ctx: &mut Context)
        requires
            old(ctx).wf(),
        ensures
            final(ctx).wf(),
            final(ctx).live() == old(ctx).live().remove(self.id_spec()),
            final(ctx).recorded() == old(ctx).recorded().push(
                GlCall::Delete { kind: HandleKind::Texture, id: self.id_spec() },
            ),
    {
        proof {
            use_type_invariant(&self);
        }
        let Texture2D { handle, .. } = self;
        ctx.release(handle);
    }
}

/// A 1D texture owned by the library.
pub struct Texture1D {
    handle: Handle,
}

impl Texture1D {
    #[verifier::type_invariant]
    spec fn inv(&self) -> bool {
        self.handle.kind_spec() == HandleKind::Texture
    }

    pub closed spec fn id_spec(&self) -> u64 {
        self.handle.id_spec()
    }

    pub fn id(&self) -> (r: u64)
        ensures
            r == self.id_spec(),
    {
        self.handle.id()
    }

    /// A texture object with no storage yet.
    pub fn new(ctx: &mut Context) -> (r: Self)
        requires
            old(ctx).wf(),
            old(ctx).has_room(1),
        ensures
            final(ctx).wf(),
            r.id_spec() == old(ctx).next_id(),
            r.id_spec() != 0,
            !old(ctx).live().contains(r.id_spec()),
            final(ctx).live() == old(ctx).live().insert(r.id_spec()),
            final(ctx).next_id() == old(ctx).next_id() + 1,
            final(ctx).recorded() == old(ctx).recorded().push(
                GlCall::Generate { kind: HandleKind::Texture, first: old(ctx).next_id(), count: 1 },
            ),
    {
        Texture1D { handle: ctx.generate_one(HandleKind::Texture) }
    }

    /// Deletes the driver object.
    pub fn delete(self, ctx: &mut Context)
        requires
            old(ctx).wf(),
        ensures
            final(ctx).wf(),
            final(ctx).live() == old(ctx).live().remove(self.id_spec()),
            final(ctx).recorded() == old(ctx).recorded().push(
                GlCall::Delete { kind: HandleKind::Texture, id: self.id_spec() },
            ),
    {
        proof {
            use_type_invariant(&self);
        }
        let Texture1D { handle } = self;
        ctx.release(handle);
    }
}

/// A 3D texture owned by the library.
pub struct Texture3D {
    handle: Handle,
}

impl Texture3D {
    #[verifier::type_invariant]
    spec fn inv(&self) -> bool {
        self.handle.kind_spec() == HandleKind::Texture
    }

    pub closed spec fn id_spec(&self) -> u64 {
        self.handle.id_spec()
    }

    pub fn id(&self) -> (r: u64)
        ensures
            r == self.id_spec(),
    {
        self.handle.id()
    }

    /// A texture object with no storage yet.
    pub fn new(ctx: &mut Context) -> (r: Self)
        requires
            old(ctx).wf(),
            old(ctx).has_room(1),
        ensures
            final(ctx).wf(),
            r.id_spec() == old(ctx).next_id(),
            r.id_spec() != 0,
            !old(ctx).live().contains(r.id_spec()),
            final(ctx).live() == old(ctx).live().insert(r.id_spec()),
            final(ctx).next_id() == old(ctx).next_id() + 1,
            final(ctx).recorded() == old(ctx).recorded().push(
                GlCall::Generate { kind: HandleKind::Texture, first: old(ctx).next_id(), count: 1 },
            ),
    {
        Texture3D { handle: ctx.generate_one(HandleKind::Texture) }
    }

    /// Deletes the driver object.
    pub fn delete(self, ctx: &mut Context)
        requires
            old(ctx).wf(),
        ensures
            final(ctx).wf(),
            final(ctx).live() == old(ctx).live().remove(self.id_spec()),
            final(ctx).recorded() == old(ctx).recorded().push(
                GlCall::Delete { kind: HandleKind::Texture, id: self.id_spec() },
            ),
    {
        proof {
            use_type_invariant(&self);
        }
        let Texture3D { handle } = self;
        ctx.release(handle);
    }
}

} // verus!
