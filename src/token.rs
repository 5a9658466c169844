//! Tokens: sprites placed on grid cells and drawn in one instanced batch
//! per token kind.
use crate::batch::{
    batches, count_of, lemma_runs_keys_bounded, lemma_run_start_mono, lemma_sorted_runs, run_start,
    runs, sorted,
};
use crate::buffer::{
    unit_quad, unit_quad_spec, AccessFrequency, AccessType, Bindable, SlotBinding,
    VertexAttribArray, VertexAttribObject, VertexBuffer,
};
use crate::context::{Context, GlCall, UniformValue};
use crate::glenum;
use crate::hex::{anchor_x, anchor_y, corner_offset, grid_to_world, oriented_corner, GridCoords};
use crate::program::{is_uniform, Program};
use crate::texture::{Image, Texture2D};
use vstd::prelude::*;

verus! {

/// The largest column or row a token instance may stand on.
pub const MAX_COORD: u32 = 0x1fff_ffff;

/// A stable index into a manager's token definitions.
#[derive(Clone, Copy, Debug, PartialEq, Eq, PartialOrd, Ord, Hash, Structural)]
pub struct TokenHandle(pub usize);

/// Where a token sits on its cell.
#[derive(Clone, Copy, Debug, PartialEq, Eq, Structural)]
pub enum CentredOn {
    /// On the cell's anchor.
    Tile,
    /// On a corner of the hex, for markers on walls and edges.
    Corner { point_up: bool },
}

/// How a token is clipped against its mask.
#[derive(Clone, Copy, Debug, PartialEq, Eq, Structural)]
pub enum Mask {
    NoMask,
    Behind,
    Clip,
}

/// A token definition: its sprite and how it is sized and placed.
pub struct Token {
    texture: Texture2D,
    dimensions: (u32, u32),
    nominal_size: u32,
    scale: bool,
    mask: Mask,
    centred_on: CentredOn,
}

impl Token {
    pub closed spec fn texture_id_spec(&self) -> u64 {
        self.texture.id_spec()
    }

    pub closed spec fn dimensions_spec(&self) -> (u32, u32) {
        self.dimensions
    }

    pub closed spec fn nominal_size_spec(&self) -> u32 {
        self.nominal_size
    }

    pub closed spec fn scale_spec(&self) -> bool {
        self.scale
    }

    pub closed spec fn mask_spec(&self) -> Mask {
        self.mask
    }

    pub closed spec fn centred_on_spec(&self) -> CentredOn {
        self.centred_on
    }

    /// A token whose sprite is `image`, uploaded as its own texture.
    pub fn new(
        ctx: &mut Context,
        image: Image,
        nominal_size: u32,
        scale: bool,
        mask: Mask,
        centred_on: CentredOn,
    ) -> (r: Token)
        requires
            old(ctx).wf(),
            old(ctx).has_room(1),
        ensures
            final(ctx).wf(),
            final(ctx).next_id() == old(ctx).next_id() + 1,
            r.dimensions_spec() == (image.width_spec(), image.height_spec()),
            r.nominal_size_spec() == nominal_size,
            r.scale_spec() == scale,
            r.mask_spec() == mask,
            r.centred_on_spec() == centred_on,
            r.texture_id_spec() == old(ctx).next_id(),
    {
        let dimensions = (image.width(), image.height());
        let texture = Texture2D::from_image(ctx, image);
        Token { texture, dimensions, nominal_size, scale, mask, centred_on }
    }

    pub fn dimensions(&self) -> (r: (u32, u32))
        ensures
            r == self.dimensions_spec(),
    {
        self.dimensions
    }

    pub fn centred_on(&self) -> (r: CentredOn)
        ensures
            r == self.centred_on_spec(),
    {
        self.centred_on
    }

    /// The size the token is drawn at on a grid of `tile_size`.
    pub fn display_size(&self, tile_size: u32) -> (r: UniformValue)
        ensures
            r == display_size_of(
                self.dimensions_spec(),
                self.nominal_size_spec(),
                self.scale_spec(),
                tile_size,
            ),
    {
        let (x, y) = self.dimensions;
        if self.scale {
            let m = if x > y {
                x
            } else {
                y
            };
            if m == 0 {
                UniformValue::Vec2Ratio { x: 0, y: 0, den: 1 }
            } else {
                assert((tile_size as u64) * (x as u64) <= 0xffff_ffff * 0xffff_ffff
                    && (tile_size as u64) * (y as u64) <= 0xffff_ffff * 0xffff_ffff) by (nonlinear_arith)
                    requires
                        tile_size <= 0xffff_ffff,
                        x <= 0xffff_ffff,
                        y <= 0xffff_ffff,
                ;
                UniformValue::Vec2Ratio {
                    x: (tile_size as u64) * (x as u64),
                    y: (tile_size as u64) * (y as u64),
                    den: m as u64,
                }
            }
        } else {
            UniformValue::Vec2Of(self.nominal_size, self.nominal_size)
        }
    }
}

/// The on-screen size of a token of `dims` pixels: its nominal size, square,
/// when not scaled, else the largest size of the same aspect that fits one
/// tile (`tile * dims / max(dims)`; nothing for an empty sprite).
pub open spec fn display_size_of(dims: (u32, u32), nominal: u32, scale: bool, tile: u32) -> UniformValue {
    if scale {
        let m = if dims.0 > dims.1 {
            dims.0
        } else {
            dims.1
        };
        if m == 0 {
            UniformValue::Vec2Ratio { x: 0, y: 0, den: 1 }
        } else {
            UniformValue::Vec2Ratio {
                x: (tile * dims.0) as u64,
                y: (tile * dims.1) as u64,
                den: m as u64,
            }
        }
    } else {
        UniformValue::Vec2Of(nominal, nominal)
    }
}

/// One token placed on one cell.
#[derive(Clone, Copy, Debug, PartialEq, Eq, Structural)]
pub struct TokenInstance {
    pub coords: GridCoords,
    pub token: TokenHandle,
}

/// The handles of a sequence of instances.
pub open spec fn keys_of(s: Seq<TokenInstance>) -> Seq<usize> {
    s.map_values(|i: TokenInstance| i.token.0)
}

/// Where an instance is drawn on a grid of the given orientation, in
/// lattice units: its cell's anchor, moved to corner 0 of the hex for
/// corner-centred tokens. The grid's orientation decides where that corner
/// lies.
pub open spec fn instance_x(i: TokenInstance, c: CentredOn, point_up: bool) -> int {
    anchor_x(i.coords.x as int, i.coords.y as int, point_up) + match c {
        CentredOn::Tile => 0int,
        CentredOn::Corner { .. } => oriented_corner(0, point_up).x as int,
    }
}

pub open spec fn instance_y(i: TokenInstance, c: CentredOn, point_up: bool) -> int {
    anchor_y(i.coords.x as int, i.coords.y as int, point_up) + match c {
        CentredOn::Tile => 0int,
        CentredOn::Corner { .. } => oriented_corner(0, point_up).y as int,
    }
}

/// The per-instance positions, as `x`, `y` pairs in instance order.
pub open spec fn positions(insts: Seq<TokenInstance>, tokens: Seq<Token>, point_up: bool) -> Seq<i32> {
    Seq::new(
        2 * insts.len(),
        |i: int|
            if i % 2 == 0 {
                instance_x(
                    insts[i / 2],
                    tokens[insts[i / 2].token.0 as int].centred_on_spec(),
                    point_up,
                ) as i32
            } else {
                instance_y(
                    insts[i / 2],
                    tokens[insts[i / 2].token.0 as int].centred_on_spec(),
                    point_up,
                ) as i32
            },
    )
}

/// `p` sends each position of `out` to the position of `inp` that its
/// instance came from, one for one, and instances with the same handle
/// keep their order.
pub open spec fn stable_witness(p: Seq<int>, out: Seq<TokenInstance>, inp: Seq<TokenInstance>) -> bool {
    &&& p.len() == out.len()
    &&& out.len() == inp.len()
    &&& forall|i: int| 0 <= i < p.len() ==> 0 <= #[trigger] p[i] < inp.len() && out[i] == inp[p[i]]
    &&& forall|i: int, j: int| 0 <= i < j < p.len() ==> #[trigger] p[i] != #[trigger] p[j]
    &&& forall|i: int, j: int|
        0 <= i < j < p.len() && out[i].token == out[j].token ==> #[trigger] p[i] < #[trigger] p[j]
}

/// `out` is `inp` sorted by handle, instances with the same handle in
/// their order in `inp`.
pub open spec fn stably_sorted(out: Seq<TokenInstance>, inp: Seq<TokenInstance>) -> bool {
    &&& sorted(keys_of(out))
    &&& exists|p: Seq<int>| stable_witness(p, out, inp)
}

/// Relies on slice::sort_by_key from std: a stable sort, so the elements
/// are only reordered, come out in ascending order of the key, and equal
/// keys keep their order.
#[verifier::external_body]
fn sort_by_token(v: &mut Vec<TokenInstance>)
    ensures
        final(v)@.to_multiset() == old(v)@.to_multiset(),
        final(v)@.len() == old(v)@.len(),
        stably_sorted(final(v)@, old(v)@),
{
    v.sort_by_key(|i| i.token.0)
}

/// Why a token operation was refused.
#[derive(Clone, Copy, Debug, PartialEq, Eq, Structural)]
pub enum TokenError {
    /// A handle that names no token definition.
    UnknownToken,
    /// A cell past `MAX_COORD`.
    CoordsOutOfRange,
    /// More instances than one draw can address.
    TooMany,
    /// An instance index past the last instance.
    NoSuchInstance,
}

pub open spec fn instance_ok(i: TokenInstance, ntokens: nat) -> bool {
    &&& i.token.0 < ntokens
    &&& i.coords.x <= MAX_COORD
    &&& i.coords.y <= MAX_COORD
}

/// Owns the token definitions, their instances and what draws them.
pub struct TokenManager {
    tile_size: u32,
    point_up: bool,
    tokens: Vec<Token>,
    instances: Vec<TokenInstance>,
    quad_vbo: VertexBuffer,
    offset_vbo: VertexBuffer,
    vao: VertexAttribObject,
    needs_update: bool,
    program: Program,
}

impl TokenManager {
    pub closed spec fn wf(&self) -> bool {
        &&& self.instances@.len() * 6 <= i32::MAX
        &&& forall|i: int|
            0 <= i < self.instances@.len() ==> instance_ok(
                #[trigger] self.instances@[i],
                self.tokens@.len(),
            )
        &&& self.offset_vbo.len_spec() == 2 * self.instances@.len()
        &&& self.quad_vbo.data_spec() == unit_quad_spec()
        &&& !self.needs_update ==> sorted(keys_of(self.instances@)) && self.offset_vbo.data_spec()
            == positions(self.instances@, self.tokens@, self.point_up)
    }

    pub closed spec fn tile_size(&self) -> u32 {
        self.tile_size
    }

    /// Whether the grid the tokens stand on has pointy-topped hexes.
    pub closed spec fn point_up(&self) -> bool {
        self.point_up
    }

    /// The token definitions; a handle is an index into them.
    pub closed spec fn tokens(&self) -> Seq<Token> {
        self.tokens@
    }

    /// The instances, in their current order.
    pub closed spec fn instances(&self) -> Seq<TokenInstance> {
        self.instances@
    }

    /// Whether the instances changed since they were last sorted and
    /// uploaded.
    pub closed spec fn dirty(&self) -> bool {
        self.needs_update
    }

    /// What the driver's per-instance position buffer holds.
    pub closed spec fn position_buffer(&self) -> Seq<i32> {
        self.offset_vbo.data_spec()
    }

    pub closed spec fn vao_id(&self) -> u64 {
        self.vao.id_spec()
    }

    pub closed spec fn program_id(&self) -> u64 {
        self.program.id_spec()
    }

    /// The vertex array's slot bindings.
    pub closed spec fn slots(&self) -> Map<u32, SlotBinding> {
        self.vao.slots()
    }

    pub closed spec fn quad_buffer(&self) -> Seq<i32> {
        self.quad_vbo.data_spec()
    }

    pub closed spec fn quad_buffer_id(&self) -> u64 {
        self.quad_vbo.id_spec()
    }

    pub closed spec fn position_buffer_id(&self) -> u64 {
        self.offset_vbo.id_spec()
    }

    pub fn instances_vec(&self) -> (r: &Vec<TokenInstance>)
        ensures
            r@ == self.instances(),
    {
        &self.instances
    }

    pub fn token_count(&self) -> (r: usize)
        ensures
            r == self.tokens().len(),
    {
        self.tokens.len()
    }

    /// A manager for tokens on a grid of tiles of `tile_size`, with
    /// pointy-topped hexes when `point_up`, drawn with `program`. Returns the
    /// handles of `tokens`, in order.
    pub fn new(
        ctx: &mut Context,
        tile_size: u32,
        point_up: bool,
        tokens: Vec<Token>,
        program: Program,
    ) -> (r: (
        TokenManager,
        Vec<TokenHandle>,
    ))
        requires
            old(ctx).wf(),
            old(ctx).has_room(3),
        ensures
            final(ctx).wf(),
            final(ctx).next_id() == old(ctx).next_id() + 3,
            r.0.wf(),
            !r.0.dirty(),
            r.0.tile_size() == tile_size,
            r.0.point_up() == point_up,
            r.0.tokens() == tokens@,
            r.0.instances() == Seq::<TokenInstance>::empty(),
            r.0.program_id() == program.id_spec(),
            r.0.vao_id() == old(ctx).next_id(),
            r.0.quad_buffer_id() == old(ctx).next_id() + 1,
            r.0.position_buffer_id() == old(ctx).next_id() + 2,
            final(ctx).live() == old(ctx).live().union(
                Set::new(|id: u64| old(ctx).next_id() <= id < old(ctx).next_id() + 3),
            ),
            r.0.quad_buffer() == unit_quad_spec(),
            r.0.position_buffer() == Seq::<i32>::empty(),
            r.0.slots() == map![
                0u32 => SlotBinding {
                    buffer: r.0.quad_buffer_id(),
                    components: 2,
                    ty: glenum::INT,
                    normalized: false,
                    stride: 0,
                    offset: 0,
                    divisor: 0,
                },
                1u32 => SlotBinding {
                    buffer: r.0.position_buffer_id(),
                    components: 2,
                    ty: glenum::INT,
                    normalized: false,
                    stride: 0,
                    offset: 0,
                    divisor: 6,
                },
            ],
            r.1@.len() == tokens@.len(),
            forall|i: int| 0 <= i < r.1@.len() ==> (#[trigger] r.1@[i]).0 == i,
    {
        let mut vao = VertexAttribObject::new(ctx);
        let mut vbos = VertexBuffer::new_array(ctx, 2);
        let offset_vbo = vbos.pop().unwrap();
        let mut quad_vbo = vbos.pop().unwrap();
        quad_vbo.alloc_with(ctx, unit_quad(), AccessFrequency::Static, AccessType::Draw);
        vao.vertex_attribute_array(
            ctx,
            &quad_vbo,
            VertexAttribArray::<i32>::with_id(0).with_components_per_value(2),
        );
        vao.vertex_attribute_array(
            ctx,
            &offset_vbo,
            VertexAttribArray::<i32>::with_id(1).with_components_per_value(2).with_divisor(6),
        );
        let n = tokens.len();
        let mut handles: Vec<TokenHandle> = Vec::new();
        let mut i: usize = 0;
        while i < n
            invariant
                i <= n,
                handles@.len() == i,
                forall|k: int| 0 <= k < i ==> (#[trigger] handles@[k]).0 == k,
            decreases n - i,
        {
            handles.push(TokenHandle(i));
            i = i + 1;
        }
        let m = TokenManager {
            tile_size,
            point_up,
            tokens,
            instances: Vec::new(),
            quad_vbo,
            offset_vbo,
            vao,
            needs_update: false,
            program,
        };
        proof {
            assert(ctx.live() =~= old(ctx).live().union(
                Set::new(|id: u64| old(ctx).next_id() <= id < old(ctx).next_id() + 3),
            ));
            assert(m.vao.slots() =~= map![
                0u32 => SlotBinding {
                    buffer: m.quad_vbo.id_spec(),
                    components: 2,
                    ty: glenum::INT,
                    normalized: false,
                    stride: 0,
                    offset: 0,
                    divisor: 0,
                },
                1u32 => SlotBinding {
                    buffer: m.offset_vbo.id_spec(),
                    components: 2,
                    ty: glenum::INT,
                    normalized: false,
                    stride: 0,
                    offset: 0,
                    divisor: 6,
                },
            ]);
            assert(m.offset_vbo.data_spec() =~= Seq::<i32>::empty());
            assert(keys_of(m.instances@) =~= Seq::<usize>::empty());
            assert(positions(m.instances@, m.tokens@, m.point_up) =~= Seq::<i32>::empty());
        }
        (m, handles)
    }

    /// Adds token definitions after the existing ones; earlier handles stay
    /// valid. Returns the new handles, in order.
    pub fn append_tokens(&mut self, tokens: Vec<Token>) -> (r: Vec<TokenHandle>)
        requires
            old(self).wf(),
        ensures
            final(self).wf(),
            final(self).tokens() == old(self).tokens() + tokens@,
            final(self).instances() == old(self).instances(),
            final(self).dirty() == old(self).dirty(),
            r@.len() == tokens@.len(),
            forall|i: int| 0 <= i < r@.len() ==> (#[trigger] r@[i]).0 == old(self).tokens().len() + i,
    {
        let old_len = self.tokens.len();
        let mut rest = tokens;
        let ghost added = rest@;
        let total = rest.len();
        let mut handles: Vec<TokenHandle> = Vec::new();
        let mut i: usize = 0;
        while rest.len() > 0
            invariant
                self.wf(),
                self.needs_update == old(self).needs_update,
                self.instances == old(self).instances,
                self.tile_size == old(self).tile_size,
                old_len == old(self).tokens@.len(),
                i + rest@.len() == added.len(),
                added.len() == total,
                self.tokens@ == old(self).tokens@ + added.subrange(0, i as int),
                rest@ == added.subrange(i as int, added.len() as int),
                handles@.len() == i,
                forall|k: int| 0 <= k < i ==> (#[trigger] handles@[k]).0 == old_len + k,
            decreases rest.len(),
        {
            assert(self.tokens@.len() == old_len + i);
            let t = rest.remove(0);
            let ghost before = self.tokens@;
            self.tokens.push(t);
            assert(self.tokens@ =~= old(self).tokens@ + added.subrange(0, i + 1));
            assert(rest@ =~= added.subrange(i + 1, added.len() as int));
            proof {
                assert forall|k: int| 0 <= k < before.len() implies self.tokens@[k] == before[k] by {}
                assert(positions(self.instances@, self.tokens@, self.point_up) =~= positions(self.instances@, before, self.point_up));
            }
            handles.push(TokenHandle(self.tokens.len() - 1));
            i = i + 1;
        }
        assert(added.subrange(0, added.len() as int) =~= added);
        handles
    }
}

/// The first reason an instance of `s` cannot be added, scanning in
/// order: an unknown handle, or a cell past `MAX_COORD`.
pub open spec fn first_bad(s: Seq<TokenInstance>, ntokens: nat) -> Option<TokenError>
    decreases s.len(),
{
    if s.len() == 0 {
        None
    } else {
        match first_bad(s.drop_last(), ntokens) {
            Some(e) => Some(e),
            None => {
                let i = s.last();
                if i.token.0 >= ntokens {
                    Some(TokenError::UnknownToken)
                } else if i.coords.x > MAX_COORD || i.coords.y > MAX_COORD {
                    Some(TokenError::CoordsOutOfRange)
                } else {
                    None
                }
            },
        }
    }
}

/// The error `append_instances` gives, if any.
pub open spec fn append_error(
    existing: nat,
    new: Seq<TokenInstance>,
    ntokens: nat,
) -> Option<TokenError> {
    match first_bad(new, ntokens) {
        Some(e) => Some(e),
        None => if (existing + new.len()) * 6 > i32::MAX {
            Some(TokenError::TooMany)
        } else {
            None
        },
    }
}

proof fn lemma_first_bad_prefix(s: Seq<TokenInstance>, k: int, ntokens: nat)
    requires
        0 <= k <= s.len(),
        first_bad(s.subrange(0, k), ntokens) is Some,
    ensures
        first_bad(s, ntokens) == first_bad(s.subrange(0, k), ntokens),
    decreases s.len() - k,
{
    if k == s.len() {
        assert(s.subrange(0, k) =~= s);
    } else {
        assert(s.drop_last().subrange(0, k) =~= s.subrange(0, k));
        lemma_first_bad_prefix(s.drop_last(), k, ntokens);
    }
}

proof fn lemma_first_bad_none(s: Seq<TokenInstance>, ntokens: nat)
    requires
        first_bad(s, ntokens) is None,
    ensures
        forall|i: int| 0 <= i < s.len() ==> instance_ok(#[trigger] s[i], ntokens),
    decreases s.len(),
{
    if s.len() > 0 {
        lemma_first_bad_none(s.drop_last(), ntokens);
        assert forall|i: int| 0 <= i < s.len() implies instance_ok(#[trigger] s[i], ntokens) by {
            if i < s.len() - 1 {
                assert(s.drop_last()[i] == s[i]);
            }
        }
    }
}

/// Reordering keeps every instance valid.
proof fn lemma_permutation_keeps_ok(a: Seq<TokenInstance>, b: Seq<TokenInstance>, ntokens: nat)
    requires
        a.to_multiset() == b.to_multiset(),
        forall|i: int| 0 <= i < a.len() ==> instance_ok(#[trigger] a[i], ntokens),
    ensures
        forall|i: int| 0 <= i < b.len() ==> instance_ok(#[trigger] b[i], ntokens),
{
    broadcast use vstd::seq_lib::to_multiset_contains;

    assert forall|i: int| 0 <= i < b.len() implies instance_ok(#[trigger] b[i], ntokens) by {
        assert(b.contains(b[i]));
        assert(b.to_multiset().count(b[i]) > 0);
        assert(a.contains(b[i]));
    }
}

impl TokenManager {
    /// The positions of the instances, in order.
    fn compute_positions(&self) -> (r: Vec<i32>)
        requires
            forall|i: int|
                0 <= i < self.instances@.len() ==> instance_ok(
                    #[trigger] self.instances@[i],
                    self.tokens@.len(),
                ),
            self.instances@.len() * 6 <= i32::MAX,
        ensures
            r@ == positions(self.instances@, self.tokens@, self.point_up),
    {
        let n = self.instances.len();
        let mut out: Vec<i32> = Vec::new();
        let mut i: usize = 0;
        while i < n
            invariant
                n == self.instances@.len(),
                i <= n,
                forall|k: int|
                    0 <= k < n ==> instance_ok(#[trigger] self.instances@[k], self.tokens@.len()),
                out@.len() == 2 * i,
                forall|k: int|
                    0 <= k < 2 * i ==> #[trigger] out@[k] == positions(self.instances@, self.tokens@, self.point_up)[k],
            decreases n - i,
        {
            let inst = self.instances[i];
            assert(instance_ok(self.instances@[i as int], self.tokens@.len()));
            let centred = self.tokens[inst.token.0].centred_on();
            let at = grid_to_world(inst.coords, self.point_up);
            let corner = corner_offset(0, self.point_up);
            let (dx, dy): (i64, i64) = match centred {
                CentredOn::Tile => (0, 0),
                CentredOn::Corner { .. } => (corner.x, corner.y),
            };
            out.push((at.x + dx) as i32);
            out.push((at.y + dy) as i32);
            proof {
                let g = positions(self.instances@, self.tokens@, self.point_up);
                assert((2 * i) / 2 == i && (2 * i) % 2 == 0);
                assert((2 * i + 1) / 2 == i && (2 * i + 1) % 2 == 1);
                assert(out@[2 * i] == g[2 * i]);
                assert(out@[2 * i + 1] == g[2 * i + 1]);
            }
            i = i + 1;
        }
        assert(out@ =~= positions(self.instances@, self.tokens@, self.point_up));
        out
    }

    /// Adds instances, then sorts all instances by handle and uploads their
    /// positions. An instance with an unknown handle or a cell past
    /// `MAX_COORD` is refused before any call, as is a total beyond what
    /// one draw can address.
    pub fn append_instances(&mut self, ctx: &mut Context, new: &Vec<TokenInstance>) -> (r: Result<
        (),
        TokenError,
    >)
        requires
            old(self).wf(),
            old(ctx).wf(),
        ensures
            final(self).wf(),
            final(ctx).wf(),
            final(self).tokens() == old(self).tokens(),
            r is Err <==> append_error(
                old(self).instances().len(),
                new@,
                old(self).tokens().len(),
            ) is Some,
            r matches Err(e) ==> append_error(
                old(self).instances().len(),
                new@,
                old(self).tokens().len(),
            ) == Some(e) && *final(self) == *old(self) && *final(ctx) == *old(ctx),
            r is Ok ==> {
                &&& final(self).instances().to_multiset() == (old(self).instances()
                    + new@).to_multiset()
                &&& stably_sorted(final(self).instances(), old(self).instances() + new@)
                &&& sorted(keys_of(final(self).instances()))
                &&& !final(self).dirty()
                &&& final(self).position_buffer() == positions(
                    final(self).instances(),
                    final(self).tokens(),
                    final(self).point_up(),
                )
                &&& final(ctx).live() == old(ctx).live()
                &&& final(ctx).next_id() == old(ctx).next_id()
                &&& final(self).position_buffer_id() == old(self).position_buffer_id()
                &&& final(self).slots() == old(self).slots()
                &&& final(ctx).recorded().len() == old(ctx).recorded().len() + 2
                &&& final(ctx).recorded().subrange(0, old(ctx).recorded().len() as int) == old(
                    ctx,
                ).recorded()
                &&& final(ctx).recorded()[old(ctx).recorded().len() as int] == (GlCall::BindBuffer {
                    target: glenum::ARRAY_BUFFER,
                    buffer: old(self).position_buffer_id(),
                })
                &&& final(ctx).recorded()[old(ctx).recorded().len() as int + 1] matches GlCall::BufferData {
                    target: t,
                    data: d,
                    usage: u,
                } && t == glenum::ARRAY_BUFFER && d@ == final(self).position_buffer() && u
                    == glenum::DYNAMIC_DRAW
            },
    {
        let ntokens = self.tokens.len();
        let mut i: usize = 0;
        while i < new.len()
            invariant
                *self == *old(self),
                *ctx == *old(ctx),
                self.wf(),
                ctx.wf(),
                i <= new.len(),
                ntokens == self.tokens@.len(),
                first_bad(new@.subrange(0, i as int), ntokens as nat) is None,
            decreases new.len() - i,
        {
            let inst = new[i];
            assert(new@.subrange(0, i + 1).drop_last() =~= new@.subrange(0, i as int));
            if inst.token.0 >= ntokens {
                proof {
                    lemma_first_bad_prefix(new@, i + 1, ntokens as nat);
                }
                return Err(TokenError::UnknownToken);
            }
            if inst.coords.x > MAX_COORD || inst.coords.y > MAX_COORD {
                proof {
                    lemma_first_bad_prefix(new@, i + 1, ntokens as nat);
                }
                return Err(TokenError::CoordsOutOfRange);
            }
            i = i + 1;
        }
        assert(new@.subrange(0, new@.len() as int) =~= new@);
        if new.len() > (i32::MAX as usize) / 6 || self.instances.len() > (i32::MAX as usize) / 6
            - new.len() {
            return Err(TokenError::TooMany);
        }
        proof {
            lemma_first_bad_none(new@, ntokens as nat);
        }
        let ghost before = self.instances@;
        let mut k: usize = 0;
        while k < new.len()
            invariant
                k <= new.len(),
                self.instances@ == before + new@.subrange(0, k as int),
                (before.len() + new@.len()) * 6 <= i32::MAX,
                before == old(self).instances@,
                ntokens == self.tokens@.len(),
                self.tokens == old(self).tokens,
                self.quad_vbo == old(self).quad_vbo,
                self.offset_vbo == old(self).offset_vbo,
                self.vao == old(self).vao,
                self.program == old(self).program,
                self.tile_size == old(self).tile_size,
                forall|j: int| 0 <= j < before.len() ==> instance_ok(#[trigger] before[j], ntokens as nat),
                forall|j: int| 0 <= j < new@.len() ==> instance_ok(#[trigger] new@[j], ntokens as nat),
            decreases new.len() - k,
        {
            self.instances.push(new[k]);
            assert(self.instances@ =~= before + new@.subrange(0, k + 1));
            k = k + 1;
        }
        assert(new@.subrange(0, new@.len() as int) =~= new@);
        let ghost joined = self.instances@;
        assert forall|j: int| 0 <= j < joined.len() implies instance_ok(
            #[trigger] joined[j],
            self.tokens@.len(),
        ) by {
            if j < before.len() {
                assert(joined[j] == before[j]);
            } else {
                assert(joined[j] == new@[j - before.len()]);
            }
        }
        assert(joined =~= old(self).instances@ + new@);
        sort_by_token(&mut self.instances);
        proof {
            lemma_permutation_keeps_ok(joined, self.instances@, self.tokens@.len());
        }
        let data = self.compute_positions();
        self.offset_vbo.alloc_with(ctx, data, AccessFrequency::Dynamic, AccessType::Draw);
        self.needs_update = false;
        Ok(())
    }

    /// The indices of the instances on `coords`, ascending, for editing in
    /// place; the manager is marked dirty so the next draw sorts and
    /// uploads again.
    pub fn find_instances_at(&mut self, coords: GridCoords) -> (r: Vec<usize>)
        requires
            old(self).wf(),
        ensures
            final(self).wf(),
            final(self).dirty(),
            final(self).instances() == old(self).instances(),
            final(self).tokens() == old(self).tokens(),
            final(self).position_buffer() == old(self).position_buffer(),
            forall|k: int|
                0 <= k < r@.len() ==> (#[trigger] r@[k]) < old(self).instances().len()
                    && old(self).instances()[r@[k] as int].coords == coords,
            forall|k: int, j: int| 0 <= k < j < r@.len() ==> (#[trigger] r@[k]) < (#[trigger] r@[j]),
            forall|i: int|
                0 <= i < old(self).instances().len() && (#[trigger] old(self).instances()[i]).coords
                    == coords ==> r@.contains(i as usize),
    {
        self.needs_update = true;
        let n = self.instances.len();
        let mut out: Vec<usize> = Vec::new();
        let mut i: usize = 0;
        while i < n
            invariant
                n == self.instances@.len(),
                i <= n,
                forall|k: int|
                    0 <= k < out@.len() ==> (#[trigger] out@[k]) < i && self.instances@[out@[k] as int].coords
                        == coords,
                forall|k: int, j: int| 0 <= k < j < out@.len() ==> (#[trigger] out@[k]) < (#[trigger] out@[j]),
                forall|j: int|
                    0 <= j < i && (#[trigger] self.instances@[j]).coords == coords ==> out@.contains(
                        j as usize,
                    ),
            decreases n - i,
        {
            if self.instances[i].coords == coords {
                let ghost prev = out@;
                out.push(i);
                assert(forall|j: int| 0 <= j < prev.len() ==> out@[j] == prev[j]);
                assert(out@[prev.len() as int] == i);
            }
            i = i + 1;
        }
        out
    }

    /// Makes instance `index` show token `token`, keeping its cell; the
    /// manager is marked dirty.
    pub fn set_instance_token(&mut self, index: usize, token: TokenHandle) -> (r: Result<(), TokenError>)
        requires
            old(self).wf(),
        ensures
            final(self).wf(),
            final(self).tokens() == old(self).tokens(),
            (r == Err::<(), TokenError>(TokenError::NoSuchInstance)) <==> index >= old(
                self,
            ).instances().len(),
            (r == Err::<(), TokenError>(TokenError::UnknownToken)) <==> (index < old(
                self,
            ).instances().len() && token.0 >= old(self).tokens().len()),
            r is Ok <==> (index < old(self).instances().len() && token.0 < old(self).tokens().len()),
            r is Err ==> *final(self) == *old(self),
            r is Ok ==> final(self).dirty() && final(self).instances() == old(self).instances().update(
                index as int,
                TokenInstance { coords: old(self).instances()[index as int].coords, token },
            ),
    {
        if index >= self.instances.len() {
            return Err(TokenError::NoSuchInstance);
        }
        if token.0 >= self.tokens.len() {
            return Err(TokenError::UnknownToken);
        }
        let coords = self.instances[index].coords;
        self.needs_update = true;
        self.instances.set(index, TokenInstance { coords, token });
        Ok(())
    }

    /// When the instances changed, sorts them by handle and uploads their
    /// positions again; otherwise does nothing.
    pub fn update(&mut self, ctx: &mut Context)
        requires
            old(self).wf(),
            old(ctx).wf(),
        ensures
            final(self).wf(),
            final(ctx).wf(),
            !final(self).dirty(),
            final(self).tokens() == old(self).tokens(),
            final(self).tile_size() == old(self).tile_size(),
            final(self).vao_id() == old(self).vao_id(),
            final(self).program_id() == old(self).program_id(),
            final(self).instances().to_multiset() == old(self).instances().to_multiset(),
            sorted(keys_of(final(self).instances())),
            old(self).dirty() ==> stably_sorted(final(self).instances(), old(self).instances()),
            final(self).position_buffer() == positions(final(self).instances(), final(self).tokens(), final(self).point_up()),
            final(ctx).live() == old(ctx).live(),
            final(ctx).next_id() == old(ctx).next_id(),
            final(self).position_buffer_id() == old(self).position_buffer_id(),
            final(self).quad_buffer_id() == old(self).quad_buffer_id(),
            final(self).quad_buffer() == old(self).quad_buffer(),
            final(self).slots() == old(self).slots(),
            final(ctx).recorded().len() >= old(ctx).recorded().len(),
            final(ctx).recorded().subrange(0, old(ctx).recorded().len() as int) == old(ctx).recorded(),
            !old(self).dirty() ==> *final(self) == *old(self) && *final(ctx) == *old(ctx),
            old(self).dirty() ==> ({
                let n = old(ctx).recorded().len() as int;
                let c = final(ctx).recorded();
                &&& c.len() == n + 2
                &&& c[n] == (GlCall::BindBuffer {
                    target: glenum::ARRAY_BUFFER,
                    buffer: old(self).position_buffer_id(),
                })
                &&& c[n + 1] matches GlCall::BufferSubData { target: t, offset: o, data: d } && t
                    == glenum::ARRAY_BUFFER && o == 0 && d@ == final(self).position_buffer()
            }),
    {
        if self.needs_update {
            let ghost before = self.instances@;
            sort_by_token(&mut self.instances);
            proof {
                lemma_permutation_keeps_ok(before, self.instances@, self.tokens@.len());
            }
            let data = self.compute_positions();
            let res = self.offset_vbo.replace_sub_data(ctx, 0, data);
            assert(res is Ok);
            assert(self.offset_vbo.data_spec() =~= positions(self.instances@, self.tokens@, self.point_up));
            self.needs_update = false;
            assert(ctx.recorded().subrange(0, old(ctx).recorded().len() as int) =~= old(ctx).recorded());
        } else {
            assert(ctx.recorded().subrange(0, old(ctx).recorded().len() as int) =~= old(ctx).recorded());
        }
    }
}

impl TokenManager {
    /// The calls that draw batch `k` of `r` stand in `c` from index `b`:
    /// size the sprite, bind the token's texture to unit 0, point the
    /// sampler at it, and draw the batch's instances.
    pub open spec fn batch_drawn(&self, c: Seq<GlCall>, b: int, r: Seq<(usize, usize)>, k: int) -> bool {
        let t = self.tokens()[r[k].0 as int];
        &&& is_uniform(
            c[b],
            self.program_id(),
            "dimensions"@,
            display_size_of(
                t.dimensions_spec(),
                t.nominal_size_spec(),
                t.scale_spec(),
                self.tile_size(),
            ),
        )
        &&& c[b + 1] == (GlCall::ActiveTexture { unit: 0 })
        &&& c[b + 2] == (GlCall::BindTexture {
            target: glenum::TEXTURE_2D,
            texture: t.texture_id_spec(),
        })
        &&& is_uniform(c[b + 3], self.program_id(), "token"@, UniformValue::I32(0))
        &&& c[b + 4] == (GlCall::DrawArraysInstancedBaseInstance {
            mode: glenum::TRIANGLES,
            first: 0,
            count: 6,
            instances: (r[k].1 * 6) as i32,
            base_instance: run_start(r, k) as u32,
        })
    }

    /// The handle of every instance, in order.
    pub fn handles(&self) -> (r: Vec<usize>)
        ensures
            r@ == keys_of(self.instances()),
    {
        let mut out: Vec<usize> = Vec::new();
        let mut i: usize = 0;
        while i < self.instances.len()
            invariant
                i <= self.instances@.len(),
                out@ == keys_of(self.instances@).subrange(0, i as int),
            decreases self.instances@.len() - i,
        {
            out.push(self.instances[i].token.0);
            i = i + 1;
            assert(out@ =~= keys_of(self.instances@).subrange(0, i as int));
        }
        assert(out@ =~= keys_of(self.instances@));
        out
    }

    /// Sorts and uploads if needed, then draws every instance: one
    /// instanced draw per run of instances with the same token, in
    /// ascending handle order, each after binding that token's texture and
    /// setting its on-screen size.
    pub fn draw(&mut self, ctx: &mut Context)
        requires
            old(self).wf(),
            old(ctx).wf(),
        ensures
            final(self).wf(),
            final(ctx).wf(),
            !final(self).dirty(),
            final(self).tokens() == old(self).tokens(),
            final(self).instances().to_multiset() == old(self).instances().to_multiset(),
            sorted(keys_of(final(self).instances())),
            old(self).dirty() ==> stably_sorted(final(self).instances(), old(self).instances()),
            !old(self).dirty() ==> *final(self) == *old(self),
            final(self).position_buffer() == positions(final(self).instances(), final(self).tokens(), final(self).point_up()),
            final(ctx).live() == old(ctx).live(),
            final(ctx).next_id() == old(ctx).next_id(),
            ({
                let r = runs(keys_of(final(self).instances()));
                let c = final(ctx).recorded();
                let n = old(ctx).recorded().len() as int;
                let m = n + reupload_len(old(self).dirty());
                &&& c.len() == m + 3 + 5 * r.len()
                &&& c.subrange(0, n) == old(ctx).recorded()
                &&& old(self).dirty() ==> c[n] == (GlCall::BindBuffer {
                    target: glenum::ARRAY_BUFFER,
                    buffer: old(self).position_buffer_id(),
                })
                &&& old(self).dirty() ==> (c[n + 1] matches GlCall::BufferSubData {
                    target: t,
                    offset: o,
                    data: d,
                } && t == glenum::ARRAY_BUFFER && o == 0 && d@ == final(self).position_buffer())
                &&& c[m] == (GlCall::BindVertexArray { vao: final(self).vao_id() })
                &&& c[m + 1] == (GlCall::UseProgram { program: final(self).program_id() })
                &&& is_uniform(
                    c[m + 2],
                    final(self).program_id(),
                    "projection"@,
                    UniformValue::Projection,
                )
                &&& forall|k: int|
                    0 <= k < r.len() ==> #[trigger] final(self).batch_drawn(c, m + 3 + 5 * k, r, k)
            }),
    {
        self.update(ctx);
        let ghost settled = *self;
        let ghost s0 = ctx.recorded();
        let ghost m = s0.len() as int;
        self.vao.bind(ctx);
        let ghost s1 = ctx.recorded();
        assert(s1 =~= s0.push(s1.last()));
        self.program.bind(ctx);
        let ghost s2 = ctx.recorded();
        assert(s2 =~= s1.push(s2.last()));
        self.program.uniform(ctx, "projection", UniformValue::Projection);
        let ghost s3 = ctx.recorded();
        assert(s3 =~= s2.push(s3.last()));
        let keys = self.handles();
        let rv = batches(&keys);
        let ghost r = rv@;
        proof {
            assert forall|i: int| 0 <= i < keys@.len() implies (#[trigger] keys@[i]) < self.tokens@.len() by {
                assert(instance_ok(self.instances@[i], self.tokens@.len()));
            }
            lemma_runs_keys_bounded(keys@, self.tokens@.len());
        }
        let n = keys.len();
        let mut k: usize = 0;
        let mut first: usize = 0;
        assert(s3[m] == s1.last());
        assert(s3[m + 1] == s2.last());
        assert(s3.subrange(0, m) =~= s0);
        while k < rv.len()
            invariant
                *self == settled,
                !old(self).needs_update ==> settled == *old(self),
                self.wf(),
                ctx.wf(),
                !self.needs_update,
                ctx.live() == old(ctx).live(),
                ctx.next_id() == old(ctx).next_id(),
                r == rv@,
                r == runs(keys_of(self.instances@)),
                n == keys@.len(),
                n == self.instances@.len(),
                run_start(r, r.len() as int) == n,
                forall|j: int| 0 <= j < r.len() ==> (#[trigger] r[j]).0 < self.tokens@.len(),
                k <= r.len(),
                first == run_start(r, k as int),
                m == s0.len(),
                s3.len() == m + 3,
                s3.subrange(0, m) == s0,
                s0.len() >= old(ctx).recorded().len(),
                s0.subrange(0, old(ctx).recorded().len() as int) == old(ctx).recorded(),
                s3[m] == (GlCall::BindVertexArray { vao: self.vao_id() }),
                s3[m + 1] == (GlCall::UseProgram { program: self.program_id() }),
                is_uniform(s3[m + 2], self.program_id(), "projection"@, UniformValue::Projection),
                ctx.recorded().len() == m + 3 + 5 * k,
                ctx.recorded().subrange(0, m + 3) == s3,
                forall|j: int|
                    0 <= j < k ==> #[trigger] self.batch_drawn(ctx.recorded(), m + 3 + 5 * j, r, j),
            decreases r.len() - k,
        {
            let (h, count) = rv[k];
            proof {
                lemma_run_start_mono(r, k + 1, r.len() as int);
                assert(run_start(r, k + 1) == first + count);
            }
            let ghost b0 = ctx.recorded();
            let size = self.tokens[h].display_size(self.tile_size);
            self.program.uniform(ctx, "dimensions", size);
            let ghost b1 = ctx.recorded();
            assert(b1 =~= b0.push(b1.last()));
            self.tokens[h].texture.bind(ctx, 0);
            let ghost b2 = ctx.recorded();
            assert(b2 =~= b1.push(b2[b2.len() - 2]).push(b2.last()));
            self.program.uniform_i32(ctx, "token", 0);
            let ghost b3 = ctx.recorded();
            assert(b3 =~= b2.push(b3.last()));
            let instances = (count * 6) as i32;
            let base_instance = first as u32;
            ctx.record(
                GlCall::DrawArraysInstancedBaseInstance {
                    mode: glenum::TRIANGLES,
                    first: 0,
                    count: 6,
                    instances,
                    base_instance,
                },
            );
            let ghost b4 = ctx.recorded();
            assert(b4 =~= b3.push(b4.last()));
            proof {
                let c = ctx.recorded();
                assert(c.subrange(0, b0.len() as int) =~= b0);
                assert(c.subrange(0, m + 3) =~= s3);
                assert forall|j: int| 0 <= j < k + 1 implies #[trigger] self.batch_drawn(
                    c,
                    m + 3 + 5 * j,
                    r,
                    j,
                ) by {
                    if j < k {
                        assert(self.batch_drawn(b0, m + 3 + 5 * j, r, j));
                        assert(c[m + 3 + 5 * j] == b0[m + 3 + 5 * j]);
                        assert(c[m + 3 + 5 * j + 1] == b0[m + 3 + 5 * j + 1]);
                        assert(c[m + 3 + 5 * j + 2] == b0[m + 3 + 5 * j + 2]);
                        assert(c[m + 3 + 5 * j + 3] == b0[m + 3 + 5 * j + 3]);
                        assert(c[m + 3 + 5 * j + 4] == b0[m + 3 + 5 * j + 4]);
                    } else {
                        assert(c[m + 3 + 5 * j] == b1.last());
                        assert(c[m + 3 + 5 * j + 3] == b3.last());
                    }
                }
            }
            first = first + count;
            k = k + 1;
        }
        proof {
            let c = ctx.recorded();
            let l = old(ctx).recorded().len() as int;
            assert forall|i: int| 0 <= i < l implies c[i] == old(ctx).recorded()[i] by {
                assert(c.subrange(0, m + 3)[i] == s3[i]);
                assert(s3.subrange(0, m)[i] == s0[i]);
                assert(s0.subrange(0, l)[i] == old(ctx).recorded()[i]);
            }
            assert(c.subrange(0, l) =~= old(ctx).recorded());
            assert(c.subrange(0, m + 3)[m] == s3[m]);
            assert(c.subrange(0, m + 3)[m + 1] == s3[m + 1]);
            assert(c.subrange(0, m + 3)[m + 2] == s3[m + 2]);
        }
    }
}

/// Removing instance `j` removes one occurrence of its handle.
proof fn lemma_count_remove(s: Seq<TokenInstance>, j: int, v: usize)
    requires
        0 <= j < s.len(),
    ensures
        count_of(keys_of(s), v) == count_of(keys_of(s.remove(j)), v) + if s[j].token.0 == v {
            1nat
        } else {
            0nat
        },
    decreases s.len(),
{
    assert(keys_of(s).drop_last() =~= keys_of(s.drop_last()));
    if j == s.len() - 1 {
        assert(s.remove(j) =~= s.drop_last());
    } else {
        let t = s.remove(j);
        assert(t.drop_last() =~= s.drop_last().remove(j));
        assert(keys_of(t).drop_last() =~= keys_of(t.drop_last()));
        assert(t.last() == s.last());
        lemma_count_remove(s.drop_last(), j, v);
    }
}

/// Instances that are a reordering of each other hold each handle equally
/// often.
pub proof fn lemma_count_permutation(a: Seq<TokenInstance>, b: Seq<TokenInstance>, v: usize)
    requires
        a.to_multiset() == b.to_multiset(),
    ensures
        count_of(keys_of(a), v) == count_of(keys_of(b), v),
    decreases a.len(),
{
    broadcast use vstd::seq_lib::to_multiset_contains, vstd::seq_lib::to_multiset_len,
        vstd::seq_lib::to_multiset_build, vstd::seq_lib::to_multiset_remove,
        vstd::multiset::group_multiset_axioms;

    if a.len() == 0 {
        assert(b.to_multiset().len() == 0);
        assert(keys_of(a).len() == 0);
        assert(keys_of(b).len() == 0);
    } else {
        let x = a.last();
        let p = a.drop_last();
        assert(p.push(x) =~= a);
        assert(a.to_multiset() =~= p.to_multiset().insert(x));
        assert(a.to_multiset().count(x) > 0);
        assert(b.contains(x));
        let j = choose|j: int| 0 <= j < b.len() && b[j] == x;
        let q = b.remove(j);
        assert(q.to_multiset() == b.to_multiset().remove(x));
        assert(p.to_multiset() =~= q.to_multiset());
        lemma_count_permutation(p, q, v);
        lemma_count_remove(b, j, v);
        assert(keys_of(a).drop_last() =~= keys_of(p));
    }
}

/// Batching groups by handle whatever the order instances were added in:
/// for instances sorted by handle that are a reordering of `added`, the
/// batches come in strictly ascending handle order, each handle in use has
/// exactly one batch, and each batch is as large as the number of
/// instances of `added` with its handle.
pub proof fn lemma_batches_by_handle(added: Seq<TokenInstance>, drawn: Seq<TokenInstance>)
    requires
        drawn.to_multiset() == added.to_multiset(),
        sorted(keys_of(drawn)),
        drawn.len() <= usize::MAX,
    ensures
        forall|i: int, j: int|
            0 <= i < j < runs(keys_of(drawn)).len() ==> (#[trigger] runs(keys_of(drawn))[i]).0 < (
            #[trigger] runs(keys_of(drawn))[j]).0,
        forall|k: int|
            0 <= k < runs(keys_of(drawn)).len() ==> (#[trigger] runs(keys_of(drawn))[k]).1
                == count_of(keys_of(added), runs(keys_of(drawn))[k].0),
        forall|v: usize|
            count_of(keys_of(added), v) > 0 ==> exists|k: int|
                0 <= k < runs(keys_of(drawn)).len() && (#[trigger] runs(keys_of(drawn))[k]).0 == v,
{
    lemma_sorted_runs(keys_of(drawn));
    assert forall|v: usize| count_of(keys_of(drawn), v) == count_of(keys_of(added), v) by {
        lemma_count_permutation(drawn, added, v);
    }
}

/// How many calls re-uploading the positions takes: two for a dirty
/// manager, none for a clean one.
pub open spec fn reupload_len(dirty: bool) -> int {
    if dirty {
        2
    } else {
        0
    }
}

/// The ids of the textures of `tokens`.
pub open spec fn token_texture_ids(tokens: Seq<Token>) -> Set<u64> {
    Set::new(|id: u64| exists|k: int| 0 <= k < tokens.len() && (#[trigger] tokens[k]).texture_id_spec() == id)
}

impl Token {
    /// Deletes the token's texture.
    pub fn delete(self, ctx: &mut Context)
        requires
            old(ctx).wf(),
        ensures
            final(ctx).wf(),
            final(ctx).live() == old(ctx).live().remove(self.texture_id_spec()),
    {
        self.texture.delete(ctx);
    }
}

impl TokenManager {
    /// Deletes the manager's driver objects: its two buffers, its vertex
    /// array, its program and the texture of every token.
    pub fn delete(self, ctx: &mut Context)
        requires
            old(ctx).wf(),
        ensures
            final(ctx).wf(),
            final(ctx).live() == old(ctx).live().difference(
                set![self.quad_buffer_id(), self.position_buffer_id(), self.vao_id(), self.program_id()],
            ).difference(token_texture_ids(self.tokens())),
    {
        let ghost own = set![
            self.quad_buffer_id(),
            self.position_buffer_id(),
            self.vao_id(),
            self.program_id(),
        ];
        let ghost all = self.tokens();
        let TokenManager { quad_vbo, offset_vbo, vao, program, tokens, .. } = self;
        quad_vbo.delete(ctx);
        offset_vbo.delete(ctx);
        vao.delete(ctx);
        program.delete(ctx);
        assert(ctx.live() =~= old(ctx).live().difference(own));
        let ghost start = ctx.live();
        let mut rest = tokens;
        let total = rest.len();
        let mut i: usize = 0;
        while rest.len() > 0
            invariant
                ctx.wf(),
                all.len() == total,
                i + rest.len() == all.len(),
                forall|k: int| 0 <= k < rest.len() ==> #[trigger] rest@[k] == all[i + k],
                ctx.live() == start.difference(token_texture_ids(all.subrange(0, i as int))),
            decreases rest.len(),
        {
            let t = rest.remove(0);
            let ghost tid = t.texture_id_spec();
            assert(tid == all[i as int].texture_id_spec());
            t.delete(ctx);
            proof {
                let a = token_texture_ids(all.subrange(0, i as int));
                let b = token_texture_ids(all.subrange(0, i + 1));
                assert forall|id: u64| #[trigger] b.contains(id) <==> (a.contains(id) || id == tid) by {
                    if b.contains(id) {
                        let k = choose|k: int|
                            0 <= k < i + 1 && (#[trigger] all.subrange(0, i + 1)[k]).texture_id_spec() == id;
                        if k < i {
                            assert(all.subrange(0, i as int)[k] == all.subrange(0, i + 1)[k]);
                        }
                    }
                    if a.contains(id) {
                        let k = choose|k: int|
                            0 <= k < i && (#[trigger] all.subrange(0, i as int)[k]).texture_id_spec() == id;
                        assert(all.subrange(0, i + 1)[k] == all.subrange(0, i as int)[k]);
                    }
                    if id == tid {
                        assert(all.subrange(0, i + 1)[i as int] == all[i as int]);
                    }
                }
                assert(ctx.live() =~= start.difference(b));
            }
            i = i + 1;
        }
        assert(all.subrange(0, i as int) =~= all);
    }
}

} // verus!
