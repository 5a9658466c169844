//! The hex grid: a tile atlas and one instanced draw for every cell.
use crate::buffer::{
    Bindable, unit_quad, unit_quad_spec, AccessFrequency, AccessType, SlotBinding, VertexAttribArray,
    VertexAttribObject, VertexBuffer,
};
use crate::context::{Context, GlCall, UniformValue};
use crate::glenum;
use crate::hex::{grid_coords, grid_offsets};
use crate::program::{is_uniform, Program};
use crate::texture::{in_rect, stored, Format, Image, Texture2D};
use vstd::prelude::*;

verus! {

/// Why a grid operation was refused.
#[derive(Clone, Copy, Debug, PartialEq, Eq, Structural)]
pub enum GridError {
    /// The grid, or its tile atlas, is larger than the driver can address.
    TooLarge,
    /// The given contents do not have one entry per cell.
    ContentsLength,
    /// A tile index does not fit the per-cell attribute.
    TileIndexTooLarge,
    /// The cell is outside the grid.
    OutOfRange,
}

/// The value stored for a cell: its tile index, or -1 when empty.
pub open spec fn cell_value(c: Option<usize>) -> int {
    match c {
        Some(t) => t as int,
        None => -1,
    }
}

pub open spec fn cell_fits(c: Option<usize>) -> bool {
    cell_value(c) <= i32::MAX
}

/// The largest side of any tile, 0 when there are none.
pub open spec fn max_tile_side(tiles: Seq<Image>) -> u32
    decreases tiles.len(),
{
    if tiles.len() == 0 {
        0
    } else {
        let last = tiles.last();
        let side = if last.width_spec() >= last.height_spec() {
            last.width_spec()
        } else {
            last.height_spec()
        };
        let rest = max_tile_side(tiles.drop_last());
        if rest >= side {
            rest
        } else {
            side
        }
    }
}

/// Tile `t` of `tiles` holds column `t * tile_size` onwards of `atlas`:
/// texel (`row`, `col`) of the tile is texel (`row`, `t * tile_size + col`)
/// of the atlas.
pub open spec fn tile_in_atlas(
    atlas: Texture2D,
    tiles: Seq<Image>,
    tile_size: u32,
    t: int,
    row: int,
    col: int,
) -> bool {
    atlas.texel(row, t * tile_size + col) == stored(atlas.format_spec(), tiles[t].pixel(row, col))
}

/// Where each slot of a grid's vertex array reads from: the unit quad in
/// slot 0 per vertex; the cell anchors in slot 1 and the tile indices in
/// slot 2, each shared by the six vertices of a cell.
pub open spec fn grid_slots(quad: u64, anchors: u64, tiles: u64) -> Map<u32, SlotBinding> {
    map![
        0u32 => SlotBinding { buffer: quad, components: 2, ty: glenum::INT, normalized: false, stride: 0, offset: 0, divisor: 0 },
        1u32 => SlotBinding { buffer: anchors, components: 2, ty: glenum::INT, normalized: false, stride: 0, offset: 0, divisor: 6 },
        2u32 => SlotBinding { buffer: tiles, components: 1, ty: glenum::INT, normalized: false, stride: 0, offset: 0, divisor: 6 },
    ]
}

/// Collects what a grid is made of.
pub struct HexGridBuilder {
    pub point_up: bool,
    pub tiles: Vec<Image>,
    pub rows: u32,
    pub cols: u32,
    pub grid_contents: Option<Vec<Option<usize>>>,
}

/// The first reason a builder cannot build, if any.
pub open spec fn build_error(b: HexGridBuilder) -> Option<GridError> {
    if b.rows * b.cols * 6 > i32::MAX {
        Some(GridError::TooLarge)
    } else if b.grid_contents matches Some(gc) && gc@.len() != b.rows * b.cols {
        Some(GridError::ContentsLength)
    } else if b.grid_contents matches Some(gc) && exists|i: int|
        0 <= i < gc@.len() && !cell_fits(#[trigger] gc@[i]) {
        Some(GridError::TileIndexTooLarge)
    } else if b.tiles@.len() > u32::MAX || max_tile_side(b.tiles@) * b.tiles@.len() > u32::MAX {
        Some(GridError::TooLarge)
    } else {
        None
    }
}

/// The cell values a builder's grid starts with: the given contents, or
/// tile 0 everywhere.
pub open spec fn initial_cells(b: HexGridBuilder) -> Seq<i32> {
    match b.grid_contents {
        Some(gc) => Seq::new(gc@.len(), |i: int| cell_value(gc@[i]) as i32),
        None => Seq::new((b.rows * b.cols) as nat, |i: int| 0i32),
    }
}

impl HexGridBuilder {
    /// An empty grid of flat-topped cells with no tiles.
    pub fn default() -> (r: HexGridBuilder)
        ensures
            !r.point_up,
            r.tiles@.len() == 0,
            r.rows == 0,
            r.cols == 0,
            r.grid_contents is None,
    {
        HexGridBuilder { point_up: false, tiles: Vec::new(), rows: 0, cols: 0, grid_contents: None }
    }

    pub fn with_tiles(self, tiles: Vec<Image>) -> (r: HexGridBuilder)
        ensures
            r == (HexGridBuilder { tiles, ..self }),
    {
        HexGridBuilder { tiles, ..self }
    }

    /// The starting tile of every cell, row by row; `None` leaves a cell
    /// empty.
    pub fn with_grid_contents(self, gc: &Vec<Option<usize>>) -> (r: HexGridBuilder)
        ensures
            r.point_up == self.point_up,
            r.tiles == self.tiles,
            r.rows == self.rows,
            r.cols == self.cols,
            r.grid_contents matches Some(v) && v@ == gc@,
    {
        let mut v: Vec<Option<usize>> = Vec::new();
        let mut i: usize = 0;
        while i < gc.len()
            invariant
                i <= gc.len(),
                v@ == gc@.subrange(0, i as int),
            decreases gc.len() - i,
        {
            v.push(gc[i]);
            i = i + 1;
            assert(v@ =~= gc@.subrange(0, i as int));
        }
        assert(v@ =~= gc@);
        HexGridBuilder { grid_contents: Some(v), ..self }
    }

    pub fn point_up(self) -> (r: HexGridBuilder)
        ensures
            r == (HexGridBuilder { point_up: true, ..self }),
    {
        HexGridBuilder { point_up: true, ..self }
    }

    /// A grid of `rows` rows with `cols` cells each.
    pub fn with_dimensions(self, rows: u32, cols: u32) -> (r: HexGridBuilder)
        ensures
            r == (HexGridBuilder { rows, cols, ..self }),
    {
        HexGridBuilder { rows, cols, ..self }
    }

    /// Allocates the atlas, uploads every tile into its column of the atlas,
    /// and wires the unit quad, the per-cell anchors and the per-cell tile
    /// indices to slots 0, 1 and 2 of a vertex array; the per-cell slots
    /// advance once every six vertices.
    pub fn build(self, ctx: &mut Context) -> (r: Result<HexGrid, GridError>)
        requires
            old(ctx).wf(),
            old(ctx).has_room(5),
        ensures
            final(ctx).wf(),
            r is Err <==> build_error(self) is Some,
            r matches Err(e) ==> build_error(self) == Some(e) && *final(ctx) == *old(ctx),
            r matches Ok(g) ==> {
                &&& g.wf()
                &&& g.rows() == self.rows
                &&& g.cols() == self.cols
                &&& g.point_up() == self.point_up
                &&& g.tile_size() == max_tile_side(self.tiles@)
                &&& g.tile_count() == self.tiles@.len()
                &&& g.cells() == initial_cells(self)
                &&& g.cells().len() == g.rows() * g.cols()
                &&& g.tile_buffer() == g.cells()
                &&& g.atlas().width_spec() == g.tile_size() * g.tile_count()
                &&& g.atlas().height_spec() == g.tile_size()
                &&& g.atlas().format_spec() == Format::Rgba
                &&& forall|t: int, row: int, col: int|
                    0 <= t < self.tiles@.len() && 0 <= row < self.tiles@[t].height_spec() && 0 <= col
                        < self.tiles@[t].width_spec() ==> #[trigger] tile_in_atlas(
                        g.atlas(),
                        self.tiles@,
                        g.tile_size(),
                        t,
                        row,
                        col,
                    )
                &&& g.quad_buffer() == unit_quad_spec()
                &&& g.anchor_buffer() == grid_offsets(self.rows as nat, self.cols as nat, self.point_up)
                &&& g.slots() == grid_slots(g.quad_buffer_id(), g.anchor_buffer_id(), g.tile_buffer_id())
            },
    {
        let ghost b = self;
        let rows = self.rows;
        let cols = self.cols;
        assert((rows as u64) * (cols as u64) <= 0xffff_ffff * 0xffff_ffff) by (nonlinear_arith)
            requires
                rows <= 0xffff_ffff,
                cols <= 0xffff_ffff,
        ;
        if (rows as u64) * (cols as u64) > (i32::MAX as u64) / 6 {
            return Err(GridError::TooLarge);
        }
        let n: usize = (rows as usize) * (cols as usize);
        let HexGridBuilder { point_up, tiles, rows: _, cols: _, grid_contents } = self;
        let mut cells: Vec<i32> = Vec::new();
        match grid_contents {
            Some(gc) => {
                if gc.len() != n {
                    return Err(GridError::ContentsLength);
                }
                let mut i: usize = 0;
                while i < gc.len()
                    invariant
                        *ctx == *old(ctx),
                        ctx.wf(),
                        b == self,
                        b.grid_contents == Some(gc),
                        b.rows * b.cols * 6 <= i32::MAX,
                        gc@.len() == b.rows * b.cols,
                        i <= gc.len(),
                        cells.len() == i,
                        forall|k: int| 0 <= k < i ==> cell_fits(#[trigger] gc@[k]),
                        forall|k: int| 0 <= k < i ==> #[trigger] cells@[k] == cell_value(gc@[k]) as i32,
                    decreases gc.len() - i,
                {
                    match gc[i] {
                        Some(t) => {
                            if t > i32::MAX as usize {
                                assert(!cell_fits(gc@[i as int]));
                                return Err(GridError::TileIndexTooLarge);
                            }
                            cells.push(t as i32);
                        },
                        None => cells.push(-1),
                    }
                    i = i + 1;
                }
                assert(cells@ =~= initial_cells(self));
            },
            None => {
                let mut i: usize = 0;
                while i < n
                    invariant
                        i <= n,
                        cells.len() == i,
                        forall|k: int| 0 <= k < i ==> #[trigger] cells@[k] == 0i32,
                    decreases n - i,
                {
                    cells.push(0);
                    i = i + 1;
                }
                assert(cells@ =~= initial_cells(self));
            },
        }
        let ntiles = tiles.len();
        let mut tile_size: u32 = 0;
        let mut i: usize = 0;
        while i < ntiles
            invariant
                ntiles == tiles.len(),
                i <= ntiles,
                tile_size == max_tile_side(tiles@.subrange(0, i as int)),
                forall|k: int|
                    0 <= k < i ==> (#[trigger] tiles@[k]).width_spec() <= tile_size
                        && tiles@[k].height_spec() <= tile_size,
            decreases ntiles - i,
        {
            let w = tiles[i].width();
            let h = tiles[i].height();
            let side = if w >= h {
                w
            } else {
                h
            };
            if side > tile_size {
                tile_size = side;
            }
            assert(tiles@.subrange(0, i + 1).drop_last() =~= tiles@.subrange(0, i as int));
            i = i + 1;
        }
        assert(tiles@.subrange(0, ntiles as int) =~= tiles@);
        if ntiles > u32::MAX as usize {
            return Err(GridError::TooLarge);
        }
        assert((tile_size as u64) * (ntiles as u64) <= 0xffff_ffff * 0xffff_ffff) by (nonlinear_arith)
            requires
                tile_size <= 0xffff_ffff,
                ntiles <= 0xffff_ffff,
        ;
        if (tile_size as u64) * (ntiles as u64) > u32::MAX as u64 {
            return Err(GridError::TooLarge);
        }
        let atlas_width = tile_size * (ntiles as u32);
        let mut texture = Texture2D::with_dimensions(ctx, atlas_width, tile_size, Format::Rgba);
        let mut t: usize = 0;
        while t < ntiles
            invariant
                ctx.wf(),
                ctx.next_id() == old(ctx).next_id() + 1,
                ntiles == tiles.len(),
                t <= ntiles,
                ntiles <= u32::MAX,
                tile_size * ntiles <= u32::MAX,
                atlas_width == tile_size * ntiles,
                texture.width_spec() == atlas_width,
                texture.height_spec() == tile_size,
                texture.format_spec() == Format::Rgba,
                forall|k: int|
                    0 <= k < ntiles ==> (#[trigger] tiles@[k]).width_spec() <= tile_size
                        && tiles@[k].height_spec() <= tile_size,
                forall|k: int, row: int, col: int|
                    0 <= k < t && 0 <= row < tiles@[k].height_spec() && 0 <= col
                        < tiles@[k].width_spec() ==> #[trigger] tile_in_atlas(
                        texture,
                        tiles@,
                        tile_size,
                        k,
                        row,
                        col,
                    ),
            decreases ntiles - t,
        {
            assert((t as int) * (tile_size as int) + (tile_size as int) <= (ntiles as int) * (
            tile_size as int)) by (nonlinear_arith)
                requires
                    t < ntiles,
            ;
            let x = (t as u32) * tile_size;
            let ghost before = texture;
            let res = texture.replace_rect(ctx, x, 0, &tiles[t]);
            assert(res is Ok);
            proof {
                let img = tiles@[t as int];
                assert forall|k: int, row: int, col: int|
                    0 <= k < t + 1 && 0 <= row < tiles@[k].height_spec() && 0 <= col
                        < tiles@[k].width_spec() implies #[trigger] tile_in_atlas(
                    texture,
                    tiles@,
                    tile_size,
                    k,
                    row,
                    col,
                ) by {
                    assert(k * tile_size + col < k * tile_size + tile_size);
                    assert(k * tile_size + tile_size <= ntiles * tile_size) by (nonlinear_arith)
                        requires
                            k < ntiles,
                    ;
                    if k < t {
                        assert(k * tile_size + tile_size <= t * tile_size) by (nonlinear_arith)
                            requires
                                k < t,
                        ;
                        assert(tile_in_atlas(before, tiles@, tile_size, k, row, col));
                        assert(!in_rect(
                            x as int,
                            0,
                            img.width_spec() as int,
                            img.height_spec() as int,
                            row,
                            k * tile_size + col,
                        ));
                        assert(texture.texel(row, k * tile_size + col) == before.texel(
                            row,
                            k * tile_size + col,
                        ));
                    } else {
                        assert(k == t);
                        assert(texture.texel(row, k * tile_size + col) == stored(
                            Format::Rgba,
                            img.pixel(row - 0, k * tile_size + col - x),
                        ));
                    }
                }
            }
            t = t + 1;
        }
        let mut vao = VertexAttribObject::new(ctx);
        let mut vbos = VertexBuffer::new_array(ctx, 3);
        let mut tile_vbo = vbos.pop().unwrap();
        let mut offset_vbo = vbos.pop().unwrap();
        let mut quad_vbo = vbos.pop().unwrap();
        quad_vbo.alloc_with(ctx, unit_quad(), AccessFrequency::Static, AccessType::Draw);
        vao.vertex_attribute_array(
            ctx,
            &quad_vbo,
            VertexAttribArray::<i32>::with_id(0).with_components_per_value(2),
        );
        let offsets = grid_coords(rows, cols, point_up);
        offset_vbo.alloc_with(ctx, offsets, AccessFrequency::Static, AccessType::Draw);
        vao.vertex_attribute_array(
            ctx,
            &offset_vbo,
            VertexAttribArray::<i32>::with_id(1).with_components_per_value(2).with_divisor(6),
        );
        let uploaded = clone_cells(&cells);
        tile_vbo.alloc_with(ctx, uploaded, AccessFrequency::Dynamic, AccessType::Draw);
        vao.vertex_attribute_array(
            ctx,
            &tile_vbo,
            VertexAttribArray::<i32>::with_id(2).with_divisor(6),
        );
        assert(vao.slots() =~= grid_slots(quad_vbo.id_spec(), offset_vbo.id_spec(), tile_vbo.id_spec()));
        Ok(
            HexGrid {
                rows,
                cols,
                point_up,
                tile_size,
                tile_count: ntiles as u32,
                quad_vbo,
                offset_vbo,
                tile_vbo,
                vao,
                texture,
                cells,
            },
        )
    }
}

fn clone_cells(v: &Vec<i32>) -> (r: Vec<i32>)
    ensures
        r@ == v@,
{
    let r = v.clone();
    assert(r@ =~= v@);
    r
}

/// A grid of hex cells, each showing one tile of the atlas or nothing.
pub struct HexGrid {
    rows: u32,
    cols: u32,
    point_up: bool,
    tile_size: u32,
    tile_count: u32,
    quad_vbo: VertexBuffer,
    offset_vbo: VertexBuffer,
    tile_vbo: VertexBuffer,
    vao: VertexAttribObject,
    texture: Texture2D,
    cells: Vec<i32>,
}

impl HexGrid {
    /// The per-cell tile-index buffer always has one element per cell and
    /// holds what the host-side copy holds.
    pub closed spec fn wf(&self) -> bool {
        &&& self.rows * self.cols * 6 <= i32::MAX
        &&& self.cells@.len() == self.rows * self.cols
        &&& self.tile_vbo.data_spec() == self.cells@
        &&& self.tile_vbo.len_spec() == self.rows * self.cols
        &&& self.offset_vbo.data_spec() == grid_offsets(self.rows as nat, self.cols as nat, self.point_up)
        &&& self.quad_vbo.data_spec() == unit_quad_spec()
    }

    /// A well-formed grid has one cell per row and column.
    pub proof fn lemma_cell_count(&self)
        requires
            self.wf(),
        ensures
            self.cells().len() == self.rows() * self.cols(),
            self.tile_buffer() == self.cells(),
    {
    }

    pub closed spec fn rows(&self) -> u32 {
        self.rows
    }

    pub closed spec fn cols(&self) -> u32 {
        self.cols
    }

    pub closed spec fn point_up(&self) -> bool {
        self.point_up
    }

    pub closed spec fn tile_size(&self) -> u32 {
        self.tile_size
    }

    pub closed spec fn tile_count(&self) -> u32 {
        self.tile_count
    }

    /// The value of every cell, row by row: a tile index, or -1 when empty.
    pub closed spec fn cells(&self) -> Seq<i32> {
        self.cells@
    }

    /// What the driver's tile-index buffer holds.
    pub closed spec fn tile_buffer(&self) -> Seq<i32> {
        self.tile_vbo.data_spec()
    }

    pub closed spec fn atlas(&self) -> Texture2D {
        self.texture
    }

    pub closed spec fn vao_id(&self) -> u64 {
        self.vao.id_spec()
    }

    /// The vertex array's slot bindings.
    pub closed spec fn slots(&self) -> Map<u32, SlotBinding> {
        self.vao.slots()
    }

    pub closed spec fn quad_buffer(&self) -> Seq<i32> {
        self.quad_vbo.data_spec()
    }

    pub closed spec fn quad_buffer_id(&self) -> u64 {
        self.quad_vbo.id_spec()
    }

    /// What the driver's per-cell anchor buffer holds.
    pub closed spec fn anchor_buffer(&self) -> Seq<i32> {
        self.offset_vbo.data_spec()
    }

    pub closed spec fn anchor_buffer_id(&self) -> u64 {
        self.offset_vbo.id_spec()
    }

    pub closed spec fn tile_buffer_id(&self) -> u64 {
        self.tile_vbo.id_spec()
    }

    pub fn dimensions(&self) -> (r: (u32, u32))
        ensures
            r == (self.rows(), self.cols()),
    {
        (self.rows, self.cols)
    }

    pub fn get_tile_size(&self) -> (r: u32)
        ensures
            r == self.tile_size(),
    {
        self.tile_size
    }

    pub fn get_tile_count(&self) -> (r: u32)
        ensures
            r == self.tile_count(),
    {
        self.tile_count
    }

    pub fn get_cells(&self) -> (r: &Vec<i32>)
        ensures
            r@ == self.cells(),
    {
        &self.cells
    }

    /// The tile shown at (`row`, `col`); `None` outside the grid or for an
    /// empty cell.
    pub fn tile_at(&self, row: usize, col: usize) -> (r: Option<usize>)
        requires
            self.wf(),
        ensures
            (row < self.rows() && col < self.cols() && self.cells()[row * self.cols() + col] >= 0)
                <==> r is Some,
            r matches Some(t) ==> t == self.cells()[row * self.cols() + col],
    {
        if row >= self.rows as usize || col >= self.cols as usize {
            return None;
        }
        assert(row * self.cols + col < self.rows * self.cols) by (nonlinear_arith)
            requires
                row < self.rows,
                col < self.cols,
        ;
        let v = self.cells[row * (self.cols as usize) + col];
        if v < 0 {
            None
        } else {
            Some(v as usize)
        }
    }

    /// Sets the tile of the cell in row `idx.0`, column `idx.1`; `None`
    /// empties it. Only that cell's element of the tile-index buffer is
    /// written; a cell outside the grid is refused before any call.
    pub fn update_tile(&mut self, ctx: &mut Context, idx: (usize, usize), tile: Option<usize>) -> (r:
        Result<(), GridError>)
        requires
            old(self).wf(),
            old(ctx).wf(),
        ensures
            final(self).wf(),
            final(self).rows() == old(self).rows(),
            final(self).cols() == old(self).cols(),
            final(self).tile_size() == old(self).tile_size(),
            final(self).tile_count() == old(self).tile_count(),
            final(self).cells().len() == final(self).rows() * final(self).cols(),
            r is Ok <==> (idx.0 < old(self).rows() && idx.1 < old(self).cols() && cell_fits(tile)),
            (r == Err::<(), GridError>(GridError::OutOfRange)) <==> (idx.0 >= old(self).rows()
                || idx.1 >= old(self).cols()),
            (r == Err::<(), GridError>(GridError::TileIndexTooLarge)) <==> (idx.0 < old(self).rows()
                && idx.1 < old(self).cols() && !cell_fits(tile)),
            r is Err ==> *final(ctx) == *old(ctx) && final(self).cells() == old(self).cells(),
            r is Ok ==> final(self).cells() == old(self).cells().update(
                idx.0 * old(self).cols() + idx.1,
                cell_value(tile) as i32,
            ),
            r is Ok ==> final(self).tile_buffer() == old(self).tile_buffer().update(
                idx.0 * old(self).cols() + idx.1,
                cell_value(tile) as i32,
            ),
            r is Err ==> final(self).tile_buffer() == old(self).tile_buffer(),
            final(self).tile_buffer() == final(self).cells(),
            r is Ok ==> ({
                let n = old(ctx).recorded().len() as int;
                &&& final(ctx).wf()
                &&& final(ctx).live() == old(ctx).live()
                &&& final(ctx).next_id() == old(ctx).next_id()
                &&& final(ctx).recorded().len() == n + 2
                &&& final(ctx).recorded().subrange(0, n) == old(ctx).recorded()
                &&& final(ctx).recorded()[n] == (GlCall::BindBuffer {
                    target: glenum::ARRAY_BUFFER,
                    buffer: old(self).tile_buffer_id(),
                })
                &&& final(ctx).recorded()[n + 1] matches GlCall::BufferSubData {
                    target: t,
                    offset: o,
                    data: d,
                } && t == glenum::ARRAY_BUFFER && o == idx.0 * old(self).cols() + idx.1 && d@
                    == seq![cell_value(tile) as i32]
            }),
    {
        let (row, col) = idx;
        if row >= self.rows as usize || col >= self.cols as usize {
            return Err(GridError::OutOfRange);
        }
        let value: i32 = match tile {
            Some(t) => {
                if t > i32::MAX as usize {
                    return Err(GridError::TileIndexTooLarge);
                }
                t as i32
            },
            None => -1,
        };
        assert(row * self.cols + col < self.rows * self.cols) by (nonlinear_arith)
            requires
                row < self.rows,
                col < self.cols,
        ;
        let i = row * (self.cols as usize) + col;
        let data = vec![value];
        let ghost d = data;
        let res = self.tile_vbo.replace_sub_data(ctx, i, data);
        assert(res is Ok);
        self.cells.set(i, value);
        assert(self.tile_vbo.data_spec() =~= self.cells@);
        assert(ctx.recorded().subrange(0, old(ctx).recorded().len() as int) =~= old(ctx).recorded());
        Ok(())
    }

    /// Draws every cell with one instanced call: the unit quad, instanced
    /// six times per cell, placed by the per-cell anchors and textured from
    /// the atlas by the per-cell tile index.
    pub fn draw(&self, ctx: &mut Context, program: &Program)
        requires
            self.wf(),
            old(ctx).wf(),
        ensures
            ({
                let n = old(ctx).recorded().len() as int;
                let c = final(ctx).recorded();
                &&& final(ctx).wf()
                &&& final(ctx).live() == old(ctx).live()
                &&& final(ctx).next_id() == old(ctx).next_id()
                &&& c.len() == n + 8
                &&& c.subrange(0, n) == old(ctx).recorded()
                &&& c[n] == (GlCall::UseProgram { program: program.id_spec() })
                &&& is_uniform(c[n + 1], program.id_spec(), "projection"@, UniformValue::Projection)
                &&& is_uniform(
                    c[n + 2],
                    program.id_spec(),
                    "size"@,
                    UniformValue::Vec2Of(self.tile_size(), self.tile_size()),
                )
                &&& is_uniform(
                    c[n + 3],
                    program.id_spec(),
                    "ntiles"@,
                    UniformValue::FloatOf(self.tile_count()),
                )
                &&& c[n + 4] == (GlCall::BindVertexArray { vao: self.vao_id() })
                &&& c[n + 5] == (GlCall::ActiveTexture { unit: 0 })
                &&& c[n + 6] == (GlCall::BindTexture {
                    target: glenum::TEXTURE_2D,
                    texture: self.atlas().id_spec(),
                })
                &&& c[n + 7] == (GlCall::DrawArraysInstanced {
                    mode: glenum::TRIANGLES,
                    first: 0,
                    count: 6,
                    instances: (self.rows() * self.cols() * 6) as i32,
                })
            }),
    {
        let ghost s0 = ctx.recorded();
        program.bind(ctx);
        let ghost s1 = ctx.recorded();
        assert(s1 =~= s0.push(s1.last()));
        program.uniform(ctx, "projection", UniformValue::Projection);
        let ghost s2 = ctx.recorded();
        assert(s2 =~= s1.push(s2.last()));
        program.uniform(ctx, "size", UniformValue::Vec2Of(self.tile_size, self.tile_size));
        let ghost s3 = ctx.recorded();
        assert(s3 =~= s2.push(s3.last()));
        program.uniform(ctx, "ntiles", UniformValue::FloatOf(self.tile_count));
        let ghost s4 = ctx.recorded();
        assert(s4 =~= s3.push(s4.last()));
        self.vao.bind(ctx);
        let ghost s5 = ctx.recorded();
        assert(s5 =~= s4.push(s5.last()));
        self.texture.bind(ctx, 0);
        let ghost s6 = ctx.recorded();
        assert(s6 =~= s5.push(s6[s6.len() - 2]).push(s6.last()));
        assert((self.rows as u64) * (self.cols as u64) <= 0xffff_ffff * 0xffff_ffff) by (nonlinear_arith)
            requires
                self.rows <= 0xffff_ffff,
                self.cols <= 0xffff_ffff,
        ;
        let instances = ((self.rows as u64) * (self.cols as u64) * 6) as i32;
        ctx.record(
            GlCall::DrawArraysInstanced { mode: glenum::TRIANGLES, first: 0, count: 6, instances },
        );
        let ghost s7 = ctx.recorded();
        assert(s7 =~= s6.push(s7.last()));
        assert(s7.subrange(0, s0.len() as int) =~= s0);
    }
}

impl HexGrid {
    /// Deletes the grid's driver objects: its three buffers, its vertex
    /// array and its atlas.
    pub fn delete(self, ctx: &mut Context)
        requires
            old(ctx).wf(),
        ensures
            final(ctx).wf(),
            final(ctx).live() == old(ctx).live().difference(
                set![
                    self.quad_buffer_id(),
                    self.anchor_buffer_id(),
                    self.tile_buffer_id(),
                    self.vao_id(),
                    self.atlas().id_spec(),
                ],
            ),
    {
        let ghost ids = set![
            self.quad_buffer_id(),
            self.anchor_buffer_id(),
            self.tile_buffer_id(),
            self.vao_id(),
            self.atlas().id_spec(),
        ];
        let HexGrid { quad_vbo, offset_vbo, tile_vbo, vao, texture, .. } = self;
        quad_vbo.delete(ctx);
        offset_vbo.delete(ctx);
        tile_vbo.delete(ctx);
        vao.delete(ctx);
        texture.delete(ctx);
        assert(ctx.live() =~= old(ctx).live().difference(ids));
    }
}

} // verus!
