use feywild::batch::batches;
use feywild::compose::{Quad, QuadComposer, UVec2};
use feywild::context::{Context, GlCall, UniformValue};
use feywild::grid::{GridError, HexGridBuilder};
use feywild::hex::{corner_offset, grid_coords, grid_to_world, GridCoords, WorldPoint};
use feywild::program::{Program, ProgramBuilder};
use feywild::texture::{Format, Image, Texture2D};
use feywild::token::{CentredOn, Mask, Token, TokenError, TokenHandle, TokenInstance, TokenManager};

fn program(ctx: &mut Context) -> Program {
    let p = ProgramBuilder::default().link(ctx);
    p.check_linked(ctx, true, String::new()).unwrap()
}

fn image(width: u32, height: u32) -> Image {
    Image::new(width, height, Format::Rgba, vec![7; (width * height * 4) as usize]).unwrap()
}

fn at(x: u32, y: u32) -> GridCoords {
    GridCoords { x, y }
}

#[test]
fn hex_rows_are_offset_by_half_a_column_step() {
    for row in 0u32..6 {
        for col in 0u32..6 {
            let here = grid_to_world(at(col, row), true);
            let right = grid_to_world(at(col + 1, row), true);
            let below = grid_to_world(at(col, row + 1), true);
            assert_eq!(right.x - here.x, 2);
            assert_eq!(right.y, here.y);
            assert_eq!((below.x - here.x).abs(), 1);
            assert_eq!(below.y - here.y, 3);
            assert_eq!(grid_to_world(at(col, row), true), here);
        }
    }
    assert_eq!(grid_to_world(at(0, 0), true), WorldPoint { x: -1, y: 0 });
    assert_eq!(grid_to_world(at(3, 1), true), WorldPoint { x: 6, y: 3 });
    assert_eq!(grid_to_world(at(3, 2), true), WorldPoint { x: 5, y: 6 });
}

#[test]
fn grid_anchors_are_laid_out_row_by_row() {
    assert_eq!(grid_coords(2, 3, true), vec![-1, 0, 1, 0, 3, 0, 0, 3, 2, 3, 4, 3]);
    assert_eq!(grid_coords(2, 3, false), vec![0, -1, 3, 0, 6, -1, 0, 1, 3, 2, 6, 1]);
    assert_eq!(grid_coords(0, 5, true), Vec::<i32>::new());
    assert_eq!(corner_offset(0, true), WorldPoint { x: 2, y: 4 });
    assert_eq!(corner_offset(1, true), WorldPoint { x: 4, y: 3 });
    assert_eq!(corner_offset(5, true), WorldPoint { x: 0, y: 3 });
    assert_eq!(corner_offset(1, false), WorldPoint { x: 3, y: 4 });
    assert_eq!(grid_to_world(at(1, 2), false), WorldPoint { x: 3, y: 4 });
    assert_eq!(grid_to_world(at(2, 2), false), WorldPoint { x: 6, y: 3 });
}

#[test]
fn updating_a_cell_changes_only_that_cell() {
    let mut ctx = Context::new();
    let mut grid = HexGridBuilder::default()
        .with_dimensions(3, 4)
        .with_tiles(vec![image(2, 3), image(4, 1)])
        .build(&mut ctx)
        .unwrap();
    assert_eq!(grid.get_tile_size(), 4);
    assert_eq!(grid.get_tile_count(), 2);
    assert_eq!(grid.dimensions(), (3, 4));
    let before = grid.get_cells().clone();
    assert_eq!(before, vec![0; 12]);
    ctx.take_calls();
    assert_eq!(grid.update_tile(&mut ctx, (2, 1), Some(1)), Ok(()));
    let after = grid.get_cells().clone();
    for i in 0..12 {
        if i == 2 * 4 + 1 {
            assert_eq!(after[i], 1);
        } else {
            assert_eq!(after[i], before[i]);
        }
    }
    assert_eq!(ctx.calls().len(), 2);
    assert_eq!(
        ctx.calls()[1],
        GlCall::BufferSubData { target: gl::ARRAY_BUFFER, offset: 9, data: vec![1] }
    );
    assert_eq!(grid.update_tile(&mut ctx, (0, 0), None), Ok(()));
    assert_eq!(grid.tile_at(0, 0), None);
    assert_eq!(grid.tile_at(2, 1), Some(1));
}

#[test]
fn updating_a_cell_outside_the_grid_is_refused() {
    let mut ctx = Context::new();
    let mut grid = HexGridBuilder::default().with_dimensions(2, 2).build(&mut ctx).unwrap();
    ctx.take_calls();
    assert_eq!(grid.update_tile(&mut ctx, (2, 0), Some(0)), Err(GridError::OutOfRange));
    assert_eq!(grid.update_tile(&mut ctx, (0, 2), Some(0)), Err(GridError::OutOfRange));
    assert_eq!(
        grid.update_tile(&mut ctx, (1, 1), Some(1usize << 40)),
        Err(GridError::TileIndexTooLarge)
    );
    assert!(ctx.calls().is_empty());
    assert_eq!(grid.get_cells(), &vec![0, 0, 0, 0]);
}

#[test]
fn grid_contents_must_cover_every_cell() {
    let mut ctx = Context::new();
    let short = HexGridBuilder::default()
        .with_dimensions(2, 2)
        .with_grid_contents(&vec![Some(0), None, Some(1)])
        .build(&mut ctx);
    assert_eq!(short.err(), Some(GridError::ContentsLength));
    let big = HexGridBuilder::default().with_dimensions(100_000, 100_000).build(&mut ctx);
    assert_eq!(big.err(), Some(GridError::TooLarge));
    let far = HexGridBuilder::default()
        .with_dimensions(1, 2)
        .with_grid_contents(&vec![None, Some(1usize << 40)])
        .build(&mut ctx);
    assert_eq!(far.err(), Some(GridError::TileIndexTooLarge));
    let grid = HexGridBuilder::default()
        .with_dimensions(1, 3)
        .with_grid_contents(&vec![Some(0), None, Some(2)])
        .point_up()
        .build(&mut ctx)
        .unwrap();
    assert_eq!(grid.get_cells(), &vec![0, -1, 2]);
}

#[test]
fn grid_draws_every_cell_in_one_instanced_call() {
    let mut ctx = Context::new();
    let grid = HexGridBuilder::default()
        .with_dimensions(5, 7)
        .with_tiles(vec![image(2, 2)])
        .build(&mut ctx)
        .unwrap();
    let prog = program(&mut ctx);
    ctx.take_calls();
    grid.draw(&mut ctx, &prog);
    assert_eq!(ctx.calls().len(), 8);
    assert_eq!(ctx.calls()[0], GlCall::UseProgram { program: prog.id() });
    assert_eq!(
        ctx.calls()[3],
        GlCall::Uniform { program: prog.id(), name: "ntiles".to_string(), value: UniformValue::FloatOf(1) }
    );
    assert_eq!(
        ctx.calls()[7],
        GlCall::DrawArraysInstanced { mode: gl::TRIANGLES, first: 0, count: 6, instances: 5 * 7 * 6 }
    );
}

#[test]
fn runs_of_equal_neighbours_become_one_batch() {
    assert_eq!(batches(&vec![1, 0, 0, 2, 1]), vec![(1, 1), (0, 2), (2, 1), (1, 1)]);
    assert_eq!(batches(&vec![0, 0, 1, 1, 2]), vec![(0, 2), (1, 2), (2, 1)]);
    assert_eq!(batches(&vec![]), vec![]);
    assert_eq!(batches(&vec![4, 4, 4]), vec![(4, 3)]);
}

fn manager(ctx: &mut Context, n: usize) -> (TokenManager, Vec<TokenHandle>) {
    let mut tokens = Vec::new();
    for i in 0..n {
        tokens.push(Token::new(ctx, image(2 + i as u32, 2), 100 + i as u32, false, Mask::NoMask, CentredOn::Tile));
    }
    let prog = program(ctx);
    TokenManager::new(ctx, 210, true, tokens, prog)
}

fn draws(calls: &[GlCall]) -> Vec<(i32, u32)> {
    calls
        .iter()
        .filter_map(|c| match c {
            GlCall::DrawArraysInstancedBaseInstance { instances, base_instance, .. } => {
                Some((*instances, *base_instance))
            },
            _ => None,
        })
        .collect()
}

#[test]
fn tokens_are_drawn_in_one_batch_per_handle() {
    let mut ctx = Context::new();
    let (mut m, h) = manager(&mut ctx, 3);
    let (a, b, c) = (h[0], h[1], h[2]);
    assert_eq!((a, b, c), (TokenHandle(0), TokenHandle(1), TokenHandle(2)));
    let order = [b, a, a, c, b];
    let instances: Vec<TokenInstance> = order
        .iter()
        .enumerate()
        .map(|(i, t)| TokenInstance { coords: at(i as u32, 1), token: *t })
        .collect();
    assert_eq!(m.append_instances(&mut ctx, &instances), Ok(()));
    let handles: Vec<usize> = m.instances_vec().iter().map(|i| i.token.0).collect();
    assert_eq!(handles, vec![0, 0, 1, 1, 2]);
    ctx.take_calls();
    m.draw(&mut ctx);
    assert_eq!(draws(ctx.calls()), vec![(2 * 6, 0), (2 * 6, 2), (6, 4)]);
    let bound: Vec<u64> = ctx
        .calls()
        .iter()
        .filter_map(|c| match c {
            GlCall::BindTexture { texture, .. } => Some(*texture),
            _ => None,
        })
        .collect();
    assert_eq!(bound, vec![1, 2, 3]);
}

#[test]
fn unknown_tokens_and_far_cells_are_refused() {
    let mut ctx = Context::new();
    let (mut m, _) = manager(&mut ctx, 1);
    let bad = vec![TokenInstance { coords: at(0, 0), token: TokenHandle(1) }];
    assert_eq!(m.append_instances(&mut ctx, &bad), Err(TokenError::UnknownToken));
    let far = vec![TokenInstance { coords: at(0x2000_0000, 0), token: TokenHandle(0) }];
    assert_eq!(m.append_instances(&mut ctx, &far), Err(TokenError::CoordsOutOfRange));
    assert!(m.instances_vec().is_empty());
}

#[test]
fn editing_instances_in_place_resorts_before_drawing() {
    let mut ctx = Context::new();
    let (mut m, h) = manager(&mut ctx, 2);
    let more = m.append_tokens(vec![Token::new(
        &mut ctx,
        image(4, 2),
        0,
        true,
        Mask::Clip,
        CentredOn::Corner { point_up: true },
    )]);
    assert_eq!(more, vec![TokenHandle(2)]);
    let instances = vec![
        TokenInstance { coords: at(3, 2), token: h[0] },
        TokenInstance { coords: at(1, 1), token: h[1] },
        TokenInstance { coords: at(3, 2), token: h[1] },
    ];
    m.append_instances(&mut ctx, &instances).unwrap();
    let found = m.find_instances_at(at(3, 2));
    assert_eq!(found, vec![0, 2]);
    assert_eq!(m.set_instance_token(found[0], more[0]), Ok(()));
    assert_eq!(m.set_instance_token(9, h[0]), Err(TokenError::NoSuchInstance));
    assert_eq!(m.set_instance_token(0, TokenHandle(7)), Err(TokenError::UnknownToken));
    ctx.take_calls();
    m.draw(&mut ctx);
    let handles: Vec<usize> = m.instances_vec().iter().map(|i| i.token.0).collect();
    assert_eq!(handles, vec![1, 1, 2]);
    let uploaded: Vec<Vec<i32>> = ctx
        .calls()
        .iter()
        .filter_map(|c| match c {
            GlCall::BufferSubData { data, .. } => Some(data.clone()),
            _ => None,
        })
        .collect();
    assert_eq!(uploaded, vec![vec![2, 3, 5, 6, 5 + 2, 6 + 4]]);
    assert_eq!(draws(ctx.calls()), vec![(12, 0), (6, 2)]);
    let sizes: Vec<UniformValue> = ctx
        .calls()
        .iter()
        .filter_map(|c| match c {
            GlCall::Uniform { name, value, .. } if name == "dimensions" => Some(*value),
            _ => None,
        })
        .collect();
    assert_eq!(
        sizes,
        vec![UniformValue::Vec2Of(101, 101), UniformValue::Vec2Ratio { x: 840, y: 420, den: 4 }]
    );
}

#[test]
fn clicks_resolve_to_the_topmost_quad() {
    let mut ctx = Context::new();
    let prog = program(&mut ctx);
    let mut composer = QuadComposer::new(&mut ctx, UVec2 { x: 800, y: 600 }, prog);
    let tex = Texture2D::with_dimensions(&mut ctx, 4, 4, Format::Rgba);
    let q1 = Quad { offset: UVec2 { x: 0, y: 0 }, size: UVec2 { x: 100, y: 100 } };
    let q2 = Quad { offset: UVec2 { x: 50, y: 50 }, size: UVec2 { x: 100, y: 100 } };
    composer.render_quad(&mut ctx, 1, q1, &tex);
    composer.render_quad(&mut ctx, 2, q2, &tex);
    assert_eq!(composer.resolve_click(UVec2 { x: 60, y: 60 }), Some(2));
    assert_eq!(composer.resolve_click(UVec2 { x: 10, y: 10 }), Some(1));
    assert_eq!(composer.resolve_click(UVec2 { x: 200, y: 200 }), None);
    composer.end_frame();
    assert_eq!(composer.resolve_click(UVec2 { x: 60, y: 60 }), None);
    assert_eq!(composer.resolve_click(UVec2 { x: 10, y: 10 }), None);
}

#[test]
fn quads_exclude_their_upper_edges() {
    let q = Quad { offset: UVec2 { x: 10, y: 20 }, size: UVec2 { x: 5, y: 5 } };
    assert!(q.contains(UVec2 { x: 10, y: 20 }));
    assert!(q.contains(UVec2 { x: 14, y: 24 }));
    assert!(!q.contains(UVec2 { x: 15, y: 24 }));
    assert!(!q.contains(UVec2 { x: 14, y: 25 }));
    assert!(!Quad::default().contains(UVec2 { x: 0, y: 0 }));
    let edge = Quad { offset: UVec2 { x: u32::MAX, y: 0 }, size: UVec2 { x: u32::MAX, y: 1 } };
    assert!(edge.contains(UVec2 { x: u32::MAX, y: 0 }));
}

#[test]
fn composing_records_one_textured_quad() {
    let mut ctx = Context::new();
    let prog = program(&mut ctx);
    let pid = prog.id();
    let mut composer = QuadComposer::new(&mut ctx, UVec2 { x: 800, y: 600 }, prog);
    composer.resize(UVec2 { x: 1024, y: 768 });
    let tex = Texture2D::with_dimensions(&mut ctx, 4, 4, Format::Rgba);
    ctx.take_calls();
    let q = Quad { offset: UVec2 { x: 10, y: 10 }, size: UVec2 { x: 80, y: 60 } };
    composer.render_quad(&mut ctx, 5, q, &tex);
    assert_eq!(ctx.calls().len(), 9);
    assert_eq!(
        ctx.calls()[6],
        GlCall::Uniform {
            program: pid,
            name: "projection".to_string(),
            value: UniformValue::Ortho { width: 1024, height: 768 },
        }
    );
    assert_eq!(ctx.calls()[8], GlCall::DrawArrays { mode: gl::TRIANGLES, first: 0, count: 6 });
}

#[test]
fn example_grid_update_sets_one_cell() {
    let mut ctx = Context::new();
    let mut grid = HexGridBuilder::default()
        .with_dimensions(50, 50)
        .point_up()
        .with_tiles(vec![image(3, 3), image(2, 3)])
        .build(&mut ctx)
        .unwrap();
    assert_eq!(grid.update_tile(&mut ctx, (2, 1), Some(1)), Ok(()));
    let cells = grid.get_cells();
    assert_eq!(cells.len(), 2500);
    for (k, v) in cells.iter().enumerate() {
        assert_eq!(*v, if k == 101 { 1 } else { 0 });
    }
}

#[test]
fn atlas_columns_and_slots_are_wired() {
    let mut ctx = Context::new();
    let _grid = HexGridBuilder::default()
        .with_dimensions(2, 2)
        .with_tiles(vec![image(3, 2), image(2, 3), image(1, 1)])
        .build(&mut ctx)
        .unwrap();
    let xs: Vec<u32> = ctx
        .calls()
        .iter()
        .filter_map(|c| match c {
            GlCall::TexSubImage2D { x, y, .. } => Some(*x + *y),
            _ => None,
        })
        .collect();
    assert_eq!(xs, vec![0, 3, 6]);
    let pointers: Vec<(u32, i32)> = ctx
        .calls()
        .iter()
        .filter_map(|c| match c {
            GlCall::VertexAttribPointer { index, size, .. } => Some((*index, *size)),
            _ => None,
        })
        .collect();
    assert_eq!(pointers, vec![(0, 2), (1, 2), (2, 1)]);
    let divisors: Vec<(u32, u32)> = ctx
        .calls()
        .iter()
        .filter_map(|c| match c {
            GlCall::VertexAttribDivisor { index, divisor } => Some((*index, *divisor)),
            _ => None,
        })
        .collect();
    assert_eq!(divisors, vec![(1, 6), (2, 6)]);
}

#[test]
fn equal_handles_keep_their_order() {
    let mut ctx = Context::new();
    let (mut m, h) = manager(&mut ctx, 2);
    let instances = vec![
        TokenInstance { coords: at(5, 0), token: h[1] },
        TokenInstance { coords: at(1, 0), token: h[0] },
        TokenInstance { coords: at(4, 0), token: h[1] },
        TokenInstance { coords: at(2, 0), token: h[0] },
        TokenInstance { coords: at(3, 0), token: h[1] },
    ];
    m.append_instances(&mut ctx, &instances).unwrap();
    let order: Vec<(usize, u32)> = m.instances_vec().iter().map(|i| (i.token.0, i.coords.x)).collect();
    assert_eq!(order, vec![(0, 1), (0, 2), (1, 5), (1, 4), (1, 3)]);
}

#[test]
fn composer_wires_the_unit_quad_to_slot_zero() {
    let mut ctx = Context::new();
    let prog = program(&mut ctx);
    ctx.take_calls();
    let _composer = QuadComposer::new(&mut ctx, UVec2 { x: 8, y: 8 }, prog);
    assert_eq!(ctx.calls().len(), 8);
    assert_eq!(
        ctx.calls()[2],
        GlCall::BufferData {
            target: gl::ARRAY_BUFFER,
            data: vec![0, 0, 0, 1, 1, 1, 0, 0, 1, 0, 1, 1],
            usage: gl::STATIC_DRAW,
        }
    );
    assert_eq!(
        ctx.calls()[7],
        GlCall::VertexAttribPointer { index: 0, size: 2, ty: gl::INT, normalized: false, stride: 0, offset: 0 }
    );
}

#[test]
fn owners_release_every_handle_they_hold() {
    let mut ctx = Context::new();
    let grid = HexGridBuilder::default().with_dimensions(1, 1).with_tiles(vec![image(1, 1)]).build(&mut ctx).unwrap();
    ctx.take_calls();
    grid.delete(&mut ctx);
    let deleted: Vec<u64> = ctx
        .calls()
        .iter()
        .filter_map(|c| match c {
            GlCall::Delete { id, .. } => Some(*id),
            _ => None,
        })
        .collect();
    let mut sorted = deleted.clone();
    sorted.sort();
    assert_eq!(sorted, vec![1, 2, 3, 4, 5]);
    let (m, _) = manager(&mut ctx, 2);
    ctx.take_calls();
    m.delete(&mut ctx);
    assert_eq!(ctx.calls().len(), 6);
    let prog = program(&mut ctx);
    let composer = QuadComposer::new(&mut ctx, UVec2 { x: 1, y: 1 }, prog);
    ctx.take_calls();
    composer.delete(&mut ctx);
    assert_eq!(ctx.calls().len(), 3);
    let t1 = feywild::texture::Texture1D::new(&mut ctx);
    let t3 = feywild::texture::Texture3D::new(&mut ctx);
    assert_ne!(t1.id(), t3.id());
    t1.delete(&mut ctx);
    t3.delete(&mut ctx);
}
