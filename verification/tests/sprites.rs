use phi::geom::Rectangle;
use phi::gfx::{ParallaxSprite, Sprite};
use phi::render::{DrawCmd, Frame, TextureHandle};

fn tex(id: u64, w: i32, h: i32) -> TextureHandle {
    TextureHandle { id, w, h }
}

fn rect(x: i32, y: i32, w: i32, h: i32) -> Rectangle {
    Rectangle { x, y, w, h }
}

#[test]
fn sprite_covers_whole_texture() {
    let s = Sprite::new(tex(1, 120, 60));
    assert_eq!(s.size(), (120, 60));
    assert_eq!(s.src, rect(0, 0, 120, 60));
}

#[test]
fn region_of_full_source_keeps_size() {
    let s = Sprite::new(tex(1, 120, 60));
    let full = s.region(rect(0, 0, 120, 60)).unwrap();
    assert_eq!(full.size(), s.size());
    assert_eq!(full.src, s.src);
}

#[test]
fn region_outside_source_fails() {
    let s = Sprite::new(tex(1, 120, 60));
    assert!(s.region(rect(0, 0, 121, 60)).is_none());
    assert!(s.region(rect(-1, 0, 10, 10)).is_none());
    assert!(s.region(rect(100, 50, 21, 10)).is_none());
    assert!(s.region(rect(0, 0, -1, 10)).is_none());
}

#[test]
fn region_is_relative_to_current_region() {
    let sheet = Sprite::new(tex(3, 90, 90));
    let cell = sheet.region(rect(30, 60, 30, 30)).unwrap();
    assert_eq!(cell.src, rect(30, 60, 30, 30));
    // A sub-region of the cell is translated by the cell's origin.
    let corner = cell.region(rect(10, 5, 20, 25)).unwrap();
    assert_eq!(corner.src, rect(40, 65, 20, 25));
    // The cell's own coordinates start at its origin, not the sheet's.
    assert!(cell.region(rect(30, 60, 30, 30)).is_none());
    assert_eq!(cell.region(rect(0, 0, 30, 30)).unwrap().src, cell.src);
}

#[test]
fn grid_splits_row_by_row() {
    let sheet = Sprite::new(tex(5, 90, 60));
    let cells = sheet.grid(3, 2);
    assert_eq!(cells.len(), 6);
    assert_eq!(cells[0].src, rect(0, 0, 30, 30));
    assert_eq!(cells[2].src, rect(60, 0, 30, 30));
    assert_eq!(cells[3].src, rect(0, 30, 30, 30));
    assert_eq!(cells[4].src, rect(30, 30, 30, 30));
    assert_eq!(cells[5].src, rect(60, 30, 30, 30));
}

#[test]
fn grid_rounds_cell_extents_down() {
    let sheet = Sprite::new(tex(6, 100, 50));
    let cells = sheet.grid(3, 3);
    assert_eq!(cells.len(), 9);
    assert_eq!(cells[0].src, rect(0, 0, 33, 16));
    assert_eq!(cells[8].src, rect(66, 32, 33, 16));
}

#[test]
fn sprite_render_records_one_copy() {
    let s = Sprite::new(tex(7, 40, 20)).region(rect(10, 0, 20, 20)).unwrap();
    let mut frame = Frame::new(800, 600);
    s.render(&mut frame, rect(100, 200, 40, 40));
    let cmds = frame.take_cmds();
    assert_eq!(cmds.len(), 1);
    assert_eq!(
        cmds[0],
        DrawCmd::Copy { tex: 7, src: rect(10, 0, 20, 20), dest: rect(100, 200, 40, 40) }
    );
    // Draining left the buffer empty.
    assert_eq!(frame.take_cmds().len(), 0);
}

#[test]
fn parallax_phase_advances_and_wraps() {
    // 100 source pixels wide, scrolling 20 px/s.
    let mut p = ParallaxSprite::new(tex(1, 100, 50), 20);
    assert_eq!(p.current_phase(), 0);
    let mut frame = Frame::new(200, 100);
    p.render(&mut frame, None, 2500);
    // 20 px/s for 2.5 s is 50 pixels: 50_000 thousandths.
    assert_eq!(p.current_phase(), 50_000);
    p.render(&mut frame, None, 3000);
    // 50 + 60 pixels wraps at 100.
    assert_eq!(p.current_phase(), 10_000);
}

#[test]
fn parallax_negative_velocity_wraps_backwards() {
    let mut p = ParallaxSprite::new(tex(1, 100, 50), -20);
    let mut frame = Frame::new(200, 100);
    p.render(&mut frame, None, 1000);
    // Moving 20 pixels backwards from 0 wraps to 80.
    assert_eq!(p.current_phase(), 80_000);
}

#[test]
fn phase_advances_without_rendering_and_matches_render() {
    // `advance` moves the phase for any layer, with no destination in
    // sight; `render` moves it by exactly the same law.
    let mut advanced = ParallaxSprite::new(tex(1, 100, 50), 20);
    advanced.advance(2500);
    let mut rendered = ParallaxSprite::new(tex(1, 100, 50), 20);
    let mut frame = Frame::new(200, 100);
    rendered.render(&mut frame, None, 2500);
    assert_eq!(advanced.current_phase(), rendered.current_phase());
    assert_eq!(advanced.current_phase(), 50_000);

    // A layer whose artwork no output here could tile still scrolls.
    let mut odd = ParallaxSprite::new(tex(2, 7, 3), 5);
    odd.advance(1234);
    assert_eq!(odd.current_phase(), (5 * 1234) % (7 * 1000));
    odd.advance(600);
    assert_eq!(odd.current_phase(), (5 * (1234 + 600)) % (7 * 1000));
}

#[test]
fn split_advance_matches_on_awkward_geometry() {
    let mut once = ParallaxSprite::new(tex(3, 33, 7), -11);
    let mut split = ParallaxSprite::new(tex(3, 33, 7), -11);
    once.advance(9999);
    split.advance(1);
    split.advance(9000);
    split.advance(998);
    assert_eq!(once.current_phase(), split.current_phase());
}

#[test]
fn parallax_split_advance_matches_single_advance() {
    let mut once = ParallaxSprite::new(tex(1, 100, 50), 17);
    let mut split = ParallaxSprite::new(tex(1, 100, 50), 17);
    let mut frame = Frame::new(200, 100);
    once.render(&mut frame, None, 7351);
    split.render(&mut frame, None, 4000);
    split.render(&mut frame, None, 3000);
    split.render(&mut frame, None, 351);
    assert_eq!(once.current_phase(), split.current_phase());
}

#[test]
fn parallax_tiles_cover_destination() {
    let mut p = ParallaxSprite::new(tex(9, 100, 50), 20);
    let mut frame = Frame::new(200, 100);

    // Phase zero: one tile of width 200 at x = 0 covers the 200-wide output.
    p.render(&mut frame, None, 0);
    let cmds = frame.take_cmds();
    assert_eq!(cmds.len(), 1);
    assert_eq!(cmds[0], DrawCmd::Copy { tex: 9, src: rect(0, 0, 100, 50), dest: rect(0, 0, 200, 100) });

    // After 2.5 s the phase is 50 source pixels; scaled by 100/50 that is a
    // 100-pixel screen offset, so two tiles are needed.
    p.render(&mut frame, None, 2500);
    let cmds = frame.take_cmds();
    assert_eq!(cmds.len(), 2);
    assert_eq!(cmds[0], DrawCmd::Copy { tex: 9, src: rect(0, 0, 100, 50), dest: rect(-100, 0, 200, 100) });
    assert_eq!(cmds[1], DrawCmd::Copy { tex: 9, src: rect(0, 0, 100, 50), dest: rect(100, 0, 200, 100) });
}

#[test]
fn parallax_renders_into_given_rectangle() {
    let mut p = ParallaxSprite::new(tex(4, 100, 50), 0);
    let mut frame = Frame::new(800, 600);
    // Destination 150 wide and 25 high: tiles are 50 wide, so three cover it.
    p.render(&mut frame, Some(rect(0, 0, 150, 25)), 0);
    let cmds = frame.take_cmds();
    assert_eq!(cmds.len(), 3);
    assert_eq!(cmds[0], DrawCmd::Copy { tex: 4, src: rect(0, 0, 100, 50), dest: rect(0, 0, 50, 25) });
    assert_eq!(cmds[1], DrawCmd::Copy { tex: 4, src: rect(0, 0, 100, 50), dest: rect(50, 0, 50, 25) });
    assert_eq!(cmds[2], DrawCmd::Copy { tex: 4, src: rect(0, 0, 100, 50), dest: rect(100, 0, 50, 25) });
}
