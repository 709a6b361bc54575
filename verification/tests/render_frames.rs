use ascii_webcam::glyphs::{build_lut, char_bitmap, CHAR_PX_H, CHAR_PX_W, GSCALE};
use ascii_webcam::render::{frame_geometry, render, Placement, RenderOutput};
use ascii_webcam::state::ViewState;

const CHAR_ASPECT: f64 = 0.5;

fn gray_level(r: u8, g: u8, b: u8) -> u8 {
    (0.299_f64.mul_add(r as f64, 0.587_f64.mul_add(g as f64, 0.114 * b as f64))) as u8
}

fn gray_image(raw: &[u8]) -> Vec<u8> {
    raw.chunks_exact(3).map(|p| gray_level(p[0], p[1], p[2])).collect()
}

/// Picture placement computed in floating point, as the viewer does it.
fn placement(orig_w: u32, orig_h: u32, transpose: bool, term_w: u32, term_h: u32) -> Placement {
    let geo = frame_geometry(orig_w, orig_h, transpose, term_h);
    let (frame_w, frame_h, art_rows) = (geo.frame_w, geo.frame_h, geo.art_rows);
    let video_aspect = frame_w as f64 / frame_h as f64 / CHAR_ASPECT;
    let term_aspect = term_w as f64 / art_rows as f64;
    let (render_w, render_h, pad_x, pad_y) = if video_aspect > term_aspect {
        let rh = (term_w as f64 / video_aspect).round().max(1.0) as u32;
        (term_w, rh, 0i32, ((art_rows as i32 - rh as i32) / 2).max(0))
    } else {
        let rw = (art_rows as f64 * video_aspect).round().max(1.0) as u32;
        (rw, art_rows, ((term_w as i32 - rw as i32) / 2).max(0), 0i32)
    };
    let scale_x = frame_w as f64 / render_w as f64;
    let scale_y = frame_h as f64 / render_h as f64;
    let src_xs = (0..render_w)
        .map(|x| ((x as f64 * scale_x) as u32).min(frame_w.saturating_sub(1)))
        .collect();
    let src_ys = (0..render_h)
        .map(|y| ((y as f64 * scale_y) as u32).min(frame_h.saturating_sub(1)))
        .collect();
    Placement { render_w, render_h, pad_x: pad_x as u32, pad_y: pad_y as u32, src_xs, src_ys }
}

struct Model {
    ansi: String,
    image: Vec<u8>,
    image_w: u32,
    image_h: u32,
    plain: String,
}

/// A direct floating-point model of the renderer, used as the oracle.
fn model(
    raw: &[u8],
    orig_w: u32,
    orig_h: u32,
    st: &ViewState,
    term_w: u32,
    term_h: u32,
    fps: u32,
) -> Model {
    let chars: Vec<char> = if st.invert {
        GSCALE.chars().rev().collect()
    } else {
        GSCALE.chars().collect()
    };
    let n = (chars.len() - 1) as f64;
    let mut lut = [' '; 256];
    for (i, entry) in lut.iter_mut().enumerate() {
        let idx = (i as f64 / 255.0 * n).round() as usize;
        *entry = chars[idx.min(chars.len() - 1)];
    }
    let transposed = st.transpose || orig_w < orig_h;
    let (frame_w, frame_h, buf_stride) =
        if transposed { (orig_h, orig_w, orig_w) } else { (orig_w, orig_h, orig_w) };
    let art_rows = term_h.saturating_sub(1).max(1);
    let video_aspect = frame_w as f64 / frame_h as f64 / CHAR_ASPECT;
    let term_aspect = term_w as f64 / art_rows as f64;
    let (render_w, render_h, pad_x, pad_y) = if video_aspect > term_aspect {
        let rh = (term_w as f64 / video_aspect).round().max(1.0) as u32;
        (term_w, rh, 0i32, ((art_rows as i32 - rh as i32) / 2).max(0))
    } else {
        let rw = (art_rows as f64 * video_aspect).round().max(1.0) as u32;
        (rw, art_rows, ((term_w as i32 - rw as i32) / 2).max(0), 0i32)
    };
    let scale_x = frame_w as f64 / render_w as f64;
    let scale_y = frame_h as f64 / render_h as f64;
    let mut plain = String::new();
    let mut ansi = String::new();
    let img_w = render_w * CHAR_PX_W;
    let img_h = art_rows * CHAR_PX_H;
    let mut img = vec![0u8; (img_w * img_h * 3) as usize];
    ansi.push_str("\x1b[?2026h\x1b[H\x1b[2J");
    for y in 0..art_rows {
        let col = if y as i32 >= pad_y && (y as i32 - pad_y) < render_h as i32 {
            pad_x as u32 + 1
        } else {
            1
        };
        ansi.push_str(&format!("\x1b[{};{col}H", y + 1));
        let src_y_img = y as i32 - pad_y;
        if src_y_img >= 0 && (src_y_img as u32) < render_h {
            let src_y = ((src_y_img as f64 * scale_y) as u32).min(frame_h.saturating_sub(1));
            for x in 0..render_w {
                let src_x = ((x as f64 * scale_x) as u32).min(frame_w.saturating_sub(1));
                let sx = if st.mirror { frame_w - 1 - src_x } else { src_x };
                let idx = if transposed {
                    (sx * buf_stride + src_y) as usize * 3
                } else {
                    (src_y * frame_w + sx) as usize * 3
                };
                let (r, g, b) = (raw[idx], raw[idx + 1], raw[idx + 2]);
                let ch = lut[gray_level(r, g, b) as usize];
                if st.bw {
                    ansi.push_str(&format!("\x1b[38;2;255;255;255m{ch}"));
                } else {
                    ansi.push_str(&format!("\x1b[38;2;{r};{g};{b}m{ch}"));
                }
                plain.push(ch);
                let px = x * CHAR_PX_W;
                let py = y * CHAR_PX_H;
                let bitmap = char_bitmap(ch);
                for dy in 0..CHAR_PX_H {
                    let row_start = ((py + dy) * img_w + px) as usize * 3;
                    for dx in 0..CHAR_PX_W {
                        let bit = (bitmap >> (dy * CHAR_PX_W + dx)) & 1;
                        let (pr, pg, pb) = if bit == 1 {
                            (
                                (r as u16 * 3 / 10) as u8,
                                (g as u16 * 3 / 10) as u8,
                                (b as u16 * 3 / 10) as u8,
                            )
                        } else {
                            (r, g, b)
                        };
                        let i = row_start + dx as usize * 3;
                        img[i] = pr;
                        img[i + 1] = pg;
                        img[i + 2] = pb;
                    }
                }
            }
        }
        plain.push('\n');
    }
    let m = if st.mirror { "M" } else { " " };
    let i = if st.invert { "I" } else { " " };
    let t = if transposed { "T" } else { " " };
    let b = if st.bw { "B" } else { " " };
    let v = if st.output_enabled { "V" } else { " " };
    let cam_label = format!("{orig_w}x{orig_h}");
    let fps_text = format!(" {fps:3} FPS ");
    let hud = format!(
        "\x1b[{hud_row};1H\x1b[48;2;30;30;30m\x1b[38;2;180;180;180m\
         {fps_text}\
         ┃ {m}{i}{t}{b}{v} ┃ {cam_label} -> {render_w}x{render_h} \
         ┃ q:quit  r:inv  m:mir  t:trn  b:bw  s:v4l2  c:capture\
         \x1b[K\x1b[0m",
        hud_row = term_h,
    );
    ansi.push_str(&hud);
    ansi.push_str("\x1b[?2026l");
    Model { ansi, image: img, image_w: img_w, image_h: img_h, plain }
}

fn frame_bytes(w: u32, h: u32, seed: u32) -> Vec<u8> {
    let mut x = seed.wrapping_mul(2654435761).wrapping_add(12345);
    (0..(w * h * 3))
        .map(|_| {
            x ^= x << 13;
            x ^= x >> 17;
            x ^= x << 5;
            (x >> 7) as u8
        })
        .collect()
}

fn check(w: u32, h: u32, flags: (bool, bool, bool, bool, bool), term_w: u32, term_h: u32, seed: u32) {
    let raw = frame_bytes(w, h, seed);
    let (invert, mirror, transpose, bw, output) = flags;
    let mut st = ViewState::new(invert, mirror, transpose, bw, output);
    st.frame_count = 41;
    let fps = seed % 1500;
    let expected = model(&raw, w, h, &st, term_w, term_h, fps);
    let gray = gray_image(&raw);
    let place = placement(w, h, st.transpose, term_w, term_h);
    let out: RenderOutput = render(&raw, &gray, w, h, &mut st, &place, term_w, term_h, fps);
    assert_eq!(out.ansi, expected.ansi);
    assert_eq!(out.image, expected.image);
    assert_eq!(out.image_w, expected.image_w);
    assert_eq!(out.image_h, expected.image_h);
    assert_eq!(st.last_frame_plain, expected.plain);
    assert_eq!(st.frame_count, 42);
}

#[test]
fn renders_landscape_frames_like_the_model() {
    check(64, 48, (false, false, false, false, false), 40, 20, 1);
    check(64, 48, (false, false, false, false, false), 200, 12, 2);
    check(80, 20, (true, false, false, false, true), 33, 17, 3);
}

#[test]
fn renders_mirrored_and_black_and_white_frames_like_the_model() {
    check(64, 48, (false, true, false, true, false), 50, 30, 4);
    check(37, 29, (true, true, false, false, false), 23, 9, 5);
}

#[test]
fn renders_portrait_and_transposed_frames_like_the_model() {
    check(30, 60, (false, false, false, false, false), 40, 20, 6);
    check(30, 60, (false, true, false, false, false), 10, 40, 7);
    check(60, 45, (false, false, true, false, false), 30, 10, 8);
}

#[test]
fn renders_tiny_terminals_like_the_model() {
    check(16, 12, (false, false, false, false, false), 1, 1, 9);
    check(16, 12, (false, false, false, false, false), 2, 2, 10);
    check(4, 4, (false, false, false, false, false), 5, 3, 11);
}

#[test]
fn gray_table_matches_rounded_ramp_positions() {
    for invert in [false, true] {
        let chars: Vec<char> = if invert {
            GSCALE.chars().rev().collect()
        } else {
            GSCALE.chars().collect()
        };
        let lut = build_lut(invert);
        for i in 0..256usize {
            let idx = (i as f64 / 255.0 * 11.0).round() as usize;
            assert_eq!(lut[i], chars[idx.min(11)], "level {i}");
        }
    }
}

#[test]
fn gray_table_ends_and_inversion() {
    let plain = build_lut(false);
    let inverted = build_lut(true);
    assert_eq!(plain[0], ' ');
    assert_eq!(plain[255], '@');
    assert_eq!(inverted[0], '@');
    assert_eq!(inverted[255], ' ');
    for i in 0..256usize {
        assert_eq!(inverted[i], plain[255 - i]);
    }
}

#[test]
fn glyph_bitmaps() {
    assert_eq!(char_bitmap(' '), 0);
    assert_eq!(char_bitmap('.'), 0x00030000);
    assert_eq!(char_bitmap('@'), 0x1F3F3B3B3F1F00);
    assert_eq!(char_bitmap('%'), 0x2310180C060231);
    assert_eq!(char_bitmap('x'), 0);
    for c in GSCALE.chars() {
        assert_eq!(char_bitmap(c) >> 60, 0);
    }
}

#[test]
fn frame_geometry_turns_portrait_frames() {
    let g = frame_geometry(480, 640, false, 25);
    assert!(g.transposed);
    assert_eq!((g.frame_w, g.frame_h, g.art_rows), (640, 480, 24));
    let g = frame_geometry(640, 480, false, 1);
    assert!(!g.transposed);
    assert_eq!((g.frame_w, g.frame_h, g.art_rows), (640, 480, 1));
    let g = frame_geometry(640, 480, true, 0);
    assert!(g.transposed);
    assert_eq!((g.frame_w, g.frame_h, g.art_rows), (480, 640, 1));
}

#[test]
fn renders_a_two_pixel_frame_exactly() {
    let raw = vec![10u8, 20, 30, 200, 210, 220];
    let gray = vec![0u8, 255];
    let mut st = ViewState::new(false, false, false, false, false);
    let place = Placement {
        render_w: 2,
        render_h: 1,
        pad_x: 0,
        pad_y: 0,
        src_xs: vec![0, 1],
        src_ys: vec![0],
    };
    let out = render(&raw, &gray, 2, 1, &mut st, &place, 2, 3, 7);
    let expected = [
        "\x1b[?2026h\x1b[H\x1b[2J",
        "\x1b[1;1H\x1b[38;2;10;20;30m \x1b[38;2;200;210;220m@",
        "\x1b[2;1H",
        "\x1b[3;1H\x1b[48;2;30;30;30m\x1b[38;2;180;180;180m   7 FPS ┃       ┃ 2x1 -> 2x1 ┃ q:quit  r:inv  m:mir  t:trn  b:bw  s:v4l2  c:capture\x1b[K\x1b[0m",
        "\x1b[?2026l",
    ]
    .concat();
    assert_eq!(out.ansi, expected);
    assert_eq!(st.last_frame_plain, " @\n\n");
    assert_eq!(st.frame_count, 1);
    assert_eq!((out.image_w, out.image_h), (12, 20));
    assert_eq!(out.image.len(), 12 * 20 * 3);
    // the blank cell shows its colour everywhere
    assert_eq!(&out.image[0..3], &[10, 20, 30]);
    // pixel (6, 1) is the top-left of '@': bit 6 of 0x1F3F3B3B3F1F00 is clear
    let p = ((1 * 12 + 6) * 3) as usize;
    assert_eq!(&out.image[p..p + 3], &[200, 210, 220]);
    // pixel (8, 1) is covered: bit 8 is set, the colour is dimmed to a third
    let p = ((1 * 12 + 8) * 3) as usize;
    assert_eq!(&out.image[p..p + 3], &[60, 63, 66]);
    // the row below the picture is black
    assert!(out.image[(10 * 12 * 3) as usize..].iter().all(|&v| v == 0));
}

#[test]
fn mirrored_row_samples_from_the_right() {
    let raw = vec![10u8, 20, 30, 200, 210, 220];
    let gray = vec![0u8, 255];
    let mut st = ViewState::new(false, true, false, true, true);
    let place = Placement {
        render_w: 2,
        render_h: 1,
        pad_x: 3,
        pad_y: 1,
        src_xs: vec![0, 1],
        src_ys: vec![0],
    };
    let out = render(&raw, &gray, 2, 1, &mut st, &place, 9, 3, 1234);
    let expected = [
        "\x1b[?2026h\x1b[H\x1b[2J",
        "\x1b[1;1H",
        "\x1b[2;4H\x1b[38;2;255;255;255m@\x1b[38;2;255;255;255m ",
        "\x1b[3;1H\x1b[48;2;30;30;30m\x1b[38;2;180;180;180m 1234 FPS ┃ M  BV ┃ 2x1 -> 2x1 ┃ q:quit  r:inv  m:mir  t:trn  b:bw  s:v4l2  c:capture\x1b[K\x1b[0m",
        "\x1b[?2026l",
    ]
    .concat();
    assert_eq!(out.ansi, expected);
    assert_eq!(st.last_frame_plain, "\n@ \n");
}

#[test]
fn brighter_levels_never_go_down_the_ramp() {
    for invert in [false, true] {
        let ramp: Vec<char> = if invert {
            GSCALE.chars().rev().collect()
        } else {
            GSCALE.chars().collect()
        };
        let lut = build_lut(invert);
        let position = |c: char, from: usize| (from..ramp.len()).find(|&k| ramp[k] == c);
        let mut pos = 0usize;
        for i in 0..256usize {
            pos = position(lut[i], pos).expect("level keeps or climbs its ramp position");
        }
    }
}

#[test]
fn captures_show_the_characters_of_the_screen() {
    let raw = frame_bytes(24, 18, 77);
    let gray = gray_image(&raw);
    let mut st = ViewState::new(false, false, false, false, false);
    let place = placement(24, 18, false, 20, 8);
    let out = render(&raw, &gray, 24, 18, &mut st, &place, 20, 8, 30);
    let picture = out.ansi.split("\x1b[48;2;30;30;30m").next().unwrap();
    let shown: String = picture
        .split("\x1b[38;2;")
        .skip(1)
        .map(|cell| cell.split('m').nth(1).unwrap().chars().next().unwrap())
        .collect();
    let captured: String = st.last_frame_plain.chars().filter(|&c| c != '\n').collect();
    assert_eq!(shown, captured);
    assert_eq!(st.last_frame_plain.matches('\n').count(), 7);
}

fn rows_reversed(raw: &[u8], w: u32, h: u32) -> Vec<u8> {
    let row = (w * 3) as usize;
    (0..h as usize).rev().flat_map(|i| raw[i * row..(i + 1) * row].to_vec()).collect()
}

fn columns_reversed(raw: &[u8], w: u32, h: u32) -> Vec<u8> {
    let mut out = Vec::new();
    for i in 0..h as usize {
        for j in (0..w as usize).rev() {
            let p = (i * w as usize + j) * 3;
            out.extend_from_slice(&raw[p..p + 3]);
        }
    }
    out
}

fn render_plain(raw: &[u8], w: u32, h: u32, mirror: bool, term_w: u32, term_h: u32) -> (Vec<u8>, String) {
    let gray = gray_image(raw);
    let mut st = ViewState::new(false, mirror, false, false, false);
    let place = placement(w, h, false, term_w, term_h);
    let out = render(raw, &gray, w, h, &mut st, &place, term_w, term_h, 0);
    (out.image, st.last_frame_plain)
}

#[test]
fn mirror_flips_rotated_frames() {
    // a 1 x 2 portrait frame: white above black, and its upside-down copy
    let raw = vec![255u8, 255, 255, 0, 0, 0];
    let flipped = rows_reversed(&raw, 1, 2);
    let gray = gray_image(&raw);
    let gray_flipped = gray_image(&flipped);
    let place = Placement { render_w: 2, render_h: 1, pad_x: 0, pad_y: 0, src_xs: vec![0, 1], src_ys: vec![0] };
    let mut st = ViewState::new(false, false, false, false, false);
    render(&raw, &gray, 1, 2, &mut st, &place, 2, 2, 0);
    assert_eq!(st.last_frame_plain, "@ \n");
    let mut st2 = ViewState::new(false, true, false, false, false);
    render(&flipped, &gray_flipped, 1, 2, &mut st2, &place, 2, 2, 0);
    assert_eq!(st2.last_frame_plain, st.last_frame_plain);
    for (w, h, tw, th) in [(30u32, 60u32, 40u32, 20u32), (20, 40, 7, 30)] {
        let raw = frame_bytes(w, h, w + h);
        assert_eq!(
            render_plain(&raw, w, h, false, tw, th),
            render_plain(&rows_reversed(&raw, w, h), w, h, true, tw, th)
        );
    }
}

#[test]
fn mirror_flips_landscape_frames() {
    for (w, h, tw, th) in [(64u32, 48u32, 40u32, 20u32), (37, 29, 23, 9)] {
        let raw = frame_bytes(w, h, w * h);
        assert_eq!(
            render_plain(&raw, w, h, false, tw, th),
            render_plain(&columns_reversed(&raw, w, h), w, h, true, tw, th)
        );
    }
}

#[test]
fn rotated_frames_sample_the_chosen_rows() {
    // a 1 x 4 portrait frame; only its third row is white
    let raw = vec![0u8, 0, 0, 0, 0, 0, 255, 255, 255, 0, 0, 0];
    let gray = gray_image(&raw);
    let place = Placement { render_w: 2, render_h: 1, pad_x: 0, pad_y: 0, src_xs: vec![0, 2], src_ys: vec![0] };
    let mut st = ViewState::new(false, false, false, false, false);
    render(&raw, &gray, 1, 4, &mut st, &place, 2, 2, 0);
    assert_eq!(st.last_frame_plain, " @\n");
}

#[test]
fn black_and_white_changes_only_the_colour_escapes() {
    let raw = frame_bytes(32, 24, 5);
    let gray = gray_image(&raw);
    let place = placement(32, 24, false, 30, 12);
    let mut colour = ViewState::new(false, false, false, false, false);
    let mut white = ViewState::new(false, false, false, true, false);
    let a = render(&raw, &gray, 32, 24, &mut colour, &place, 30, 12, 9);
    let b = render(&raw, &gray, 32, 24, &mut white, &place, 30, 12, 9);
    assert_eq!(a.image, b.image);
    assert_eq!(colour.last_frame_plain, white.last_frame_plain);
    assert!(b.ansi.matches("\x1b[38;2;255;255;255m").count() >= 30 * 1);
    assert!(b.ansi.contains("┃    B  ┃"));
}
