use lan_pairing::encoder::{encode, render_bitmap};

#[test]
fn render_formula_exact_for_one_module() {
    // One dark module, quiet border of four on each side: nine modules
    // span, so a 20-pixel target gives two pixels per module, the code
    // centered at offset (20 - 2) / 2 = 9. Exactly the four pixels with
    // both coordinates in 9..=10 are dark.
    let grid = vec![true];
    let bmp = render_bitmap(&grid, 1, 20, 20);
    assert_eq!(bmp.width(), 20);
    assert_eq!(bmp.height(), 20);
    for y in 0..20 {
        for x in 0..20 {
            let expected = (9..=10).contains(&x) && (9..=10).contains(&y);
            assert_eq!(bmp.get(x, y), expected);
        }
    }
}

#[test]
fn render_light_module_gives_blank_grid() {
    let grid = vec![false];
    let bmp = render_bitmap(&grid, 1, 20, 20);
    for y in 0..20 {
        for x in 0..20 {
            assert!(!bmp.get(x, y));
        }
    }
}

#[test]
fn encode_is_deterministic() {
    let text = "http://192.168.1.50:3000";
    let a = encode(text, 400, 400).unwrap();
    let b = encode(text, 400, 400).unwrap();
    assert_eq!(a.width(), b.width());
    assert_eq!(a.height(), b.height());
    for y in 0..a.height() {
        for x in 0..a.width() {
            assert_eq!(a.get(x, y), b.get(x, y));
        }
    }
}

#[test]
fn oversized_text_is_refused() {
    // Far past the capacity of every version of the scheme.
    let text: String = std::iter::repeat('a').take(8000).collect();
    let r = encode(text.as_str(), 400, 400);
    assert!(r.is_err());
}

#[test]
fn url_fills_the_reference_target() {
    let bmp = encode("http://192.168.1.50:3000", 400, 400).unwrap();
    assert_eq!(bmp.width(), 400);
    assert_eq!(bmp.height(), 400);
    assert_eq!(bmp.pixel_count(), 400 * 400);
}

#[test]
fn bitmap_is_two_toned() {
    // A real code has both dark and light pixels; a grid that came back
    // blank or solid would show a broken encoding step.
    let bmp = encode("http://192.168.1.50:3000", 400, 400).unwrap();
    let mut dark: usize = 0;
    let mut light: usize = 0;
    for y in 0..bmp.height() {
        for x in 0..bmp.width() {
            if bmp.get(x, y) {
                dark += 1;
            } else {
                light += 1;
            }
        }
    }
    assert!(dark > 0);
    assert!(light > 0);
}

#[test]
fn quiet_border_stays_light() {
    // The code is centered with at least four scaled modules of margin, so
    // the outermost four-pixel ring is always light.
    let bmp = encode("http://192.168.1.50:3000", 400, 400).unwrap();
    let n = bmp.width();
    for d in 0..4 {
        for i in 0..n {
            assert!(!bmp.get(i, d));
            assert!(!bmp.get(i, n - 1 - d));
            assert!(!bmp.get(d, i));
            assert!(!bmp.get(n - 1 - d, i));
        }
    }
}

#[test]
fn tiny_target_grows_to_fit_code_and_border() {
    // A target too small for one pixel per module is grown to the code
    // plus its border: the smallest code has 21 modules a side, so the
    // output is at least 29 and never more than 185 pixels a side.
    let bmp = encode("http://192.168.1.50:3000", 10, 10).unwrap();
    assert_eq!(bmp.width(), bmp.height());
    assert!(bmp.width() >= 29);
    assert!(bmp.width() <= 185);
}

#[test]
fn oblong_target_uses_smaller_side() {
    let bmp = encode("http://192.168.1.50:3000", 100, 400).unwrap();
    assert_eq!(bmp.width(), 100);
    assert_eq!(bmp.height(), 100);
}

#[test]
fn empty_text_still_encodes() {
    let bmp = encode("", 400, 400).unwrap();
    assert_eq!(bmp.width(), 400);
}
