use thumbmatch::bounds::{detect_inner_image_bounds, is_background, Raster, Rgb};

fn uniform(width: u32, height: u32, v: u8) -> Raster {
    Raster { width, height, pixels: vec![v; (3 * width * height) as usize] }
}

fn paint(img: &mut Raster, x0: u32, y0: u32, x1: u32, y1: u32, v: u8) {
    for y in y0..y1 {
        for x in x0..x1 {
            let i = (3 * (y * img.width + x)) as usize;
            img.pixels[i] = v;
            img.pixels[i + 1] = v;
            img.pixels[i + 2] = v;
        }
    }
}

#[test]
fn background_threshold() {
    assert!(is_background(&Rgb { r: 231, g: 231, b: 231 }));
    assert!(!is_background(&Rgb { r: 230, g: 255, b: 255 }));
    assert!(!is_background(&Rgb { r: 255, g: 255, b: 0 }));
}

#[test]
fn uniform_background_gives_empty_middle_rect() {
    assert_eq!(detect_inner_image_bounds(&uniform(40, 20, 255)), (20, 10, 0, 0));
    assert_eq!(detect_inner_image_bounds(&uniform(7, 9, 240)), (3, 4, 0, 0));
}

#[test]
fn empty_image_gives_origin() {
    assert_eq!(detect_inner_image_bounds(&uniform(0, 0, 255)), (0, 0, 0, 0));
}

#[test]
fn bordered_content_is_found() {
    let mut img = uniform(40, 40, 255);
    paint(&mut img, 5, 6, 35, 33, 10);
    assert_eq!(detect_inner_image_bounds(&img), (5, 6, 29, 26));
}

#[test]
fn content_without_border_spans_to_last_pixel() {
    let img = uniform(16, 8, 0);
    assert_eq!(detect_inner_image_bounds(&img), (0, 0, 15, 7));
}
