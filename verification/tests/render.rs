use image::{imageops, DynamicImage, ImageFormat, RgbImage, Rgba, RgbaImage};
use sd_rust::render::{
    blank_tile, center, content_bbox, crop, default_error_icon, fill_rect, fit_rgba, fit_to_key,
    frame, fully_opaque, inset, is_svg, load_icon, show_picture, unpremultiply, IconData,
    IconError, Picture, Rgb, Tile,
};

fn picture(image: &RgbaImage) -> Picture {
    Picture { width: image.width(), height: image.height(), bytes: image.as_raw().clone() }
}

fn bytes(tile: &Tile) -> Vec<u8> {
    tile.pixels.iter().flat_map(|p| [p.r, p.g, p.b]).collect()
}

/// A picture with a transparent border, soft edges and a gradient inside.
fn sample(w: u32, h: u32, opaque: bool) -> RgbaImage {
    RgbaImage::from_fn(w, h, |x, y| {
        let a = if opaque {
            255
        } else if x < 2 || y < 3 || x + 2 >= w || y + 4 >= h {
            0
        } else {
            ((x * 37 + y * 11) % 256) as u8
        };
        Rgba([(x * 5 % 256) as u8, (y * 7 % 256) as u8, ((x + y) % 256) as u8, a])
    })
}

/// The picture fit into a square and composited over a black key.
fn fit(content: &RgbaImage, size: u32) -> RgbImage {
    let scaled = DynamicImage::ImageRgba8(content.clone())
        .resize(size, size, imageops::FilterType::Lanczos3)
        .to_rgba8();
    let mut canvas = RgbaImage::from_pixel(72, 72, Rgba([0, 0, 0, 255]));
    let x = (72 - scaled.width()) as i64 / 2;
    let y = (72 - scaled.height()) as i64 / 2;
    imageops::overlay(&mut canvas, &scaled, x, y);
    DynamicImage::ImageRgba8(canvas).to_rgb8()
}

#[test]
fn blank_is_black() {
    let t = blank_tile();
    assert_eq!(t.pixels.len(), 72 * 72);
    assert!(t.pixels.iter().all(|p| *p == Rgb { r: 0, g: 0, b: 0 }));
}

#[test]
fn rectangles_are_clipped() {
    let white = Rgb { r: 255, g: 255, b: 255 };
    let mut t = blank_tile();
    fill_rect(&mut t, -5, 70, 7, 100, white);
    for y in 0..72u32 {
        for x in 0..72u32 {
            let inside = x < 2 && y >= 70;
            assert_eq!(t.pixel(x, y) == white, inside, "{x},{y}");
        }
    }
    fill_rect(&mut t, i32::MIN, i32::MIN, u32::MAX, 1, white);
    fill_rect(&mut t, 100, 100, 5, 5, white);
    assert_eq!(t.pixels.iter().filter(|p| **p == white).count(), 4);
    fill_rect(&mut t, -1, -1, u32::MAX, u32::MAX, white);
    assert!(t.pixels.iter().all(|p| *p == white));
}

#[test]
fn error_icon_is_a_white_mark_on_red() {
    let t = default_error_icon();
    let white = Rgb { r: 255, g: 255, b: 255 };
    let red = Rgb { r: 180, g: 30, b: 30 };
    assert_eq!(t.pixel(31, 14), white);
    assert_eq!(t.pixel(40, 43), white);
    assert_eq!(t.pixel(40, 44), red);
    assert_eq!(t.pixel(41, 20), red);
    assert_eq!(t.pixel(30, 20), red);
    assert_eq!(t.pixel(35, 50), white);
    assert_eq!(t.pixel(35, 59), white);
    assert_eq!(t.pixel(35, 60), red);
    assert_eq!(t.pixels.iter().filter(|p| **p == white).count(), 400);
}

#[test]
fn opaque_means_nearly_so() {
    let mut image = sample(9, 5, true);
    image.put_pixel(8, 4, Rgba([0, 0, 0, 250]));
    assert!(fully_opaque(&picture(&image)));
    image.put_pixel(8, 4, Rgba([0, 0, 0, 249]));
    assert!(!fully_opaque(&picture(&image)));
}

#[test]
fn content_is_boxed_tightly() {
    let mut image = RgbaImage::new(20, 10);
    assert_eq!(content_bbox(&picture(&image)), None);
    image.put_pixel(4, 3, Rgba([1, 1, 1, 15]));
    assert_eq!(content_bbox(&picture(&image)), None);
    image.put_pixel(5, 7, Rgba([1, 1, 1, 16]));
    assert_eq!(content_bbox(&picture(&image)), Some((5, 7, 1, 1)));
    image.put_pixel(19, 2, Rgba([1, 1, 1, 255]));
    assert_eq!(content_bbox(&picture(&image)), Some((5, 2, 15, 6)));
}

#[test]
fn crops_are_parts() {
    let image = sample(11, 7, false);
    let part = crop(&picture(&image), 3, 2, 5, 4);
    let expected = imageops::crop_imm(&image, 3, 2, 5, 4).to_image();
    assert_eq!(part.bytes, *expected.as_raw());
    assert_eq!((part.width, part.height), (5, 4));
}

#[test]
fn opaque_pictures_fill_the_key() {
    for (w, h) in [(72, 72), (100, 40), (31, 64), (1, 1), (500, 1)] {
        let image = sample(w, h, true);
        assert_eq!(bytes(&fit_to_key(&picture(&image))), *fit(&image, 72).as_raw(), "{w}x{h}");
    }
}

#[test]
fn transparent_pictures_are_trimmed_with_a_margin() {
    for (w, h) in [(64, 64), (120, 60), (33, 90)] {
        let image = sample(w, h, false);
        let p = picture(&image);
        let (x, y, cw, ch) = content_bbox(&p).unwrap();
        let content = imageops::crop_imm(&image, x, y, cw, ch).to_image();
        let tile = fit_to_key(&p);
        assert_eq!(bytes(&tile), *fit(&content, 56).as_raw(), "{w}x{h}");
        for i in 0..72u32 {
            for m in 0..8u32 {
                for (x, y) in [(i, m), (m, i), (i, 71 - m), (71 - m, i)] {
                    assert_eq!(tile.pixel(x, y), Rgb { r: 0, g: 0, b: 0 });
                }
            }
        }
    }
}

#[test]
fn pictures_without_content_leave_the_key_black() {
    let empty = Picture { width: 0, height: 5, bytes: Vec::new() };
    assert_eq!(bytes(&fit_to_key(&empty)), bytes(&blank_tile()));
    let clear = picture(&RgbaImage::new(8, 8));
    assert_eq!(bytes(&fit_to_key(&clear)), bytes(&blank_tile()));
}

#[test]
fn compositing_goes_over_black() {
    let p = Picture {
        width: 2,
        height: 1,
        bytes: vec![200, 100, 50, 128, 10, 20, 30, 255],
    };
    let t = center(&p);
    assert_eq!(t.pixel(35, 35), Rgb { r: 100, g: 50, b: 25 });
    assert_eq!(t.pixel(36, 35), Rgb { r: 10, g: 20, b: 30 });
    assert_eq!(t.pixel(37, 35), Rgb { r: 0, g: 0, b: 0 });
    assert_eq!(t.pixel(35, 36), Rgb { r: 0, g: 0, b: 0 });
}

#[test]
fn fitting_scales() {
    let p = Picture { width: 1, height: 1, bytes: vec![9, 8, 7, 255] };
    let t = fit_rgba(&p, 10);
    assert_eq!(t.pixel(31, 31), Rgb { r: 9, g: 8, b: 7 });
    assert_eq!(t.pixel(40, 40), Rgb { r: 9, g: 8, b: 7 });
    assert_eq!(t.pixel(30, 31), Rgb { r: 0, g: 0, b: 0 });
    assert_eq!(t.pixel(41, 40), Rgb { r: 0, g: 0, b: 0 });
}

#[test]
fn insets_scale_and_frame() {
    let image = RgbImage::from_fn(72, 72, |x, y| image::Rgb([x as u8, y as u8, (x * y % 256) as u8]));
    let tile = Tile {
        pixels: image.pixels().map(|p| Rgb { r: p[0], g: p[1], b: p[2] }).collect(),
    };
    let scaled = DynamicImage::ImageRgb8(image)
        .resize(60, 60, imageops::FilterType::Lanczos3)
        .to_rgb8();
    let mut canvas = RgbImage::from_pixel(72, 72, image::Rgb([0, 0, 0]));
    imageops::overlay(&mut canvas, &scaled, 6, 6);
    assert_eq!(bytes(&inset(&tile, 6)), *canvas.as_raw());
    let one = Picture { width: 1, height: 1, bytes: vec![1, 2, 3, 0] };
    assert_eq!(frame(&one, 4).pixel(4, 4), Rgb { r: 1, g: 2, b: 3 });
    assert_eq!(frame(&one, 4).pixel(5, 4), Rgb { r: 0, g: 0, b: 0 });
}

#[test]
fn alpha_is_made_straight() {
    let p = Picture {
        width: 2,
        height: 2,
        bytes: vec![9, 9, 9, 0, 64, 32, 0, 128, 255, 1, 2, 255, 200, 3, 1, 100],
    };
    let s = unpremultiply(&p);
    assert_eq!(s.bytes, vec![0, 0, 0, 0, 128, 64, 0, 128, 255, 1, 2, 255, 255, 8, 3, 100]);
}

#[test]
fn svg_by_extension() {
    assert!(is_svg("/x/a.svg"));
    assert!(is_svg("/x/a.SVGZ"));
    assert!(!is_svg("/x/a.png"));
    assert!(!is_svg("/x/svg"));
}

#[test]
fn icons_are_decoded_by_their_path() {
    let image = sample(40, 24, false);
    let mut encoded = std::io::Cursor::new(Vec::new());
    image.write_to(&mut encoded, ImageFormat::Png).unwrap();
    let encoded = encoded.into_inner();
    let named = |path: &str, bytes: Vec<u8>| IconData::Raster { path: path.to_string(), bytes };
    let tile = load_icon(&named("/icons/a.PNG", encoded.clone())).unwrap();
    assert_eq!(bytes(&tile), bytes(&fit_to_key(&picture(&image))));
    assert!(matches!(
        load_icon(&named("/icons/a.jpg", encoded.clone())),
        Err(IconError::Undecodable(_))
    ));
    assert!(matches!(load_icon(&named("/icons/a", encoded)), Err(IconError::Undecodable(_))));
    assert!(matches!(
        load_icon(&named("/icons/a.png", vec![1, 2, 3])),
        Err(IconError::Undecodable(_))
    ));
}

#[test]
fn rendered_svgs_are_fit_like_icons() {
    let mut premultiplied = RgbaImage::new(30, 30);
    premultiplied.put_pixel(10, 12, Rgba([64, 32, 0, 128]));
    premultiplied.put_pixel(19, 12, Rgba([64, 32, 0, 128]));
    let p = picture(&premultiplied);
    let straight = unpremultiply(&p);
    let tile = load_icon(&IconData::Svg(p)).unwrap();
    assert_eq!(bytes(&tile), bytes(&fit_to_key(&straight)));
    assert_eq!(bytes(&show_picture(&straight).unwrap()), bytes(&tile));
}

#[test]
fn plain_tiles_keep_their_color() {
    for c in [Rgb { r: 255, g: 0, b: 17 }, Rgb { r: 254, g: 128, b: 1 }] {
        let tile = Tile::from_pixel(c);
        for margin in [0, 1, 6, 35] {
            let out = inset(&tile, margin);
            for y in 0..72 {
                for x in 0..72 {
                    let inside = (margin..72 - margin).contains(&x)
                        && (margin..72 - margin).contains(&y);
                    let want = if inside { c } else { Rgb { r: 0, g: 0, b: 0 } };
                    assert_eq!(out.pixel(x, y), want);
                }
            }
        }
    }
}
