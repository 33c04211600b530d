use lucie::glyph::{DevicePixels, DeviceSize, GlyphKey, RasterizedGlyph, SubpixelVariant};

fn glyph(data: Vec<u8>, mono: bool) -> RasterizedGlyph<(i32, i32)> {
    RasterizedGlyph {
        size: DeviceSize { width: DevicePixels(2), height: DevicePixels(1) },
        data,
        is_monochromatic: mono,
        offset: (3, -4),
    }
}

#[test]
fn alpha_glyph_becomes_black_rgba() {
    let g = glyph(vec![10, 255], true).to_polychromatic();
    assert_eq!(g.data, vec![0, 0, 0, 10, 0, 0, 0, 255]);
    assert!(!g.is_monochromatic);
    assert_eq!(g.offset, (3, -4));
    assert_eq!(g.size, DeviceSize { width: DevicePixels(2), height: DevicePixels(1) });
}

#[test]
fn rgba_glyph_is_copied() {
    let g = glyph(vec![1, 2, 3, 4, 5, 6, 7, 8], false).to_polychromatic();
    assert_eq!(g.data, vec![1, 2, 3, 4, 5, 6, 7, 8]);
    assert!(!g.is_monochromatic);
    let again = g.to_polychromatic();
    assert_eq!(again.data, g.data);
}

#[test]
fn empty_alpha_glyph() {
    let g = glyph(vec![], true).to_polychromatic();
    assert!(g.data.is_empty());
}

#[test]
fn glyph_identity_types() {
    assert_eq!(SubpixelVariant::default(), SubpixelVariant::Zero);
    assert_eq!(GlyphKey(5), GlyphKey(5));
    assert_ne!(GlyphKey(5), GlyphKey(6));
}

#[test]
fn alpha_channel_of_widened_glyph_is_original_alpha() {
    let alpha = vec![0, 7, 128, 255];
    let wide = glyph(alpha.clone(), true).to_polychromatic();
    assert_eq!(lucie::glyph::alpha_channel(&wide.data), alpha);
    assert_eq!(lucie::glyph::alpha_channel(&[9, 8, 7, 6, 5, 4, 3, 2]), vec![6, 2]);
    assert_eq!(lucie::glyph::alpha_channel(&[]), Vec::<u8>::new());
}
