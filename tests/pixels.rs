use wavefield::pixels::{map_field_to_pixels, PixelValue};

#[test]
fn pixels_are_packed_rgba_in_cell_order() {
    let field = vec![0u8, 100, 255];
    let mut bytes = vec![0u8; 12];
    map_field_to_pixels(&field, &mut bytes, |v: &u8| PixelValue { r: *v, g: 1, b: 255 - *v, a: 9 });
    assert_eq!(bytes, vec![0, 1, 255, 9, 100, 1, 155, 9, 255, 1, 0, 9]);
}

#[test]
fn empty_field_writes_nothing() {
    let field: Vec<u8> = Vec::new();
    let mut bytes: Vec<u8> = Vec::new();
    map_field_to_pixels(&field, &mut bytes, |_v: &u8| PixelValue { r: 1, g: 1, b: 1, a: 1 });
    assert!(bytes.is_empty());
}
