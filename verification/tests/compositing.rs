use compositor::{
    apply_mode, blend_pixel, blend_rgba, check_reconciled, compose_layers, default_opacity,
    ensure_dimensions, prepare_layers, BlendMode, CompositeError, LayerInput, LayerParams,
    ManufacturingError, Opacity, Rgba, OPACITY_ONE,
};

fn opacity(value: f32) -> Opacity {
    Opacity::from_f32_bits(value.to_bits())
}

fn half() -> Opacity {
    opacity(0.5)
}

fn input(data: Vec<u8>, width: u32, height: u32) -> LayerInput {
    LayerInput { data, width, height, opacity: None, blend_mode: None }
}

fn input_with(
    data: Vec<u8>,
    width: u32,
    height: u32,
    opacity: Option<f32>,
    blend_mode: Option<&str>,
) -> LayerInput {
    LayerInput {
        data,
        width,
        height,
        opacity: opacity.map(f32::to_bits),
        blend_mode: blend_mode.map(|s| s.to_string()),
    }
}

#[test]
fn blends_pixel_with_multiply_mode() {
    let mut base = vec![255, 128, 0, 255];
    let layer = vec![128, 255, 255, 255];
    blend_rgba(&mut base, &layer, opacity(1.0), BlendMode::Multiply);

    assert_eq!(base[0], 128);
    assert_eq!(base[1], 128);
    assert_eq!(base[3], 255);
}

#[test]
fn respects_partial_opacity() {
    let mut base = vec![0, 0, 0, 255];
    let layer = vec![255, 0, 0, 255];
    blend_rgba(&mut base, &layer, opacity(0.5), BlendMode::Over);

    assert!(base[0] > 0 && base[0] < 255);
    assert_eq!(base[3], 255);
}

#[test]
fn half_opacity_red_over_black_is_exact() {
    let mut base = vec![0, 0, 0, 255];
    let layer = vec![255, 0, 0, 255];
    blend_rgba(&mut base, &layer, half(), BlendMode::Over);
    assert_eq!(base, vec![128, 0, 0, 255]);
}

#[test]
fn multiply_with_white_is_identity() {
    let mut base = vec![255, 128, 0, 255];
    let layer = vec![255, 255, 255, 255];
    blend_rgba(&mut base, &layer, Opacity::full(), BlendMode::Multiply);
    assert_eq!(base, vec![255, 128, 0, 255]);
}

#[test]
fn multiply_example_gives_all_channels() {
    let mut base = vec![255, 128, 0, 255];
    let layer = vec![128, 255, 255, 255];
    blend_rgba(&mut base, &layer, Opacity::full(), BlendMode::Multiply);
    assert_eq!(base, vec![128, 128, 0, 255]);
}

#[test]
fn over_itself_at_full_opacity_is_idempotent() {
    let layer = vec![12, 200, 77, 255, 0, 255, 1, 255];
    let mut base = layer.clone();
    blend_rgba(&mut base, &layer, Opacity::full(), BlendMode::Over);
    assert_eq!(base, layer);
}

#[test]
fn opaque_over_replaces_any_base() {
    let mut base = vec![9, 8, 7, 40];
    let layer = vec![100, 150, 200, 255];
    blend_rgba(&mut base, &layer, Opacity::full(), BlendMode::Over);
    assert_eq!(base, layer);
}

#[test]
fn alpha_does_not_fall_as_opacity_rises() {
    let base = Rgba { r: 10, g: 20, b: 30, a: 100 };
    let layer = Rgba { r: 200, g: 100, b: 50, a: 180 };
    let mut last: u8 = 0;
    let steps: u32 = 64;
    for step in 0..=steps {
        let parts = (OPACITY_ONE / steps * step) as i64;
        let out = blend_pixel(base, layer, Opacity::from_parts(parts), BlendMode::Screen);
        assert!(out.a >= last);
        last = out.a;
    }
    assert_eq!(blend_pixel(base, layer, Opacity::from_parts(0), BlendMode::Screen).a, 100);
    // 180/255 + 100/255 * (1 - 180/255) = 0.82122, times 255 is 209.41
    assert_eq!(last, 209);
}

#[test]
fn zero_opacity_leaves_the_base() {
    let mut base = vec![1, 2, 3, 4, 250, 251, 252, 253];
    let layer = vec![255, 255, 255, 255, 0, 0, 0, 255];
    for mode in [BlendMode::Over, BlendMode::Multiply, BlendMode::Screen, BlendMode::Add] {
        blend_rgba(&mut base, &layer, Opacity::from_parts(0), mode);
        assert_eq!(base, vec![1, 2, 3, 4, 250, 251, 252, 253]);
    }
}

#[test]
fn transparent_layer_pixel_leaves_the_base() {
    let mut base = vec![1, 2, 3, 4];
    let layer = vec![255, 255, 255, 0];
    blend_rgba(&mut base, &layer, Opacity::full(), BlendMode::Add);
    assert_eq!(base, vec![1, 2, 3, 4]);
}

#[test]
fn layer_over_transparent_base_keeps_its_colour() {
    let base = Rgba { r: 0, g: 0, b: 0, a: 0 };
    let layer = Rgba { r: 255, g: 0, b: 0, a: 255 };
    let out = blend_pixel(base, layer, half(), BlendMode::Over);
    assert_eq!(out, Rgba { r: 255, g: 0, b: 0, a: 128 });
}

#[test]
fn screen_and_add_pixels() {
    let base = Rgba { r: 128, g: 200, b: 0, a: 255 };
    let layer = Rgba { r: 128, g: 100, b: 60, a: 255 };
    // screen: 1 - (127/255)*(127/255) = 0.75195, times 255 is 191.75
    let screen = blend_pixel(base, layer, Opacity::full(), BlendMode::Screen);
    assert_eq!(screen.r, 192);
    assert_eq!(screen.b, 60);
    assert_eq!(screen.a, 255);
    let add = blend_pixel(base, layer, Opacity::full(), BlendMode::Add);
    assert_eq!(add, Rgba { r: 255, g: 255, b: 60, a: 255 });
}

#[test]
fn apply_mode_formulas() {
    assert_eq!(apply_mode(10, 200, BlendMode::Over), 255 * 200);
    assert_eq!(apply_mode(128, 255, BlendMode::Multiply), 32640);
    assert_eq!(apply_mode(128, 128, BlendMode::Screen), 48896);
    assert_eq!(apply_mode(100, 50, BlendMode::Add), 38250);
    assert_eq!(apply_mode(200, 100, BlendMode::Add), 65025);
}

#[test]
fn blend_rgba_leaves_bytes_without_a_partner() {
    let mut base = vec![0, 0, 0, 255, 5, 6, 7, 8, 9];
    let layer = vec![255, 255, 255, 255];
    blend_rgba(&mut base, &layer, Opacity::full(), BlendMode::Over);
    assert_eq!(base, vec![255, 255, 255, 255, 5, 6, 7, 8, 9]);
}

#[test]
fn opacity_is_clamped() {
    assert_eq!(opacity(-1.0).get(), 0);
    assert_eq!(opacity(-0.0).get(), 0);
    assert_eq!(opacity(0.0).get(), 0);
    assert_eq!(opacity(f32::NAN).get(), 0);
    assert_eq!(opacity(f32::NEG_INFINITY).get(), 0);
    assert_eq!(opacity(1.0e-10).get(), 0);
    assert_eq!(opacity(f32::MIN_POSITIVE / 4.0).get(), 0);
    assert_eq!(opacity(0.1).get(), 1_677_722);
    assert_eq!(opacity(0.25).get(), OPACITY_ONE / 4);
    assert_eq!(opacity(0.5).get(), OPACITY_ONE / 2);
    assert_eq!(opacity(0.75).get(), 12_582_912);
    assert_eq!(opacity(1.0 - f32::EPSILON / 2.0).get(), OPACITY_ONE - 1);
    assert_eq!(opacity(1.0).get(), OPACITY_ONE);
    assert_eq!(opacity(2.0).get(), OPACITY_ONE);
    assert_eq!(opacity(f32::INFINITY).get(), OPACITY_ONE);
    // 2^-25 is half a part and rounds up; anything below it rounds to zero
    assert_eq!(opacity(f32::from_bits(0x3300_0000)).get(), 1);
    assert_eq!(opacity(f32::from_bits(0x32ff_ffff)).get(), 0);
    assert_eq!(Opacity::from_parts(-5).get(), 0);
    assert_eq!(Opacity::from_parts(i64::MAX).get(), OPACITY_ONE);
    assert_eq!(Opacity::from_parts(12345).get(), 12345);
    assert_eq!(Opacity::full().get(), OPACITY_ONE);
    assert_eq!(default_opacity().get(), OPACITY_ONE);
}

#[test]
fn blend_mode_names_ignore_case() {
    assert_eq!(BlendMode::from_str("PLUS"), BlendMode::Add);
    assert_eq!(BlendMode::from_str("pLuS"), BlendMode::Add);
    assert_eq!(BlendMode::from_str("plus"), BlendMode::from_str("add"));
    assert_eq!(BlendMode::from_str("Add"), BlendMode::Add);
    assert_eq!(BlendMode::from_str("multiply"), BlendMode::Multiply);
    assert_eq!(BlendMode::from_str("MULTIPLY"), BlendMode::Multiply);
    assert_eq!(BlendMode::from_str("Screen"), BlendMode::Screen);
}

#[test]
fn unknown_blend_mode_is_over() {
    assert_eq!(BlendMode::from_str("darken"), BlendMode::Over);
    assert_eq!(BlendMode::from_str(""), BlendMode::Over);
    assert_eq!(BlendMode::from_str("over"), BlendMode::Over);
    assert_eq!(BlendMode::from_str("adds"), BlendMode::Over);
    assert_eq!(BlendMode::from_str("mu\u{2113}tiply"), BlendMode::Over);
    assert_eq!(BlendMode::from_str("AD$"), BlendMode::Over);

    let named = input_with(vec![0, 0, 0, 255], 1, 1, None, Some("darken"));
    let unnamed = input_with(vec![0, 0, 0, 255], 1, 1, None, None);
    let layers = prepare_layers(vec![named, unnamed]).unwrap();
    assert_eq!(layers[0].blend_mode, BlendMode::Over);
    assert_eq!(layers[1].blend_mode, BlendMode::Over);
}

#[test]
fn prepare_layers_normalises() {
    let a = input_with(vec![1, 2, 3, 4], 1, 1, Some(-7.0), Some("Plus"));
    let b = input_with(vec![5, 6, 7, 8, 9, 10, 11, 12], 2, 1, Some(3.5), Some("screen"));
    let c = input_with(vec![], 0, 9, Some(0.25), None);
    let layers = prepare_layers(vec![a, b, c]).unwrap();
    assert_eq!(layers.len(), 3);
    assert_eq!(layers[0].pixels, vec![1, 2, 3, 4]);
    assert_eq!(layers[0].opacity.get(), 0);
    assert_eq!(layers[0].blend_mode, BlendMode::Add);
    assert_eq!((layers[1].width, layers[1].height), (2, 1));
    assert_eq!(layers[1].opacity.get(), OPACITY_ONE);
    assert_eq!(layers[1].blend_mode, BlendMode::Screen);
    assert_eq!(layers[2].opacity.get(), OPACITY_ONE / 4);
    assert_eq!(layers[2].blend_mode, BlendMode::Over);
}

#[test]
fn buffer_mismatch_names_the_layer() {
    let good = input(vec![0; 400], 10, 10);
    let bad = input(vec![0; 50], 10, 10);
    let also_bad = input(vec![0; 3], 1, 1);
    assert_eq!(
        compose_layers(vec![good, bad, also_bad]).err(),
        Some(CompositeError::BufferSizeMismatch(1))
    );
    let bad = input(vec![0; 50], 10, 10);
    assert_eq!(prepare_layers(vec![bad]).err(), Some(CompositeError::BufferSizeMismatch(0)));
}

#[test]
fn empty_stack_is_refused() {
    assert_eq!(compose_layers(Vec::new()).err(), Some(CompositeError::EmptyInput));
}

#[test]
fn single_layer_is_returned_as_it_is() {
    let image = compose_layers(vec![input(vec![1, 2, 3, 4, 5, 6, 7, 8], 1, 2)]).unwrap();
    assert_eq!(image.pixels, vec![1, 2, 3, 4, 5, 6, 7, 8]);
    assert_eq!((image.width, image.height), (1, 2));
}

#[test]
fn layers_are_applied_bottom_up() {
    let base = input(vec![0, 0, 0, 255], 1, 1);
    let red = input_with(vec![255, 0, 0, 255], 1, 1, Some(0.5), None);
    let white = input_with(vec![255, 255, 255, 255], 1, 1, None, Some("MULTIPLY"));
    let green = input_with(vec![0, 255, 0, 255], 1, 1, Some(0.0), None);
    let image = compose_layers(vec![base, red, white, green]).unwrap();
    assert_eq!(image.pixels, vec![128, 0, 0, 255]);

    let base = input(vec![0, 0, 0, 255], 1, 1);
    let red = input_with(vec![255, 0, 0, 255], 1, 1, Some(0.5), None);
    let blue = input(vec![0, 0, 255, 255], 1, 1);
    let one_way = compose_layers(vec![base, red, blue]).unwrap();
    assert_eq!(one_way.pixels, vec![0, 0, 255, 255]);
    let base = input(vec![0, 0, 0, 255], 1, 1);
    let red = input_with(vec![255, 0, 0, 255], 1, 1, Some(0.5), None);
    let blue = input(vec![0, 0, 255, 255], 1, 1);
    let other_way = compose_layers(vec![base, blue, red]).unwrap();
    assert_eq!(other_way.pixels, vec![128, 0, 128, 255]);
}

#[test]
fn result_has_the_size_of_the_canvas() {
    let base = input(vec![7; 3 * 2 * 4], 3, 2);
    let small = input_with(vec![200; 4], 1, 1, Some(0.3), Some("add"));
    let large = input_with(vec![90; 5 * 4 * 4], 5, 4, None, Some("screen"));
    let image = compose_layers(vec![base, small, large]).unwrap();
    assert_eq!((image.width, image.height), (3, 2));
    assert_eq!(image.pixels.len(), 3 * 2 * 4);
}

#[test]
fn smaller_layer_is_stretched_over_the_canvas() {
    let base = input(vec![0; 16], 2, 2);
    let dot = input(vec![10, 20, 30, 255], 1, 1);
    let image = compose_layers(vec![base, dot]).unwrap();
    assert_eq!(image.pixels, vec![10, 20, 30, 255, 10, 20, 30, 255, 10, 20, 30, 255, 10, 20, 30, 255]);
}

#[test]
fn ensure_dimensions_resamples_only_on_mismatch() {
    let layer = LayerParams {
        pixels: vec![1, 2, 3, 255, 4, 5, 6, 255],
        width: 2,
        height: 1,
        opacity: Opacity::full(),
        blend_mode: BlendMode::Over,
    };
    assert_eq!(ensure_dimensions(&layer, (2, 1)).unwrap(), vec![1, 2, 3, 255, 4, 5, 6, 255]);
    assert_eq!(
        ensure_dimensions(&layer, (4, 1)).unwrap(),
        vec![1, 2, 3, 255, 1, 2, 3, 255, 4, 5, 6, 255, 4, 5, 6, 255]
    );
    assert_eq!(ensure_dimensions(&layer, (1, 1)).unwrap().len(), 4);
}

#[test]
fn layer_without_pixels_cannot_be_reconciled() {
    let base = input(vec![0; 4], 1, 1);
    let empty = input(vec![], 0, 0);
    assert_eq!(compose_layers(vec![base, empty]).err(), Some(CompositeError::ReconciliationFailure));
}

#[test]
fn check_reconciled_wants_the_canvas_size() {
    assert_eq!(check_reconciled(vec![1, 2, 3, 4], (1, 1)), Ok(vec![1, 2, 3, 4]));
    assert_eq!(check_reconciled(vec![1, 2, 3, 4], (2, 1)), Err(CompositeError::ReconciliationFailure));
    assert_eq!(check_reconciled(vec![1, 2, 3], (1, 1)), Err(CompositeError::ReconciliationFailure));
    assert_eq!(check_reconciled(vec![], (0, 5)), Ok(vec![]));
}

#[test]
fn manufacturing_error_keeps_its_text() {
    let error = ManufacturingError::new("toolpath failed".to_string());
    assert_eq!(error.message(), "toolpath failed");
}

#[test]
fn canvas_beyond_one_allocation_cannot_be_reached() {
    let layer = LayerParams {
        pixels: vec![1, 2, 3, 255],
        width: 1,
        height: 1,
        opacity: Opacity::full(),
        blend_mode: BlendMode::Over,
    };
    assert_eq!(
        ensure_dimensions(&layer, (u32::MAX, u32::MAX)),
        Err(CompositeError::ReconciliationFailure)
    );
}

#[test]
fn empty_canvas_takes_any_layer() {
    let base = input(vec![], 0, 3);
    let dot = input(vec![10, 20, 30, 255], 1, 1);
    let image = compose_layers(vec![base, dot]).unwrap();
    assert_eq!(image.pixels, Vec::<u8>::new());
    assert_eq!((image.width, image.height), (0, 3));
}
