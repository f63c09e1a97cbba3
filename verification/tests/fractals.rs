use escape_time::fractal::{
    Fractal, Region, DIVERGENCE_BOUND, HUNDREDTHS_PER_UNIT, IMAGE_HEIGHT, IMAGE_WIDTH,
    JULIA_CONSTANT_IM, JULIA_CONSTANT_RE, JULIA_OUT_FILE_NAME, JULIA_X_MAX,
    MANDELBROT_OUT_FILE_NAME, MANDELBROT_X_MAX, X_MIN, Y_MAX, Y_MIN,
};

fn to_plane(hundredths: i32) -> f64 {
    f64::from(hundredths) / f64::from(HUNDREDTHS_PER_UNIT)
}

#[test]
fn mandelbrot_region_is_the_reference_rectangle() {
    let region = Fractal::Mandelbrot.region();
    assert_eq!(region, Region { x_min: -210, x_max: 60, y_min: -120, y_max: 120 });
    assert_eq!(to_plane(region.x_min), -2.1);
    assert_eq!(to_plane(region.x_max), 0.6);
    assert_eq!(to_plane(region.y_min), -1.2);
    assert_eq!(to_plane(region.y_max), 1.2);
}

#[test]
fn julia_region_is_the_reference_rectangle() {
    let region = Fractal::Julia.region();
    assert_eq!(region, Region { x_min: -210, x_max: 210, y_min: -120, y_max: 120 });
    assert_eq!(to_plane(region.x_min), -2.1);
    assert_eq!(to_plane(region.x_max), 2.1);
    assert_eq!(to_plane(region.y_min), -1.2);
    assert_eq!(to_plane(region.y_max), 1.2);
}

#[test]
fn regions_are_built_from_the_named_bounds() {
    assert_eq!(Fractal::Mandelbrot.region().x_min, X_MIN);
    assert_eq!(Fractal::Mandelbrot.region().x_max, MANDELBROT_X_MAX);
    assert_eq!(Fractal::Julia.region().x_max, JULIA_X_MAX);
    assert_eq!(Fractal::Julia.region().y_min, Y_MIN);
    assert_eq!(Fractal::Julia.region().y_max, Y_MAX);
}

#[test]
fn regions_have_an_interior() {
    for fractal in [Fractal::Mandelbrot, Fractal::Julia] {
        let region = fractal.region();
        assert!(region.x_min < region.x_max);
        assert!(region.y_min < region.y_max);
    }
}

#[test]
fn images_go_to_their_files() {
    assert_eq!(Fractal::Mandelbrot.out_file_name(), "./mandelbrot.png");
    assert_eq!(Fractal::Julia.out_file_name(), "./julia.png");
    assert_eq!(MANDELBROT_OUT_FILE_NAME, "./mandelbrot.png");
    assert_eq!(JULIA_OUT_FILE_NAME, "./julia.png");
}

#[test]
fn fixed_values_of_a_render() {
    assert_eq!(HUNDREDTHS_PER_UNIT, 100);
    assert_eq!(to_plane(DIVERGENCE_BOUND), 2.0);
    assert_eq!(to_plane(JULIA_CONSTANT_RE), -0.79);
    assert_eq!(to_plane(JULIA_CONSTANT_IM), 0.15);
    assert_eq!((IMAGE_WIDTH, IMAGE_HEIGHT), (800, 600));
}
