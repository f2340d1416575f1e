use mandelbrot::color::color_of;
use mandelbrot::config::{ConfigError, RenderConfig, ITERATION_LIMIT};
use mandelbrot::escape::escape_time;
use mandelbrot::raster::{blank_canvas, fill_column, into_samples, render};

/// The escape trace of the orbit of `c`, as the renderer's caller builds it:
/// one entry per check, stopping after the first escape.
fn trace_of(re: f64, im: f64, limit: u8) -> Vec<bool> {
    let (mut zr, mut zi) = (0.0f64, 0.0f64);
    let mut trace = Vec::new();
    for _ in 0..limit {
        let escaped = zr * zr + zi * zi > 4.0;
        trace.push(escaped);
        if escaped {
            break;
        }
        let next_r = zr * zr - zi * zi + re;
        let next_i = zr * zi + zi * zr + im;
        zr = next_r;
        zi = next_i;
    }
    trace
}

fn point_of(i: u32, j: u32, width: u32, height: u32) -> (f64, f64) {
    (
        (i as f64 / width as f64) * 2.0 - 1.5,
        (j as f64 / height as f64) * 2.0 - 1.0,
    )
}

fn counts_of(config: &RenderConfig) -> Vec<u8> {
    let mut counts = Vec::new();
    for i in 0..config.width() {
        for j in 0..config.height() {
            let (re, im) = point_of(i, j, config.width(), config.height());
            counts.push(escape_time(&trace_of(re, im, ITERATION_LIMIT), ITERATION_LIMIT));
        }
    }
    counts
}

#[test]
fn config_rejects_zero_width() {
    assert_eq!(RenderConfig::new(0, 5), Err(ConfigError::ZeroWidth));
    assert_eq!(RenderConfig::new(0, 0), Err(ConfigError::ZeroWidth));
}

#[test]
fn config_rejects_zero_height() {
    assert_eq!(RenderConfig::new(5, 0), Err(ConfigError::ZeroHeight));
}

#[test]
fn config_rejects_unaddressable_size() {
    assert_eq!(RenderConfig::new(u32::MAX, u32::MAX), Err(ConfigError::TooLarge));
}

#[test]
fn config_accepts_positive_sizes() {
    let c = RenderConfig::new(512, 300).unwrap();
    assert_eq!(c.width(), 512);
    assert_eq!(c.height(), 300);
}

#[test]
fn palette_channel_law() {
    assert_eq!(color_of(0), [0, 0, 0]);
    assert_eq!(color_of(10), [40, 10, 10]);
    assert_eq!(color_of(49), [196, 49, 49]);
}

#[test]
fn palette_wraps_red_above_63() {
    assert_eq!(color_of(63), [252, 63, 63]);
    assert_eq!(color_of(64), [0, 64, 64]);
    assert_eq!(color_of(255), [252, 255, 255]);
}

#[test]
fn escape_of_origin_is_zero() {
    for limit in 1..=255u8 {
        assert_eq!(escape_time(&trace_of(0.0, 0.0, limit), limit), 0);
    }
    assert_eq!(escape_time(&vec![false; 50], 50), 0);
}

#[test]
fn escape_of_far_point_is_one() {
    assert_eq!(escape_time(&trace_of(3.0, 0.0, 50), 50), 1);
    assert_eq!(escape_time(&vec![false, true], 50), 1);
    assert_eq!(escape_time(&trace_of(0.0, -2.5, 50), 50), 1);
}

#[test]
fn escape_is_deterministic() {
    let t = trace_of(-0.75, 0.1, 50);
    let first = escape_time(&t, 50);
    for _ in 0..10 {
        assert_eq!(escape_time(&trace_of(-0.75, 0.1, 50), 50), first);
    }
}

#[test]
fn escape_takes_first_escaping_index() {
    assert_eq!(escape_time(&vec![false, false, false, true, true], 50), 3);
    assert_eq!(escape_time(&trace_of(-1.5, -1.0, 50), 50), 2);
    assert_eq!(escape_time(&trace_of(-0.5, -1.0, 50), 50), 4);
}

#[test]
fn escape_at_start_counts_as_zero() {
    assert_eq!(escape_time(&vec![true], 50), 0);
}

#[test]
fn escape_beyond_limit_counts_as_zero() {
    assert_eq!(escape_time(&vec![false, false, true], 2), 0);
    assert_eq!(escape_time(&vec![false, false, true], 3), 2);
}

#[test]
fn escape_with_zero_limit_is_zero() {
    assert_eq!(escape_time(&vec![false, true], 0), 0);
    assert_eq!(escape_time(&Vec::new(), 50), 0);
}

#[test]
fn render_writes_every_pixel() {
    let config = RenderConfig::new(3, 2).unwrap();
    // column by column: (0,0) (0,1) (1,0) (1,1) (2,0) (2,1)
    let counts = vec![1u8, 2, 3, 4, 5, 6];
    let samples = into_samples(render(&config, &counts));
    assert_eq!(
        samples,
        vec![4, 1, 1, 12, 3, 3, 20, 5, 5, 8, 2, 2, 16, 4, 4, 24, 6, 6]
    );
}

#[test]
fn render_two_by_two_golden() {
    let config = RenderConfig::new(2, 2).unwrap();
    let samples = into_samples(render(&config, &counts_of(&config)));
    assert_eq!(samples, vec![8, 2, 2, 16, 4, 4, 0, 0, 0, 0, 0, 0]);
}

#[test]
fn column_fill_matches_whole_render() {
    let config = RenderConfig::new(4, 3).unwrap();
    let counts = counts_of(&config);
    let mut canvas = blank_canvas(&config);
    for x in 0..4u32 {
        let first = x as usize * 3;
        fill_column(&mut canvas, x, &counts[first..first + 3]);
    }
    assert_eq!(into_samples(canvas), into_samples(render(&config, &counts)));
}

#[test]
fn blank_canvas_is_black() {
    let config = RenderConfig::new(2, 3).unwrap();
    assert_eq!(into_samples(blank_canvas(&config)), vec![0u8; 18]);
}

#[test]
fn raster_survives_lossless_encoding() {
    let config = RenderConfig::new(16, 9).unwrap();
    let samples = into_samples(render(&config, &counts_of(&config)));
    let img = image::RgbImage::from_raw(16, 9, samples.clone()).unwrap();
    let mut bytes = std::io::Cursor::new(Vec::new());
    img.write_to(&mut bytes, image::ImageFormat::Png).unwrap();
    let decoded = image::load_from_memory(bytes.get_ref()).unwrap().to_rgb8();
    assert_eq!(decoded.dimensions(), (16, 9));
    assert_eq!(decoded.into_raw(), samples);
}
