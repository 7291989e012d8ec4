use termdrawascii::codec::{Colour, Coordinate, DrawCommand};
use termdrawascii::emitter::{transmit, Action, Emitter, Pacing, Reaction};
use termdrawascii::preview::{preview, preview_row};
use termdrawascii::raster::{Raster, Rgba};
use termdrawascii::sampler::{summed_intensity, Sample, Sampler};
use termdrawascii::threshold::{mark, threshold, Decision};

fn uniform(width: u32, height: u32, px: [u8; 4]) -> Raster {
    let mut data = Vec::new();
    for _ in 0..(width as usize * height as usize) {
        data.extend_from_slice(&px);
    }
    Raster::from_raw(width, height, data).unwrap()
}

fn gradient(width: u32, height: u32) -> Raster {
    let mut data = Vec::new();
    for y in 0..height {
        for x in 0..width {
            data.extend_from_slice(&[x as u8, y as u8, (x + y) as u8, 255]);
        }
    }
    Raster::from_raw(width, height, data).unwrap()
}

fn white(x: u32, y: u32) -> DrawCommand {
    DrawCommand { at: Coordinate { x, y }, colour: Colour::White }
}

#[test]
fn raster_reads_pixels_in_row_major_order() {
    let img = gradient(5, 3);
    assert_eq!(img.width(), 5);
    assert_eq!(img.height(), 3);
    assert_eq!(img.pixel(0, 0), Rgba { red: 0, green: 0, blue: 0, alpha: 255 });
    assert_eq!(img.pixel(4, 2), Rgba { red: 4, green: 2, blue: 6, alpha: 255 });
    assert_eq!(img.pixel(1, 2), Rgba { red: 1, green: 2, blue: 3, alpha: 255 });
}

#[test]
fn raster_refuses_a_short_buffer() {
    assert!(Raster::from_raw(2, 2, vec![0; 15]).is_none());
    assert!(Raster::from_raw(2, 2, vec![0; 16]).is_some());
    assert!(Raster::from_raw(0, 7, Vec::new()).is_some());
}

#[test]
fn raster_ignores_samples_beyond_the_image() {
    let img = Raster::from_raw(1, 1, vec![1, 2, 3, 4, 9, 9, 9, 9]).unwrap();
    assert_eq!(img.width(), 1);
    assert_eq!(img.height(), 1);
    assert_eq!(img.pixel(0, 0), Rgba { red: 1, green: 2, blue: 3, alpha: 4 });
}

#[test]
fn intensity_sums_three_channels_and_ignores_alpha() {
    assert_eq!(summed_intensity(Rgba { red: 255, green: 255, blue: 255, alpha: 0 }), 765);
    assert_eq!(summed_intensity(Rgba { red: 1, green: 20, blue: 100, alpha: 255 }), 121);
    assert_eq!(summed_intensity(Rgba { red: 0, green: 0, blue: 0, alpha: 255 }), 0);
}

#[test]
fn threshold_draws_strictly_above_300() {
    assert_eq!(threshold(0), Decision::Skip);
    assert_eq!(threshold(299), Decision::Skip);
    assert_eq!(threshold(300), Decision::Skip);
    assert_eq!(threshold(301), Decision::Draw);
    assert_eq!(threshold(765), Decision::Draw);
}

#[test]
fn threshold_agrees_with_the_cutoff_on_the_whole_range() {
    for v in 0..=765u16 {
        assert_eq!(threshold(v) == Decision::Draw, v > 300);
    }
}

#[test]
fn marks_are_zero_and_space() {
    assert_eq!(mark(Decision::Draw), '0');
    assert_eq!(mark(Decision::Skip), ' ');
}

#[test]
fn sampler_refuses_a_zero_stride() {
    assert!(Sampler::new(0, 1).is_none());
    assert!(Sampler::new(1, 0).is_none());
    assert!(Sampler::new(1, 1).is_some());
}

#[test]
fn sampler_of_scale_has_rows_twice_as_far_apart() {
    let s = Sampler::from_scale(3).unwrap();
    assert_eq!(s.stride_x(), 3);
    assert_eq!(s.stride_y(), 6);
    let big = Sampler::from_scale(usize::MAX).unwrap();
    assert_eq!(big.stride_x(), usize::MAX as u128);
    assert_eq!(big.stride_y(), 2 * (usize::MAX as u128));
}

#[test]
fn scale_beyond_the_image_samples_one_row_and_one_column() {
    let img = gradient(9, 9);
    for scale in [9usize, 4294967296, usize::MAX / 2, usize::MAX] {
        let s = Sampler::from_scale(scale).unwrap();
        assert_eq!(s.columns(&img), 1);
        assert_eq!(s.rows(&img), 1);
        assert_eq!(s.grid(&img), vec![vec![Sample { x: 0, y: 0, value: 0 }]]);
    }
    let bright = uniform(3, 3, [255, 255, 255, 255]);
    let s = Sampler::from_scale(usize::MAX).unwrap();
    assert_eq!(transmit(&s, &bright, Pacing::standard()), vec![Action::Send(white(0, 0))]);
}

#[test]
fn sampler_of_scale_zero_is_a_configuration_error() {
    let err = Sampler::from_scale(0).unwrap_err();
    assert_eq!(err, termdrawascii::error::Failure::InvalidScale("0".to_string()));
    assert_eq!(err.kind(), termdrawascii::error::ErrorKind::Configuration);
}

#[test]
fn grid_dimensions_round_up() {
    let img = gradient(10, 7);
    let s = Sampler::new(3, 2).unwrap();
    assert_eq!(s.columns(&img), 4);
    assert_eq!(s.rows(&img), 4);
    let exact = Sampler::new(5, 7).unwrap();
    assert_eq!(exact.columns(&img), 2);
    assert_eq!(exact.rows(&img), 1);
}

#[test]
fn grid_is_dense_whatever_the_strides() {
    let img = gradient(10, 7);
    for sx in 1..=12u128 {
        for sy in 1..=9u128 {
            let s = Sampler::new(sx, sy).unwrap();
            let grid = s.grid(&img);
            assert_eq!(grid.len() as u128, (7 + sy - 1) / sy);
            for (r, row) in grid.iter().enumerate() {
                assert_eq!(row.len() as u128, (10 + sx - 1) / sx);
                for (c, sample) in row.iter().enumerate() {
                    assert_eq!(sample.x as usize, c);
                    assert_eq!(sample.y as usize, r);
                    let px = img.pixel((c as u128 * sx) as u32, (r as u128 * sy) as u32);
                    assert_eq!(sample.value, summed_intensity(px));
                }
            }
        }
    }
}

#[test]
fn image_smaller_than_one_stride_gives_one_sample() {
    let img = gradient(3, 2);
    let s = Sampler::new(100, 100).unwrap();
    let grid = s.grid(&img);
    assert_eq!(grid.len(), 1);
    assert_eq!(grid[0], vec![Sample { x: 0, y: 0, value: 0 }]);
}

#[test]
fn empty_image_gives_no_rows() {
    let img = Raster::from_raw(4, 0, Vec::new()).unwrap();
    let s = Sampler::from_scale(1).unwrap();
    assert_eq!(s.rows(&img), 0);
    assert!(s.grid(&img).is_empty());
    assert!(transmit(&s, &img, Pacing::standard()).is_empty());
}

#[test]
fn sample_takes_the_pixel_at_the_stride() {
    let img = gradient(10, 7);
    let s = Sampler::new(3, 2).unwrap();
    assert_eq!(s.sample(&img, 2, 3), Sample { x: 2, y: 3, value: 6 + 6 + 12 });
    assert_eq!(s.row(&img, 1).len(), 4);
    assert_eq!(s.row(&img, 1)[3], Sample { x: 3, y: 1, value: 9 + 2 + 11 });
}

#[test]
fn white_four_by_four_sends_eight_commands() {
    let img = uniform(4, 4, [255, 255, 255, 255]);
    let s = Sampler::from_scale(1).unwrap();
    let grid = s.grid(&img);
    assert_eq!(grid.len(), 2);
    for row in &grid {
        assert_eq!(row.len(), 4);
        for sample in row {
            assert_eq!(sample.value, 765);
            assert_eq!(threshold(sample.value), Decision::Draw);
        }
    }
    let actions = transmit(&s, &img, Pacing::standard());
    let expected: Vec<Action> = vec![
        Action::Send(white(0, 0)),
        Action::Send(white(1, 0)),
        Action::Send(white(2, 0)),
        Action::Send(white(3, 0)),
        Action::Send(white(0, 1)),
        Action::Send(white(1, 1)),
        Action::Send(white(2, 1)),
        Action::Send(white(3, 1)),
    ];
    assert_eq!(actions, expected);
}

#[test]
fn dark_image_sends_nothing() {
    let img = uniform(6, 6, [100, 100, 100, 255]);
    let s = Sampler::from_scale(1).unwrap();
    assert!(transmit(&s, &img, Pacing::standard()).is_empty());
    assert_eq!(preview(&s, &img), "      \n      \n      \n");
}

#[test]
fn one_command_per_drawn_sample() {
    let mut data = Vec::new();
    for i in 0..(9 * 8) {
        let v = if i % 3 == 0 { 101 } else { 100 };
        data.extend_from_slice(&[v, 100, 100, 255]);
    }
    let img = Raster::from_raw(9, 8, data).unwrap();
    let s = Sampler::new(2, 3).unwrap();
    let drawn: Vec<DrawCommand> = s
        .grid(&img)
        .iter()
        .flatten()
        .filter(|sample| threshold(sample.value) == Decision::Draw)
        .map(|sample| white(sample.x, sample.y))
        .collect();
    let sent: Vec<DrawCommand> = transmit(&s, &img, Pacing::new(4, 1).unwrap())
        .iter()
        .filter_map(|a| match a {
            Action::Send(cmd) => Some(*cmd),
            Action::Pause(_) => None,
        })
        .collect();
    assert!(!drawn.is_empty());
    assert_eq!(sent, drawn);
}

#[test]
fn pause_follows_every_fiftieth_command_and_no_other() {
    let img = uniform(120, 1, [255, 255, 255, 255]);
    let s = Sampler::new(1, 1).unwrap();
    let actions = transmit(&s, &img, Pacing::standard());
    assert_eq!(actions.len(), 122);
    let mut sent = 0;
    for (i, action) in actions.iter().enumerate() {
        match action {
            Action::Send(cmd) => {
                assert_eq!(*cmd, white(sent, 0));
                sent += 1;
                let pause_next = matches!(actions.get(i + 1), Some(Action::Pause(_)));
                assert_eq!(pause_next, sent % 50 == 0);
            }
            Action::Pause(millis) => {
                assert_eq!(*millis, 100);
                assert!(sent > 0 && sent % 50 == 0);
                assert!(matches!(actions[i - 1], Action::Send(_)));
            }
        }
    }
    assert_eq!(sent, 120);
    assert_eq!(actions[50], Action::Pause(100));
    assert_eq!(actions[101], Action::Pause(100));
}

#[test]
fn forty_nine_commands_incur_no_pause_and_the_fiftieth_does() {
    let s = Sampler::new(1, 1).unwrap();
    let short = transmit(&s, &uniform(49, 1, [255, 255, 255, 255]), Pacing::standard());
    assert_eq!(short.len(), 49);
    assert!(short.iter().all(|a| matches!(a, Action::Send(_))));
    let full = transmit(&s, &uniform(50, 1, [255, 255, 255, 255]), Pacing::standard());
    assert_eq!(full.len(), 51);
    assert_eq!(full[50], Action::Pause(100));
    assert!(full[..50].iter().all(|a| matches!(a, Action::Send(_))));
}

#[test]
fn pacing_counts_across_rows() {
    let img = uniform(3, 4, [255, 255, 255, 255]);
    let s = Sampler::new(1, 1).unwrap();
    let actions = transmit(&s, &img, Pacing::new(5, 7).unwrap());
    assert_eq!(actions.len(), 14);
    assert_eq!(actions[5], Action::Pause(7));
    assert_eq!(actions[11], Action::Pause(7));
    assert_eq!(actions[4], Action::Send(white(1, 1)));
    assert_eq!(actions[6], Action::Send(white(2, 1)));
}

#[test]
fn pacing_refuses_an_empty_batch() {
    assert!(Pacing::new(0, 100).is_none());
    let p = Pacing::new(1, 0).unwrap();
    assert_eq!(p.batch(), 1);
    assert_eq!(p.pause_millis(), 0);
    assert_eq!(Pacing::standard().batch(), 50);
    assert_eq!(Pacing::standard().pause_millis(), 100);
}

#[test]
fn emitter_counts_drawn_samples_only() {
    let mut e = Emitter::new(Pacing::new(2, 9).unwrap());
    assert_eq!(e.sent(), 0);
    assert_eq!(e.observe(Sample { x: 0, y: 0, value: 300 }), Reaction::Skip);
    assert_eq!(e.sent(), 0);
    assert_eq!(e.observe(Sample { x: 1, y: 0, value: 301 }), Reaction::Send(white(1, 0)));
    assert_eq!(e.sent(), 1);
    assert_eq!(
        e.observe(Sample { x: 2, y: 0, value: 765 }),
        Reaction::SendThenPause(white(2, 0), 9)
    );
    assert_eq!(e.sent(), 2);
    assert_eq!(e.observe(Sample { x: 3, y: 0, value: 0 }), Reaction::Skip);
    assert_eq!(e.observe(Sample { x: 4, y: 0, value: 400 }), Reaction::Send(white(4, 0)));
    assert_eq!(e.sent(), 3);
    assert_eq!(e.pacing(), Pacing::new(2, 9).unwrap());
}

#[test]
fn emitter_rows_carry_the_count_over() {
    let mut e = Emitter::new(Pacing::new(3, 5).unwrap());
    let row = vec![
        Sample { x: 0, y: 0, value: 500 },
        Sample { x: 1, y: 0, value: 10 },
        Sample { x: 2, y: 0, value: 500 },
    ];
    assert_eq!(e.emit_row(&row), vec![Action::Send(white(0, 0)), Action::Send(white(2, 0))]);
    let next = vec![Sample { x: 0, y: 1, value: 301 }, Sample { x: 1, y: 1, value: 302 }];
    assert_eq!(
        e.emit_row(&next),
        vec![Action::Send(white(0, 1)), Action::Pause(5), Action::Send(white(1, 1))]
    );
    assert_eq!(e.sent(), 4);
}

#[test]
fn preview_shows_one_character_per_sample() {
    let row = vec![
        Sample { x: 0, y: 0, value: 301 },
        Sample { x: 1, y: 0, value: 300 },
        Sample { x: 2, y: 0, value: 765 },
    ];
    assert_eq!(preview_row(&row), "0 0\n");
    assert_eq!(preview_row(&Vec::new()), "\n");
    let img = uniform(4, 4, [255, 255, 255, 255]);
    assert_eq!(preview(&Sampler::from_scale(1).unwrap(), &img), "0000\n0000\n");
}
