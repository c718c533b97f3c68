use binary_clock::clock::BinaryClock;
use binary_clock::column::Column;

fn column_weighted_sum(c: &Column) -> i32 {
    let weights = [8, 4, 2, 1];
    let mut sum = 0;
    for r in 0..4 {
        if c.rows[r] {
            sum += weights[r];
        }
    }
    sum
}

#[test]
fn new_column_is_all_clear() {
    let c = Column::new();
    assert_eq!(c.rows, [false, false, false, false]);
}

#[test]
fn digit_zero_clears_every_cell() {
    let mut c = Column::new();
    c.update(5);
    c.update(0);
    assert_eq!(c.rows, [false, false, false, false]);
}

#[test]
fn digit_nine_sets_weights_eight_and_one() {
    let mut c = Column::new();
    c.update(9);
    assert_eq!(c.rows, [true, false, false, true]);
}

#[test]
fn every_digit_round_trips_through_the_cells() {
    for d in 0..=9 {
        let mut c = Column::new();
        c.update(d);
        assert_eq!(column_weighted_sum(&c), d, "digit {d}");
    }
}

#[test]
fn set_time_encodes_each_digit() {
    let mut clock = BinaryClock::new();
    clock.set_time("123456");
    assert_eq!(clock.formatted, "123456");
    assert_eq!(clock.columns[0].rows, [false, false, false, true]);
    assert_eq!(clock.columns[1].rows, [false, false, true, false]);
    assert_eq!(clock.columns[2].rows, [false, false, true, true]);
    assert_eq!(clock.columns[3].rows, [false, true, false, false]);
    assert_eq!(clock.columns[4].rows, [false, true, false, true]);
    assert_eq!(clock.columns[5].rows, [false, true, true, false]);
}

#[test]
fn render_of_090507() {
    let mut clock = BinaryClock::new();
    clock.set_time("090507");
    let expected = "     HH  MM  SS\n\
                    08:  .x  ..  ..\n\
                    04:  ..  .x  .x\n\
                    02:  ..  ..  .x\n\
                    01:  .x  .x  .x\n";
    assert_eq!(clock.render(), expected);
}

#[test]
fn render_of_all_zeroes() {
    let mut clock = BinaryClock::new();
    clock.set_time("000000");
    let expected = "     HH  MM  SS\n\
                    08:  ..  ..  ..\n\
                    04:  ..  ..  ..\n\
                    02:  ..  ..  ..\n\
                    01:  ..  ..  ..\n";
    assert_eq!(clock.render(), expected);
}

#[test]
fn render_of_235959() {
    let mut clock = BinaryClock::new();
    clock.set_time("235959");
    let expected = "     HH  MM  SS\n\
                    08:  ..  .x  .x\n\
                    04:  ..  x.  x.\n\
                    02:  xx  ..  ..\n\
                    01:  .x  xx  xx\n";
    assert_eq!(clock.render(), expected);
}

#[test]
fn top_row_marks_digits_of_at_least_eight() {
    let mut clock = BinaryClock::new();
    clock.set_time("809181");
    let rendered = clock.render();
    let lines: Vec<&str> = rendered.lines().collect();
    assert_eq!(lines.len(), 5);
    let top_cells: Vec<char> = lines[1].chars().skip(5).filter(|c| *c != ' ').collect();
    assert_eq!(top_cells, vec!['x', '.', 'x', '.', 'x', '.']);
}

#[test]
fn drawing_twice_gives_identical_output() {
    let mut clock = BinaryClock::new();
    clock.set_time("235959");
    let first = clock.render();
    let second = clock.render();
    assert_eq!(first, second);
}

#[test]
fn frame_starts_with_the_screen_clear_sequence() {
    let mut clock = BinaryClock::new();
    clock.set_time("090507");
    let frame = clock.frame();
    assert!(frame.starts_with("\x1b[2J\n"));
    assert_eq!(&frame["\x1b[2J\n".len()..], clock.render());
}

#[test]
fn update_reads_a_six_digit_time() {
    let mut clock = BinaryClock::new();
    clock.update();
    assert_eq!(clock.formatted.len(), 6);
    assert!(clock.formatted.chars().all(|c| c.is_ascii_digit()));
    for (i, c) in clock.formatted.chars().enumerate() {
        let digit = c.to_digit(10).unwrap() as i32;
        assert_eq!(column_weighted_sum(&clock.columns[i]), digit);
    }
    assert_eq!(clock.render().len(), 80);
}

#[test]
fn new_clock_has_zeroed_columns() {
    let clock = BinaryClock::new();
    for col in clock.columns.iter() {
        assert_eq!(col.rows, [false, false, false, false]);
    }
    assert_eq!(clock.formatted.len(), 6);
}
