use world::spectrogram_like::SpectrogramLike;

#[test]
fn test_spectrogram_like() {
    let mut spec = SpectrogramLike::<u32>::new(10, 5);
    assert_eq!(spec.time_axis_size(), 10);
    assert_eq!(spec.frequency_axis_size(), 5);
    spec.lines_mut()
        .into_iter()
        .enumerate()
        .for_each(|(i, line)| line.iter_mut().enumerate().for_each(|(j, item)| *item = (i * 5 + j) as u32));
    for (i, line) in spec.lines().into_iter().enumerate() {
        for (j, item) in line.iter().enumerate() {
            assert_eq!(*item, (i * 5 + j) as u32);
        }
    }
    let (table, cells) = spec.as_mut_ptr();
    for i in 0..10 {
        for j in 0..5 {
            assert_eq!(cells[table[i] + j], (i * 5 + j) as u32);
        }
    }
}

#[test]
fn new_matrix_is_zeroed_with_given_shape() {
    let spec = SpectrogramLike::<f64>::new(3, 7);
    assert_eq!(spec.time_axis_size(), 3);
    assert_eq!(spec.frequency_axis_size(), 7);
    let lines = spec.lines();
    assert_eq!(lines.len(), 3);
    for line in lines {
        assert_eq!(line.len(), 7);
        assert!(line.iter().all(|x| *x == 0.0));
    }
    let one = SpectrogramLike::<i64>::new(1, 1);
    assert_eq!(one.line(0), Some(&[0i64][..]));
}

#[test]
fn out_of_range_rows_are_none() {
    let mut spec = SpectrogramLike::<u8>::new(2, 3);
    assert!(spec.line(2).is_none());
    assert!(spec.line(usize::MAX).is_none());
    assert!(spec.line_mut(2).is_none());
    assert!(spec.line(1).is_some());
}

#[test]
fn write_then_read_one_cell() {
    let mut spec = SpectrogramLike::<i32>::new(4, 6);
    spec.line_mut(2).unwrap()[5] = -9;
    assert_eq!(spec.line(2).unwrap()[5], -9);
    assert_eq!(spec.line(2).unwrap()[4], 0);
    assert_eq!(spec.line(3).unwrap()[0], 0);
    let table = spec.as_ptr();
    assert_eq!(table, &[0, 6, 12, 18][..]);
    let (table, cells) = spec.as_mut_ptr();
    assert_eq!(cells[table[2] + 5], -9);
    cells[table[1]] = 4;
    assert_eq!(spec.line(1).unwrap()[0], 4);
}

#[test]
fn row_major_round_trip() {
    let cells: Vec<u16> = (0..12).collect();
    let spec = SpectrogramLike::from_row_major(3, cells.clone()).unwrap();
    assert_eq!(spec.time_axis_size(), 3);
    assert_eq!(spec.frequency_axis_size(), 4);
    assert_eq!(spec.line(1), Some(&[4u16, 5, 6, 7][..]));
    assert_eq!(spec.into_row_major(), (3, 4, cells));
}

#[test]
fn row_major_refuses_bad_shapes() {
    assert!(SpectrogramLike::from_row_major(0, vec![1u8, 2]).is_none());
    assert!(SpectrogramLike::<u8>::from_row_major(2, Vec::new()).is_none());
    assert!(SpectrogramLike::from_row_major(3, vec![1u8, 2, 3, 4]).is_none());
    assert!(SpectrogramLike::from_row_major(4, vec![1u8, 2]).is_none());
    assert!(SpectrogramLike::from_row_major(1, vec![7u8]).is_some());
}

#[test]
fn lines_mut_writes_reach_the_matrix() {
    let mut spec = SpectrogramLike::<i8>::new(3, 2);
    let mut rows = spec.lines_mut();
    assert_eq!(rows.len(), 3);
    rows[2][1] = 5;
    rows[0][0] = -1;
    assert_eq!(spec.into_row_major(), (3, 2, vec![-1, 0, 0, 0, 0, 5]));
}
