use two_dim_array::TwoDimensionalArray;

#[test]
fn cell_sits_at_row_times_columns_plus_column() {
    let mut buffer: Vec<usize> = (0..12).collect();
    let view = TwoDimensionalArray::new(&mut buffer, 3, 4).unwrap();
    for row in 0..3 {
        for col in 0..4 {
            assert_eq!(view.get(row, col), Some(&(row * 4 + col)));
        }
    }
    assert_eq!(view.get(2, 1), Some(&9));
}

#[test]
fn the_three_ways_of_reading_agree_inside_the_shape() {
    let mut buffer: Vec<u32> = (100..120).collect();
    let view = TwoDimensionalArray::new(&mut buffer, 4, 5).unwrap();
    for row in 0..4 {
        for col in 0..5 {
            let found = view.get(row, col).unwrap();
            let indexed = view.get_panic(row, col);
            let unchecked = view.get_unchecked(row, col);
            assert_eq!(found, indexed);
            assert_eq!(indexed, unchecked);
            assert!(std::ptr::eq(found, indexed));
            assert!(std::ptr::eq(indexed, unchecked));
        }
        for start in 0..=5 {
            for end in start..=5 {
                let found = view.get(row, start..end).unwrap();
                let indexed = view.get_panic(row, start..end);
                let unchecked = view.get_unchecked(row, start..end);
                assert_eq!(found, indexed);
                assert_eq!(indexed, unchecked);
                assert_eq!(found.len(), end - start);
                assert_eq!(found.as_ptr(), indexed.as_ptr());
                assert_eq!(indexed.as_ptr(), unchecked.as_ptr());
                assert_eq!(found, &view.as_slice()[row * 5 + start..row * 5 + end]);
            }
        }
    }
}

#[test]
fn get_finds_nothing_outside_the_shape() {
    let mut buffer: Vec<u32> = (0..6).collect();
    let view = TwoDimensionalArray::new(&mut buffer, 2, 3).unwrap();
    assert_eq!(view.get(2, 0), None);
    assert_eq!(view.get(0, 3), None);
    assert_eq!(view.get(2, 3), None);
    assert_eq!(view.get(usize::MAX, 0), None);
    assert_eq!(view.get(0, usize::MAX), None);
    assert_eq!(view.get(2, 0..1), None);
    assert_eq!(view.get(2, 0..0), None);
    assert_eq!(view.get(0, 0..4), None);
    assert_eq!(view.get(0, 3..4), None);
    assert_eq!(view.get(0, 4..4), None);
    assert_eq!(view.get(1, 2..1), None);
    assert_eq!(view.get(1, usize::MAX..usize::MAX), None);
}

#[test]
fn get_never_reaches_into_the_next_row() {
    let mut buffer: Vec<u32> = (0..6).collect();
    let view = TwoDimensionalArray::new(&mut buffer, 2, 3).unwrap();
    // Offset 3 exists in the buffer, but as cell (1, 0) and not as (0, 3).
    assert_eq!(view.get(0, 3), None);
    assert_eq!(view.get(0, 2..4), None);
    assert_eq!(view.get(0, 0..6), None);
    assert_eq!(view.get(1, 0), Some(&3));
}

#[test]
fn get_with_a_huge_row_index_does_not_wrap_around() {
    let mut buffer: Vec<u32> = (0..8).collect();
    let view = TwoDimensionalArray::new(&mut buffer, 2, 4).unwrap();
    // In machine arithmetic this row times four columns wraps around to zero.
    let wrapping_row = usize::MAX / 4 + 1;
    assert_eq!(view.get(wrapping_row, 0), None);
    assert_eq!(view.get(wrapping_row, 0..4), None);
}

#[test]
fn get_mut_finds_nothing_outside_the_shape_and_writes_nothing() {
    let mut buffer: Vec<u32> = (0..6).collect();
    {
        let mut view = TwoDimensionalArray::new(&mut buffer, 2, 3).unwrap();
        assert!(view.get_mut(2, 0).is_none());
        assert!(view.get_mut(0, 3).is_none());
        assert!(view.get_mut(usize::MAX, 0).is_none());
        assert!(view.get_mut(0, 0..4).is_none());
        assert!(view.get_mut(1, 2..1).is_none());
        assert!(view.get_mut(2, 0..0).is_none());
        assert_eq!(view.shape(), (2, 3));
    }
    assert_eq!(buffer, vec![0, 1, 2, 3, 4, 5]);
}

#[test]
fn an_empty_range_inside_a_row_is_the_empty_slice() {
    let mut buffer: Vec<u32> = (0..6).collect();
    let mut view = TwoDimensionalArray::new(&mut buffer, 2, 3).unwrap();
    for col in 0..=3 {
        assert_eq!(view.get(1, col..col), Some(&[][..]));
        assert_eq!(view.get_panic(1, col..col), &[]);
        assert_eq!(view.get_mut(0, col..col).map(|cells| cells.len()), Some(0));
    }
}

#[test]
fn a_shape_without_columns_has_rows_without_cells() {
    let mut buffer: [u8; 0] = [];
    let mut view = TwoDimensionalArray::new(&mut buffer, 3, 0).unwrap();
    assert_eq!(view.get(0, 0..0), Some(&[][..]));
    assert_eq!(view.get(2, 0..0), Some(&[][..]));
    assert_eq!(view.get(3, 0..0), None);
    assert_eq!(view.get(0, 0), None);
    assert_eq!(view.get(0, 0..1), None);
    assert!(view.get_mut(2, 0..0).is_some());
    assert!(view.get_mut(3, 0..0).is_none());
}

#[test]
fn a_shape_without_rows_has_no_cell_to_find() {
    let mut buffer: [u8; 0] = [];
    let view = TwoDimensionalArray::new(&mut buffer, 0, 4).unwrap();
    assert_eq!(view.get(0, 0), None);
    assert_eq!(view.get(0, 0..0), None);
    assert_eq!(view.get(0, 0..4), None);
}

#[test]
fn writing_a_cell_changes_that_cell_only() {
    for row in 0..3 {
        for col in 0..4 {
            let mut buffer: Vec<usize> = (0..12).collect();
            {
                let mut view = TwoDimensionalArray::new(&mut buffer, 3, 4).unwrap();
                *view.get_mut(row, col).unwrap() = 1000;
                assert_eq!(view.get(row, col), Some(&1000));
                assert_eq!(view.as_slice()[row * 4 + col], 1000);
            }
            let mut expected: Vec<usize> = (0..12).collect();
            expected[row * 4 + col] = 1000;
            assert_eq!(buffer, expected);
        }
    }
}

#[test]
fn writing_a_range_changes_those_cells_only() {
    let mut buffer: Vec<u32> = (0..12).collect();
    {
        let mut view = TwoDimensionalArray::new(&mut buffer, 3, 4).unwrap();
        let cells = view.get_mut(1, 1..3).unwrap();
        assert_eq!(cells, &[5, 6]);
        cells[0] = 50;
        cells[1] = 60;
        assert_eq!(view.as_slice(), &[0, 1, 2, 3, 4, 50, 60, 7, 8, 9, 10, 11]);
        let cells = view.get_mut_panic(2, 0..4);
        cells.reverse();
        assert_eq!(view.get(2, 0..4), Some(&[11, 10, 9, 8][..]));
        let cells = view.get_unchecked_mut(0, 3..4);
        cells[0] = 30;
    }
    assert_eq!(buffer, vec![0, 1, 2, 30, 4, 50, 60, 7, 11, 10, 9, 8]);
}

#[test]
fn the_three_ways_of_writing_reach_the_same_cell() {
    let mut buffer = [0u8; 6];
    {
        let mut view = TwoDimensionalArray::new(&mut buffer, 3, 2).unwrap();
        *view.get_mut(1, 1).unwrap() = 1;
        assert_eq!(view.as_slice(), &[0, 0, 0, 1, 0, 0]);
        *view.get_mut_panic(1, 1) += 1;
        assert_eq!(view.as_slice(), &[0, 0, 0, 2, 0, 0]);
        *view.get_unchecked_mut(1, 1) += 1;
        assert_eq!(view.as_slice(), &[0, 0, 0, 3, 0, 0]);
        assert_eq!(view.get(1, 1), Some(&3));
    }
    assert_eq!(buffer, [0, 0, 0, 3, 0, 0]);
}

#[test]
fn writing_the_flat_slice_shows_in_the_cells() {
    let mut buffer: Vec<u32> = (0..6).collect();
    let mut view = TwoDimensionalArray::new(&mut buffer, 2, 3).unwrap();
    view.as_mut_slice()[4] = 40;
    assert_eq!(view.get(1, 1), Some(&40));
    assert_eq!(view.get_panic(1, 0..3), &[3, 40, 5]);
    view.as_mut_slice().copy_from_slice(&[9, 8, 7, 6, 5, 4]);
    assert_eq!(view.get(0, 0..3), Some(&[9, 8, 7][..]));
    assert_eq!(view.get(1, 0..3), Some(&[6, 5, 4][..]));
    assert_eq!(view.shape(), (2, 3));
    assert_eq!(view.len(), 6);
}

#[test]
fn cells_need_not_be_copyable() {
    let mut buffer: Vec<String> =
        vec!["a".to_string(), "b".to_string(), "c".to_string(), "d".to_string()];
    {
        let mut view = TwoDimensionalArray::new(&mut buffer, 2, 2).unwrap();
        assert_eq!(view.get(1, 0).map(|cell| cell.as_str()), Some("c"));
        view.get_mut(1, 0).unwrap().push('!');
        assert_eq!(view.get(1, 0..2).unwrap(), &["c!".to_string(), "d".to_string()]);
    }
    assert_eq!(buffer[2], "c!");
}

#[test]
fn one_row_and_one_column_views() {
    let mut buffer = [7, 8, 9];
    let mut view = TwoDimensionalArray::new(&mut buffer, 1, 3).unwrap();
    assert_eq!(view.get(0, 0..3), Some(&[7, 8, 9][..]));
    assert_eq!(view.get(1, 0), None);
    assert_eq!(view.reshape(3, 1), Ok(()));
    assert_eq!(view.get(2, 0), Some(&9));
    assert_eq!(view.get(2, 0..1), Some(&[9][..]));
    assert_eq!(view.get(0, 1), None);
}
