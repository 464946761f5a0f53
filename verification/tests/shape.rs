use two_dim_array::{ShapeError, TwoDimensionalArray};

fn refused<T>(made: Result<TwoDimensionalArray<'_, T>, ShapeError>) -> ShapeError {
    match made {
        Ok(_) => panic!("the shape was accepted"),
        Err(error) => error,
    }
}

#[test]
fn every_factoring_of_the_length_is_accepted() {
    for len in 0usize..=24 {
        for num_rows in 0usize..=25 {
            for num_cols in 0usize..=25 {
                let mut buffer: Vec<u8> = vec![0; len];
                let made = TwoDimensionalArray::new(&mut buffer, num_rows, num_cols);
                if num_rows * num_cols == len {
                    let view = made.unwrap();
                    assert_eq!(view.shape(), (num_rows, num_cols));
                    assert_eq!(view.num_rows(), num_rows);
                    assert_eq!(view.num_cols(), num_cols);
                    assert_eq!(view.len(), len);
                    assert_eq!(view.is_empty(), len == 0);
                } else {
                    assert_eq!(
                        refused(made),
                        ShapeError::InvalidShape { buffer_len: len, num_rows, num_cols }
                    );
                }
            }
        }
    }
}

#[test]
fn new_refuses_a_shape_with_too_few_cells() {
    let mut buffer = [0u8; 6];
    let error = refused(TwoDimensionalArray::new(&mut buffer, 2, 2));
    assert_eq!(error, ShapeError::InvalidShape { buffer_len: 6, num_rows: 2, num_cols: 2 });
}

#[test]
fn new_refuses_a_shape_with_too_many_cells() {
    let mut buffer = [0u8; 6];
    let error = refused(TwoDimensionalArray::new(&mut buffer, 4, 2));
    assert_eq!(error, ShapeError::InvalidShape { buffer_len: 6, num_rows: 4, num_cols: 2 });
}

#[test]
fn new_refuses_a_shape_whose_product_overflows() {
    let mut buffer = [0u8; 4];
    let error = refused(TwoDimensionalArray::new(&mut buffer, usize::MAX, 2));
    assert_eq!(
        error,
        ShapeError::InvalidShape { buffer_len: 4, num_rows: usize::MAX, num_cols: 2 }
    );
    // The product wraps around to 4 on a machine whose word it does not fit.
    let half = usize::MAX / 2 + 1;
    let mut zero: [u8; 0] = [];
    let error = refused(TwoDimensionalArray::new(&mut zero, half, 2));
    assert_eq!(error, ShapeError::InvalidShape { buffer_len: 0, num_rows: half, num_cols: 2 });
}

#[test]
fn new_leaves_a_refused_buffer_as_it_was() {
    let mut buffer = [1, 2, 3];
    assert!(TwoDimensionalArray::new(&mut buffer, 2, 2).is_err());
    assert_eq!(buffer, [1, 2, 3]);
}

#[test]
fn empty_buffer_takes_any_shape_with_a_zero() {
    let mut buffer: [i32; 0] = [];
    let mut view = TwoDimensionalArray::new(&mut buffer, 0, 0).unwrap();
    assert!(view.is_empty());
    assert_eq!(view.len(), 0);
    assert_eq!(view.reshape(0, 7), Ok(()));
    assert_eq!(view.shape(), (0, 7));
    assert_eq!(view.reshape(5, 0), Ok(()));
    assert_eq!(view.shape(), (5, 0));
    assert_eq!(
        view.reshape(1, 1),
        Err(ShapeError::InvalidShape { buffer_len: 0, num_rows: 1, num_cols: 1 })
    );
    assert_eq!(view.shape(), (5, 0));
}

#[test]
fn reshape_keeps_the_cells_and_their_order() {
    let mut buffer = [1, 2, 3, 4, 5, 6];
    let mut view = TwoDimensionalArray::new(&mut buffer, 2, 3).unwrap();
    assert_eq!(view.get(1, 0), Some(&4));
    assert_eq!(view.reshape(3, 2), Ok(()));
    assert_eq!(view.as_slice(), &[1, 2, 3, 4, 5, 6]);
    assert_eq!(view.get(1, 0), Some(&3));
    assert_eq!(view.get(2, 0..2), Some(&[5, 6][..]));
    assert_eq!(view.reshape(1, 6), Ok(()));
    assert_eq!(view.get(0, 0..6), Some(&[1, 2, 3, 4, 5, 6][..]));
    assert_eq!(view.reshape(6, 1), Ok(()));
    assert_eq!(view.get(5, 0), Some(&6));
}

#[test]
fn reshape_refuses_an_overflowing_shape_and_keeps_the_old_one() {
    let mut buffer = [1, 2, 3, 4];
    let mut view = TwoDimensionalArray::new(&mut buffer, 2, 2).unwrap();
    assert_eq!(
        view.reshape(usize::MAX, usize::MAX),
        Err(ShapeError::InvalidShape {
            buffer_len: 4,
            num_rows: usize::MAX,
            num_cols: usize::MAX
        })
    );
    assert_eq!(view.shape(), (2, 2));
    assert_eq!(view.get(1, 1), Some(&4));
}

#[test]
fn reshape_every_shape_is_accepted_or_leaves_the_view_alone() {
    let mut buffer: Vec<u16> = (0..12).collect();
    let mut view = TwoDimensionalArray::new(&mut buffer, 3, 4).unwrap();
    let mut shape = (3, 4);
    for num_rows in 0usize..=13 {
        for num_cols in 0usize..=13 {
            let done = view.reshape(num_rows, num_cols);
            if num_rows * num_cols == 12 {
                assert_eq!(done, Ok(()));
                shape = (num_rows, num_cols);
            } else {
                assert_eq!(
                    done,
                    Err(ShapeError::InvalidShape { buffer_len: 12, num_rows, num_cols })
                );
            }
            assert_eq!(view.shape(), shape);
            assert_eq!(view.len(), 12);
        }
    }
}

#[test]
fn message_names_the_cell_count_and_the_shape() {
    let error = ShapeError::InvalidShape { buffer_len: 4, num_rows: 3, num_cols: 2 };
    assert_eq!(
        error.message(),
        "Cannot reshape two dimensional array with number of elements 4 into 3x2 array"
    );
}

#[test]
fn message_writes_zero_as_one_digit() {
    let error = ShapeError::InvalidShape { buffer_len: 0, num_rows: 0, num_cols: 0 };
    assert_eq!(
        error.message(),
        "Cannot reshape two dimensional array with number of elements 0 into 0x0 array"
    );
}

#[test]
fn message_writes_every_digit_of_long_numbers() {
    let error = ShapeError::InvalidShape { buffer_len: 1234567890, num_rows: 10, num_cols: 909 };
    assert_eq!(
        error.message(),
        "Cannot reshape two dimensional array with number of elements 1234567890 into 10x909 array"
    );
    let error = ShapeError::InvalidShape { buffer_len: 99, num_rows: 100, num_cols: 101 };
    assert_eq!(
        error.message(),
        "Cannot reshape two dimensional array with number of elements 99 into 100x101 array"
    );
}

#[test]
fn message_agrees_with_the_usual_decimal_form() {
    let numbers = [0usize, 1, 9, 10, 11, 19, 20, 99, 100, 1000, 65535, 65536, usize::MAX];
    for &buffer_len in numbers.iter() {
        for &num_rows in numbers.iter() {
            let num_cols = buffer_len / 3 + 7;
            let error = ShapeError::InvalidShape { buffer_len, num_rows, num_cols };
            assert_eq!(
                error.message(),
                format!(
                    "Cannot reshape two dimensional array with number of elements {} into {}x{} array",
                    buffer_len, num_rows, num_cols
                )
            );
        }
    }
}

#[test]
fn message_of_the_error_that_new_returns() {
    let mut buffer = [0u8; 4];
    let error = refused(TwoDimensionalArray::new(&mut buffer, 3, 2));
    assert_eq!(
        error.message(),
        "Cannot reshape two dimensional array with number of elements 4 into 3x2 array"
    );
}
