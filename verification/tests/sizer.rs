use oprs::display::term::sizer::ColumnSizer;

const COL1: [&'static str; 3] = ["Name", "Ada Lovelace", "Charles Babbage"];
static WIDTH1: usize = COL1[2].len();
const COL2: [&'static str; 3] = ["Birth date", "10 December 1815", "26 December 1791"];
static WIDTH2: usize = COL2[1].len();
const COL3: [&'static str; 3] = ["Known for", "Mathematics, computing", "Difference engine"];
static WIDTH3: usize = COL3[1].len();

#[test]
fn test_column_sizer_push() {
    let mut csizer = ColumnSizer::new(0);
    assert_eq!(0, csizer.len());
    // add the first column
    csizer.overwrite(0, ColumnSizer::max_width(&COL1));
    assert_eq!(1, csizer.len());
    assert_eq!(WIDTH1, csizer.width(0).unwrap());
    // add the third column
    csizer.overwrite(2, ColumnSizer::max_width(&COL3));
    assert_eq!(3, csizer.len());
    assert_eq!(0, csizer.width(1).unwrap());
    assert_eq!(WIDTH3, csizer.width_or_zero(2));
    assert_eq!(Some(0), csizer.freeze());
    // add the second column
    csizer.overwrite(1, ColumnSizer::max_width(&COL2));
    assert_eq!(3, csizer.len());
    assert_eq!(WIDTH2, csizer.width_or_zero(1));
    assert_eq!(Some(1), csizer.freeze());
    // list all width
    assert_eq!(
        &[WIDTH1, WIDTH2, WIDTH3],
        csizer.iter().copied().collect::<Vec<usize>>().as_slice()
    );
}

#[test]
fn test_column_sizer_pop() {
    let mut csizer = ColumnSizer::new(0);
    csizer.overwrite(0, ColumnSizer::max_width(&COL1));
    csizer.overwrite(1, ColumnSizer::max_width(&COL2));
    csizer.overwrite(2, ColumnSizer::max_width(&COL3));
    assert_eq!(Some(0), csizer.freeze());
    csizer.truncate(1);
    assert_eq!(Some(1), csizer.freeze());
}

#[test]
fn test_column_sizer_growing() {
    const ELASTICITY: usize = 1;
    let mut csizer = ColumnSizer::new(ELASTICITY);
    csizer.overwrite(0, 10);
    csizer.overwrite(1, 7);
    csizer.overwrite(2, 9);
    assert_eq!(7, csizer.width_or_zero(1));
    assert_eq!(Some(0), csizer.freeze());
    csizer.overwrite(1, 12);
    assert_eq!(12, csizer.width_or_zero(1));
    assert_eq!(Some(1), csizer.freeze());
}

#[test]
fn test_column_sizer_shrinking() {
    const ELASTICITY: usize = 2;
    let mut csizer = ColumnSizer::new(ELASTICITY);
    csizer.overwrite(0, 10);
    csizer.overwrite(1, 12);
    csizer.overwrite(2, 9);
    assert_eq!(12, csizer.width_or_zero(1));
    // No change if column shrink a little bit
    assert_eq!(Some(0), csizer.freeze());
    csizer.overwrite(1, 10);
    assert_eq!(12, csizer.width_or_zero(1));
    // Change if column shrink significantly
    csizer.overwrite(1, 9);
    assert_eq!(9, csizer.width_or_zero(1));
}

#[test]
fn test_column_sizer_min() {
    const ELASTICITY: usize = 0;
    let mut csizer = ColumnSizer::new(ELASTICITY);
    csizer.overwrite(0, 10);
    assert_eq!(10, csizer.width_or_zero(0));
    csizer.overwrite_min(0, 7);
    assert_eq!(10, csizer.width_or_zero(0));
    csizer.overwrite_min(0, 12);
    assert_eq!(12, csizer.width_or_zero(0));
}

#[test]
fn sizer_shrink_within_elasticity_is_not_a_change() {
    let mut csizer = ColumnSizer::new(3);
    csizer.overwrite(0, 10);
    assert_eq!(Some(0), csizer.freeze());
    csizer.overwrite(0, 8);
    assert_eq!(None, csizer.freeze());
    assert_eq!(10, csizer.width_or_zero(0));
    assert_eq!(None, csizer.width(5));
    assert_eq!(0, csizer.width_or_zero(5));
    assert_eq!(0, ColumnSizer::max_width(&[]));
}

#[test]
fn padding_columns_are_changed_columns() {
    let mut s = ColumnSizer::new(0);
    s.overwrite(0, 5);
    s.freeze();
    s.overwrite(3, 7);
    assert_eq!(4, s.len());
    assert_eq!(Some(0), s.width(1));
    assert_eq!(Some(0), s.width(2));
    assert_eq!(Some(1), s.freeze());
    assert_eq!(None, s.freeze());
}
