use numquant::{get_stat_protocol, sweep_column, Matrix, ShapeFault, Step};

fn matrix(rows: usize, cols: usize, cells: Vec<u32>) -> Matrix {
    match Matrix::from_shape_vec(rows, cols, cells) {
        Ok(matrix) => matrix,
        Err(fault) => panic!("the shape is refused: {:?}", fault),
    }
}

fn fault(rows: usize, cols: usize, cells: Vec<u32>) -> ShapeFault {
    match Matrix::from_shape_vec(rows, cols, cells) {
        Ok(_) => panic!("the shape is accepted"),
        Err(fault) => fault,
    }
}

fn bits_of(values: &[f32]) -> Vec<u32> {
    values.iter().map(|v| v.to_bits()).collect()
}

#[test]
fn cells_are_laid_out_row_by_row() {
    let m = matrix(2, 3, vec![10, 11, 12, 20, 21, 22]);
    assert_eq!(m.num_rows(), 2);
    assert_eq!(m.num_cols(), 3);
    assert_eq!(m.column(0), Some(vec![10, 20]));
    assert_eq!(m.column(1), Some(vec![11, 21]));
    assert_eq!(m.column(2), Some(vec![12, 22]));
    assert_eq!(m.column(3), None);
    assert_eq!(m.column(usize::MAX), None);
}

#[test]
fn a_single_column_is_the_list_itself() {
    let cells: Vec<u32> = (100..130).collect();
    let m = matrix(30, 1, cells.clone());
    assert_eq!(m.num_rows(), 30);
    assert_eq!(m.num_cols(), 1);
    assert_eq!(m.column(0), Some(cells));
}

#[test]
fn a_single_row_gives_columns_of_one_cell() {
    let m = matrix(1, 4, vec![7, 8, 9, 10]);
    assert_eq!(m.num_rows(), 1);
    assert_eq!(m.num_cols(), 4);
    for col in 0..4 {
        assert_eq!(m.column(col), Some(vec![7 + col as u32]));
    }
}

#[test]
fn shapes_without_cells() {
    let m = matrix(0, 0, vec![]);
    assert_eq!((m.num_rows(), m.num_cols()), (0, 0));
    assert_eq!(m.column(0), None);

    let m = matrix(3, 0, vec![]);
    assert_eq!((m.num_rows(), m.num_cols()), (3, 0));
    assert_eq!(m.column(0), None);

    let m = matrix(0, 3, vec![]);
    assert_eq!((m.num_rows(), m.num_cols()), (0, 3));
    assert_eq!(m.column(0), Some(vec![]));
    assert_eq!(m.column(2), Some(vec![]));
    assert_eq!(m.column(3), None);
}

#[test]
fn a_shape_of_another_size_is_a_mismatch() {
    assert_eq!(fault(2, 3, vec![1, 2, 3, 4, 5]), ShapeFault::Mismatch);
    assert_eq!(fault(2, 3, vec![1, 2, 3, 4, 5, 6, 7]), ShapeFault::Mismatch);
    assert_eq!(fault(1, 1, vec![]), ShapeFault::Mismatch);
    assert_eq!(fault(0, 5, vec![1]), ShapeFault::Mismatch);
    assert_eq!(fault(0, 0, vec![1]), ShapeFault::Mismatch);
}

#[test]
fn a_shape_beyond_addressing_is_too_large() {
    assert_eq!(fault(usize::MAX, 2, vec![]), ShapeFault::TooLarge);
    assert_eq!(fault(usize::MAX, usize::MAX, vec![1]), ShapeFault::TooLarge);
    assert_eq!(fault(usize::MAX, 0, vec![]), ShapeFault::TooLarge);
    assert_eq!(fault(0, usize::MAX, vec![]), ShapeFault::TooLarge);
    assert_eq!(fault(usize::MAX / 2 + 1, 1, vec![]), ShapeFault::TooLarge);
    assert_eq!(fault(1 << (usize::BITS / 2), 1 << (usize::BITS / 2), vec![]), ShapeFault::TooLarge);
}

#[test]
fn the_largest_empty_shape_fits() {
    let m = matrix(usize::MAX / 2, 0, vec![]);
    assert_eq!((m.num_rows(), m.num_cols()), (usize::MAX / 2, 0));
    assert_eq!(get_stat_protocol(&m, 5, 5), Vec::<Vec<Step>>::new());
}

#[test]
fn protocol_sweeps_each_column() {
    let nan = f32::NAN;
    let left = [1.0, 2.0, nan, 4.0];
    let right = [nan, 20.0, 30.0, nan];
    let mut cells = Vec::new();
    for row in 0..4 {
        cells.push(left[row].to_bits());
        cells.push(right[row].to_bits());
    }
    let m = matrix(4, 2, cells);
    let plan = get_stat_protocol(&m, 1, 2);
    assert_eq!(plan.len(), 2);
    assert_eq!(plan[0], sweep_column(&bits_of(&left), 1, 2));
    assert_eq!(plan[1], sweep_column(&bits_of(&right), 1, 2));
    let counts: Vec<Vec<usize>> =
        plan.iter().map(|steps| steps.iter().map(|s| s.observations).collect()).collect();
    assert_eq!(counts, vec![vec![1, 2, 1, 1], vec![0, 1, 2, 1]]);
    let due: Vec<Vec<bool>> =
        plan.iter().map(|steps| steps.iter().map(|s| s.emit).collect()).collect();
    assert_eq!(due, vec![vec![false, true, false, false], vec![false, false, true, false]]);
}

#[test]
fn protocol_of_matrices_without_cells() {
    assert_eq!(get_stat_protocol(&matrix(0, 0, vec![]), 3, 1), Vec::<Vec<Step>>::new());
    assert_eq!(get_stat_protocol(&matrix(4, 0, vec![]), 3, 1), Vec::<Vec<Step>>::new());
    let empty: Vec<Step> = Vec::new();
    assert_eq!(get_stat_protocol(&matrix(0, 3, vec![]), 3, 1), vec![empty; 3]);
}

#[test]
fn rearranged_columns_give_rearranged_plans() {
    let nan = f32::NAN;
    let series: [[f32; 6]; 4] = [
        [1.0, 2.0, 3.0, 4.0, 5.0, 6.0],
        [nan, nan, 1.0, nan, 2.0, 3.0],
        [9.0, nan, 9.0, nan, 9.0, nan],
        [nan, nan, nan, nan, nan, nan],
    ];
    let build = |order: &[usize]| {
        let mut cells = Vec::new();
        for row in 0..6 {
            for &c in order {
                cells.push(series[c][row].to_bits());
            }
        }
        matrix(6, order.len(), cells)
    };
    let plain = get_stat_protocol(&build(&[0, 1, 2, 3]), 2, 2);
    for order in [[3usize, 2, 1, 0], [1, 0, 3, 2], [2, 3, 0, 1], [0, 0, 3, 3]] {
        let plan = get_stat_protocol(&build(&order), 2, 2);
        assert_eq!(plan.len(), 4);
        for (place, &c) in order.iter().enumerate() {
            assert_eq!(plan[place], plain[c], "order {:?} place {}", order, place);
        }
    }
}

#[test]
fn a_column_alone_gives_the_plan_it_has_among_others() {
    let nan = f32::NAN;
    let alone = [5.0, nan, 7.0, 8.0, nan];
    let other = [nan, 1.0, nan, 1.0, 1.0];
    let mut cells = Vec::new();
    for row in 0..5 {
        cells.push(other[row].to_bits());
        cells.push(alone[row].to_bits());
    }
    let both = get_stat_protocol(&matrix(5, 2, cells), 1, 1);
    let single = get_stat_protocol(&matrix(5, 1, bits_of(&alone)), 1, 1);
    assert_eq!(both[1], single[0]);
}
