use rust_benchmark::workunits::{
    array_sort, fibonacci, game_of_life, is_leap_year, matrix_multiplication, prime_factors,
    step_grid, WorkUnitKind,
};

#[test]
fn leap_year_rule() {
    assert!(is_leap_year(2000));
    assert!(!is_leap_year(1900));
    assert!(is_leap_year(2024));
    assert!(!is_leap_year(2023));
    assert!(is_leap_year(400));
    assert!(!is_leap_year(100));
}

#[test]
fn fibonacci_values() {
    assert_eq!(fibonacci(0), 0);
    assert_eq!(fibonacci(1), 1);
    assert_eq!(fibonacci(2), 1);
    assert_eq!(fibonacci(10), 55);
    assert_eq!(fibonacci(20), 6765);
    assert_eq!(fibonacci(35), 9227465);
    assert_eq!(fibonacci(62), 4052739537881);
}

#[test]
fn sort_orders_and_keeps_elements() {
    let mut v = vec![5, 3, 8, 3, -1, 0, 99, 3];
    array_sort(&mut v);
    assert_eq!(v, vec![-1, 0, 3, 3, 3, 5, 8, 99]);
}

#[test]
fn sort_empty_and_single() {
    let mut v: Vec<i32> = Vec::new();
    array_sort(&mut v);
    assert!(v.is_empty());
    let mut w = vec![7];
    array_sort(&mut w);
    assert_eq!(w, vec![7]);
}

#[test]
fn prime_factors_multiply_back() {
    assert_eq!(prime_factors(360), vec![2, 2, 2, 3, 3, 5]);
    assert_eq!(prime_factors(97), vec![97]);
    assert_eq!(prime_factors(1), Vec::<u64>::new());
    assert_eq!(prime_factors(2), vec![2]);
    assert_eq!(prime_factors(100_000), vec![2, 2, 2, 2, 2, 5, 5, 5, 5, 5]);
    let fac = prime_factors(499_999);
    let mut product: u64 = 1;
    for f in &fac {
        product *= f;
    }
    assert_eq!(product, 499_999);
}

#[test]
fn matrix_multiplication_small() {
    let a = vec![vec![1, 2], vec![3, 4]];
    let b = vec![vec![5, 6], vec![7, 8]];
    let r = matrix_multiplication(&a, &b);
    assert_eq!(r, vec![vec![19, 22], vec![43, 50]]);
}

#[test]
fn matrix_multiplication_zero() {
    let a = vec![vec![0, 0], vec![0, 0]];
    let b = vec![vec![9, 9], vec![9, 9]];
    let r = matrix_multiplication(&a, &b);
    assert_eq!(r, vec![vec![0, 0], vec![0, 0]]);
}

#[test]
fn blinker_oscillates() {
    // A vertical blinker in the middle of a 5x5 torus becomes horizontal
    // after one generation and vertical again after two.
    let mut grid = vec![vec![0u8; 5]; 5];
    grid[1][2] = 1;
    grid[2][2] = 1;
    grid[3][2] = 1;
    let one = step_grid(&grid, 5, 5);
    let mut horizontal = vec![vec![0u8; 5]; 5];
    horizontal[2][1] = 1;
    horizontal[2][2] = 1;
    horizontal[2][3] = 1;
    assert_eq!(one, horizontal);
    let two = game_of_life(grid.clone(), 5, 5, 2);
    assert_eq!(two, grid);
}

#[test]
fn blinker_wraps_around_the_torus() {
    // A vertical blinker crossing the top edge: rows 4, 0, 1 of column 2.
    // On the torus it behaves like any other blinker and turns horizontal
    // around row 0.
    let mut grid = vec![vec![0u8; 5]; 5];
    grid[4][2] = 1;
    grid[0][2] = 1;
    grid[1][2] = 1;
    let one = step_grid(&grid, 5, 5);
    let mut expected = vec![vec![0u8; 5]; 5];
    expected[0][1] = 1;
    expected[0][2] = 1;
    expected[0][3] = 1;
    assert_eq!(one, expected);
}

#[test]
fn work_unit_names() {
    assert_eq!(WorkUnitKind::ArraySort.name(), "array_sort");
    assert_eq!(WorkUnitKind::Fibonacci.name(), "fibonacci");
    assert_eq!(WorkUnitKind::GameOfLife.name(), "game_of_life");
    assert_eq!(
        WorkUnitKind::MatrixMultiplication.name(),
        "matrix_multiplication"
    );
    assert_eq!(WorkUnitKind::PrimeFactors.name(), "prime_factors");
    assert_eq!(WorkUnitKind::IsLeapYear.name(), "is_leap_year");
}
