use bao_vhost_frontend::utils::transpose_matrix;

#[test]
fn test_transpose() {
    let matrix: Vec<Vec<u64>> = vec![
        vec![0, 1],
        vec![22, 29],
        vec![47, 48],
        vec![167788032, 167787520],
        vec![1476395008, 1493172224],
        vec![16777216, 16777216],
    ];
    let transposed = transpose_matrix(&matrix);
    assert_eq!(
        transposed,
        vec![
            vec![0, 22, 47, 167788032, 1476395008, 16777216],
            vec![1, 29, 48, 167787520, 1493172224, 16777216]
        ]
    );
}

#[test]
fn transpose_of_empty_is_empty() {
    let matrix: Vec<Vec<u64>> = Vec::new();
    assert_eq!(transpose_matrix(&matrix), Vec::<Vec<u64>>::new());
}

#[test]
fn transpose_twice_gives_back_the_matrix() {
    let matrix: Vec<Vec<u64>> = vec![vec![1, 2, 3], vec![4, 5, 6]];
    let once = transpose_matrix(&matrix);
    assert_eq!(once, vec![vec![1, 4], vec![2, 5], vec![3, 6]]);
    assert_eq!(transpose_matrix(&once), matrix);
}

#[test]
fn transpose_reads_columns_from_first_row() {
    let matrix: Vec<Vec<u64>> = vec![vec![1], vec![2, 3]];
    assert_eq!(transpose_matrix(&matrix), vec![vec![1, 2]]);
}
