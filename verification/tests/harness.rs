use matmul_bench::driver::artifact;
use matmul_bench::driver::default_sizes;
use matmul_bench::driver::matrices_equal;
use matmul_bench::driver::process_result;
use matmul_bench::driver::BenchmarkRecord;
use matmul_bench::generator::generate;
use matmul_bench::generator::generated_product_fits;
use matmul_bench::generator::Formula;
use matmul_bench::kernel::multiply;

#[test]
fn multiply_by_identity_returns_first_matrix() {
    let (mat1, mat2) = generate(4, Formula::IdentityCheck);
    let res = multiply(&mat1, &mat2, 4);
    assert_eq!(res, mat1);
}

#[test]
fn result_has_n_rows_and_columns() {
    let (mat1, mat2) = generate(5, Formula::Difference);
    let res = multiply(&mat1, &mat2, 5);
    assert_eq!(res.len(), 5);
    for row in &res {
        assert_eq!(row.len(), 5);
    }
}

#[test]
fn generator_is_pure() {
    for formula in [Formula::IdentityCheck, Formula::Difference] {
        let (a1, b1) = generate(6, formula);
        let (a2, b2) = generate(6, formula);
        assert_eq!(a1, a2);
        assert_eq!(b1, b2);
    }
}

#[test]
fn generated_matrices_follow_the_formulas() {
    let (mat1, identity) = generate(3, Formula::IdentityCheck);
    assert_eq!(mat1, vec![vec![0, 1, 2], vec![1, 2, 3], vec![2, 3, 4]]);
    assert_eq!(identity, vec![vec![1, 0, 0], vec![0, 1, 0], vec![0, 0, 1]]);
    let (_, difference) = generate(3, Formula::Difference);
    assert_eq!(difference, vec![vec![0, -1, -2], vec![1, 0, -1], vec![2, 1, 0]]);
}

#[test]
fn kernel_matches_hand_computed_product() {
    let mat1 = vec![vec![1, 2, 3], vec![4, 5, 6], vec![7, 8, 9]];
    let (_, mat2) = generate(3, Formula::Difference);
    let res = multiply(&mat1, &mat2, 3);
    let expected = vec![vec![8, 2, -4], vec![17, 2, -13], vec![26, 2, -22]];
    assert_eq!(res, expected);
    let swapped = multiply(&mat2, &mat1, 3);
    assert_ne!(swapped, res);
}

#[test]
fn kernel_is_associative_on_a_triple() {
    let a = vec![vec![1, 2, 3], vec![4, 5, 6], vec![7, 8, 9]];
    let (_, b) = generate(3, Formula::Difference);
    let c = vec![vec![2, 0, 1], vec![-1, 3, 0], vec![0, 1, -2]];
    let ab = multiply(&a, &b, 3);
    let bc = multiply(&b, &c, 3);
    assert_eq!(multiply(&ab, &c, 3), multiply(&a, &bc, 3));
}

#[test]
fn multiply_one_by_one() {
    let res = multiply(&vec![vec![3]], &vec![vec![5]], 1);
    assert_eq!(res, vec![vec![15]]);
}

#[test]
fn record_block_renders_exact_text() {
    let block = matmul_bench::recorder::record_block(10, 123, 456);
    let expected = "N = 10\nTempo de alocação de memória: 0.000123 segundos\nTempo de cálculo: 0.000456 segundos\n\n";
    assert_eq!(block.as_slice(), expected.as_bytes());
}

#[test]
fn record_block_renders_zero_whole_and_large_times() {
    let block = matmul_bench::recorder::record_block(1, 0, 1000000);
    let expected = "N = 1\nTempo de alocação de memória: 0.000000 segundos\nTempo de cálculo: 1.000000 segundos\n\n";
    assert_eq!(block.as_slice(), expected.as_bytes());
    let block = matmul_bench::recorder::record_block(10000, 1234567, 73000042);
    let expected = "N = 10000\nTempo de alocação de memória: 1.234567 segundos\nTempo de cálculo: 73.000042 segundos\n\n";
    assert_eq!(block.as_slice(), expected.as_bytes());
}

#[test]
fn default_size_list_is_fixed_and_ordered() {
    let sizes = default_sizes();
    assert_eq!(
        sizes,
        vec![10, 100, 1000, 2000, 3000, 4000, 5000, 6000, 7000, 8000, 9000, 10000]
    );
}

#[test]
fn process_result_reports_identity_mismatch_only() {
    let (mat1, mat2) = generate(2, Formula::IdentityCheck);
    let good = multiply(&mat1, &mat2, 2);
    let (block, mismatch) = process_result(Formula::IdentityCheck, &mat1, &good, 2, 7, 9);
    assert!(!mismatch);
    assert!(!block.is_empty());
    let mut bad = good.clone();
    bad[1][0] += 1;
    let (_, mismatch) = process_result(Formula::IdentityCheck, &mat1, &bad, 2, 7, 9);
    assert!(mismatch);
    let (_, mismatch) = process_result(Formula::Difference, &mat1, &bad, 2, 7, 9);
    assert!(!mismatch);
}

#[test]
fn matrices_equal_compares_entrywise() {
    let (mat1, _) = generate(3, Formula::Difference);
    let mut other = mat1.clone();
    assert!(matrices_equal(&mat1, &other, 3));
    other[2][2] = -50;
    assert!(!matrices_equal(&mat1, &other, 3));
}

#[test]
fn artifact_holds_one_block_per_record_in_order() {
    let records = vec![
        BenchmarkRecord { n: 10, alloc_micros: 123, calc_micros: 456 },
        BenchmarkRecord { n: 100, alloc_micros: 7, calc_micros: 8 },
        BenchmarkRecord { n: 1000, alloc_micros: 9, calc_micros: 10 },
    ];
    let bytes = artifact(&records);
    let text = String::from_utf8(bytes).unwrap();
    let blocks: Vec<&str> = text.split("\n\n").collect();
    assert_eq!(blocks.len(), 4);
    assert_eq!(blocks[3], "");
    assert!(blocks[0].starts_with("N = 10\n"));
    assert!(blocks[1].starts_with("N = 100\n"));
    assert!(blocks[2].starts_with("N = 1000\n"));
}

#[test]
fn artifact_of_no_records_is_empty() {
    let bytes = artifact(&Vec::new());
    assert!(bytes.is_empty());
}

#[test]
fn aborted_run_leaves_written_prefix_intact() {
    let records = vec![
        BenchmarkRecord { n: 10, alloc_micros: 1, calc_micros: 2 },
        BenchmarkRecord { n: 100, alloc_micros: 3, calc_micros: 4 },
        BenchmarkRecord { n: 1000, alloc_micros: 5, calc_micros: 6 },
    ];
    let full = artifact(&records);
    let partial = artifact(&records[..2].to_vec());
    assert_eq!(&full[..partial.len()], partial.as_slice());
}

#[test]
fn generated_product_fits_matches_the_bound() {
    assert!(generated_product_fits(1));
    assert!(generated_product_fits(10000));
    assert!(generated_product_fits(1321122));
    assert!(!generated_product_fits(1321123));
}
