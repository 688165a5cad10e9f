use cosmo::algebra::CscPattern;
use cosmo::linsys::{assemble_kkt_upper, kkt_dims_ok, kkt_dsigns, rho_diag_indices, KktEntry, KktSource};

fn e(row: usize, col: usize, src: KktSource) -> KktEntry {
    KktEntry { row, col, src }
}

#[test]
fn kkt_triplets_identity_constraints() {
    // P = 0 (2x2), A = I (2x2)
    let p = CscPattern { m: 2, n: 2, colptr: vec![0, 0, 0], rowval: vec![] };
    let a = CscPattern { m: 2, n: 2, colptr: vec![0, 1, 2], rowval: vec![0, 1] };
    let t = assemble_kkt_upper(&p, &a);
    assert_eq!(
        t,
        vec![
            e(0, 0, KktSource::Sigma(0)),
            e(1, 1, KktSource::Sigma(1)),
            e(0, 2, KktSource::A(0)),
            e(1, 3, KktSource::A(1)),
            e(2, 2, KktSource::RhoDiag(0)),
            e(3, 3, KktSource::RhoDiag(1)),
        ]
    );
}

#[test]
fn kkt_triplets_skip_lower_triangle_of_p() {
    // full symmetric P = [4 1; 1 2], A = [1 1] (1x2)
    let p = CscPattern { m: 2, n: 2, colptr: vec![0, 2, 4], rowval: vec![0, 1, 0, 1] };
    let a = CscPattern { m: 1, n: 2, colptr: vec![0, 1, 2], rowval: vec![0, 0] };
    let t = assemble_kkt_upper(&p, &a);
    assert_eq!(
        t,
        vec![
            e(0, 0, KktSource::Sigma(0)),
            e(0, 0, KktSource::P(0)),
            e(1, 1, KktSource::Sigma(1)),
            e(0, 1, KktSource::P(2)),
            e(1, 1, KktSource::P(3)),
            e(0, 2, KktSource::A(0)),
            e(1, 2, KktSource::A(1)),
            e(2, 2, KktSource::RhoDiag(0)),
        ]
    );
    assert!(t.iter().all(|x| x.row <= x.col && x.col < 3));
}

#[test]
fn rho_diagonal_positions() {
    // K pattern for n = 2, m = 2 with A = I: columns 2 and 3 each end with their diagonal
    let k = CscPattern { m: 4, n: 4, colptr: vec![0, 1, 2, 4, 6], rowval: vec![0, 1, 0, 2, 1, 3] };
    assert_eq!(rho_diag_indices(&k, 2, 2), vec![3, 5]);
}

#[test]
fn kkt_dimension_rules() {
    assert!(kkt_dims_ok(3, 3, 2, 3, 2));
    assert!(!kkt_dims_ok(3, 2, 2, 2, 2));
    assert!(!kkt_dims_ok(3, 3, 2, 2, 2));
    assert!(!kkt_dims_ok(3, 3, 2, 3, 1));
    assert_eq!(kkt_dsigns(2, 3), vec![1, 1, -1, -1, -1]);
    assert!(kkt_dsigns(0, 0).is_empty());
}

#[test]
fn csc_pattern_comparison() {
    let a = CscPattern { m: 2, n: 2, colptr: vec![0, 1, 2], rowval: vec![0, 1] };
    let b = CscPattern { m: 2, n: 2, colptr: vec![0, 1, 2], rowval: vec![0, 1] };
    let c = CscPattern { m: 2, n: 2, colptr: vec![0, 1, 2], rowval: vec![1, 1] };
    let d = CscPattern { m: 2, n: 2, colptr: vec![0, 2, 2], rowval: vec![0, 1] };
    assert!(a.same_pattern(&b));
    assert!(!a.same_pattern(&c));
    assert!(!a.same_pattern(&d));
}

#[test]
fn csc_pattern_validity() {
    let ok = CscPattern { m: 2, n: 2, colptr: vec![0, 1, 3], rowval: vec![1, 0, 1] };
    assert!(ok.is_wf());
    let empty = CscPattern { m: 0, n: 0, colptr: vec![0], rowval: vec![] };
    assert!(empty.is_wf());
    let decreasing = CscPattern { m: 2, n: 2, colptr: vec![0, 2, 1], rowval: vec![0] };
    assert!(!decreasing.is_wf());
    let row_out_of_range = CscPattern { m: 2, n: 1, colptr: vec![0, 1], rowval: vec![2] };
    assert!(!row_out_of_range.is_wf());
    let short_colptr = CscPattern { m: 2, n: 2, colptr: vec![0, 1], rowval: vec![0] };
    assert!(!short_colptr.is_wf());
    let bad_end = CscPattern { m: 2, n: 1, colptr: vec![0, 1], rowval: vec![0, 1] };
    assert!(!bad_end.is_wf());
    let bad_start = CscPattern { m: 2, n: 1, colptr: vec![1, 1], rowval: vec![0] };
    assert!(!bad_start.is_wf());
}
