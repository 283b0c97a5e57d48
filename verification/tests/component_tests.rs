use loop_closure::assemble::{assemble, Edge};
use loop_closure::index_map::{build_index_map, Slot};
use loop_closure::sparse::{spmv, to_csr, CooMatrix};

fn bits(v: f64) -> u64 {
    v.to_bits()
}

fn val(b: u64) -> f64 {
    f64::from_bits(b)
}

#[test]
fn index_map_assigns_dense_indices() {
    let flags = vec![true, false, false, true, false];
    let (slots, active) = build_index_map(&flags);
    assert_eq!(active, 3);
    assert_eq!(slots.len(), 5);
    assert!(matches!(slots[0], Slot::Fixed));
    assert!(matches!(slots[1], Slot::Free(0)));
    assert!(matches!(slots[2], Slot::Free(1)));
    assert!(matches!(slots[3], Slot::Fixed));
    assert!(matches!(slots[4], Slot::Free(2)));
}

#[test]
fn compaction_sums_duplicates_in_row_order() {
    let mut coo = CooMatrix::new(2);
    coo.push(0, 1, bits(1.5));
    coo.push(1, 0, bits(-2.0));
    coo.push(0, 0, bits(4.0));
    coo.push(0, 1, bits(2.5));
    let m = to_csr(&coo);
    assert_eq!(m.nrows, 2);
    assert_eq!(m.row_offsets, vec![0, 2, 3]);
    assert_eq!(m.col_indices, vec![0, 1, 0]);
    assert_eq!(val(m.values[0]), 4.0);
    assert_eq!(val(m.values[1]), 4.0);
    assert_eq!(val(m.values[2]), -2.0);
}

#[test]
fn matrix_vector_product_reads_rows() {
    let mut coo = CooMatrix::new(3);
    coo.push(0, 0, bits(2.0));
    coo.push(0, 2, bits(1.0));
    coo.push(1, 1, bits(-1.0));
    let m = to_csr(&coo);
    let x = vec![bits(3.0), bits(5.0), bits(7.0)];
    let mut y = vec![0u64; 3];
    spmv(&m, &x, &mut y);
    assert_eq!(val(y[0]), 2.0 * 3.0 + 1.0 * 7.0);
    assert_eq!(val(y[1]), -5.0);
    assert_eq!(val(y[2]), 0.0);
}

#[test]
fn assembled_matrix_is_symmetric() {
    let flags = vec![false, false, true, false];
    let (slots, active) = build_index_map(&flags);
    assert_eq!(active, 3);
    let edges = vec![
        Edge { from: 0, to: 1, dx: bits(1.0), dy: bits(0.0), weight: bits(2.0) },
        Edge { from: 1, to: 3, dx: bits(0.5), dy: bits(0.5), weight: bits(0.25) },
        Edge { from: 2, to: 3, dx: bits(-1.0), dy: bits(2.0), weight: bits(3.0) },
    ];
    let xs = vec![bits(0.0); 4];
    let ys = vec![bits(0.0); 4];
    let (coo, _bx, _by) = assemble(&edges, &slots, &xs, &ys, active);
    let m = to_csr(&coo);
    let mut dense = vec![vec![0.0f64; active]; active];
    for r in 0..active {
        for k in m.row_offsets[r]..m.row_offsets[r + 1] {
            dense[r][m.col_indices[k]] = val(m.values[k]);
        }
    }
    for r in 0..active {
        for c in 0..active {
            assert_eq!(dense[r][c], dense[c][r]);
        }
    }
}
