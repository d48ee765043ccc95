use veriphoto::dct::{from_entries, UNIT_BITS};

fn alpha(u: usize) -> f64 {
    if u == 0 {
        (1f64 / 8f64).sqrt()
    } else {
        (1f64 / 4f64).sqrt()
    }
}

fn dct_coff(x: usize, u: usize) -> f64 {
    let cos_inside =
        (2f64 * (x as f64) + 1f64) * (u as f64) * (std::f64::consts::FRAC_PI_8 / 2f64);
    alpha(u) * cos_inside.cos()
}

fn dct_raw_entries() -> Vec<u64> {
    let mut entries = vec![0u64; 64 * 64];
    for y in 0..8 {
        for x in 0..8 {
            for u in 0..8 {
                for v in 0..8 {
                    let value = dct_coff(x, u) * dct_coff(y, v);
                    entries[(y * 8 + x) * 64 + (u * 8 + v)] = value.to_bits();
                }
            }
        }
    }
    entries
}

#[test]
fn basis_column_zero_is_exactly_one() {
    let basis = from_entries(dct_raw_entries());
    for r in 0..64 {
        assert_eq!(basis.entries[r * 64], UNIT_BITS);
        assert_eq!(f64::from_bits(basis.entries[r * 64]), 1.0);
    }
}

#[test]
fn basis_construction_is_deterministic() {
    let a = from_entries(dct_raw_entries());
    let b = from_entries(dct_raw_entries());
    assert_eq!(a.entries, b.entries);
}

#[test]
fn basis_keeps_cosine_entries_outside_column_zero() {
    let basis = from_entries(dct_raw_entries());
    // row 0 is pixel (x, y) = (0, 0); column 1 is frequency (u, v) = (0, 1)
    let expected = dct_coff(0, 0) * dct_coff(0, 1);
    assert_eq!(basis.entries[1], expected.to_bits());
    assert!((f64::from_bits(basis.entries[1]) - expected).abs() == 0.0);
    // a mid-matrix entry
    let row = 3 * 8 + 5;
    let col = 2 * 8 + 7;
    let expected2 = dct_coff(5, 2) * dct_coff(3, 7);
    assert_eq!(basis.entries[row * 64 + col], expected2.to_bits());
}

#[test]
fn basis_row_accessor_copies_the_row() {
    let basis = from_entries(dct_raw_entries());
    let row = basis.row(5);
    assert_eq!(row.len(), 64);
    for c in 0..64 {
        assert_eq!(row[c], basis.entries[5 * 64 + c]);
    }
}
