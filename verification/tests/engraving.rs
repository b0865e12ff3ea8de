use engraving::complex::{Complex, FractalError};
use engraving::escape::{engraving_depth, escape_depth, run_iterations, to_engrave};
use engraving::grid::{count_deep_points, depth_grid};

#[test]
fn multiplication_correctness() {
    let a = Complex { x: 3, y: 4 };
    assert_eq!(a.multiply(a), Ok(Complex { x: -7, y: 24 }));
}

#[test]
fn componentwise_divide_truncates() {
    let a = Complex { x: 7, y: -7 };
    assert_eq!(a.scale_divide(2), Ok(Complex { x: 3, y: -3 }));
}

#[test]
fn divide_by_zero_reported() {
    let a = Complex { x: 7, y: -7 };
    assert_eq!(a.scale_divide(0), Err(FractalError::DivisionByZero));
}

#[test]
fn divide_overflow_reported() {
    let a = Complex { x: i64::MIN, y: 0 };
    assert_eq!(a.scale_divide(-1), Err(FractalError::Overflow));
}

#[test]
fn multiply_overflow_reported() {
    let a = Complex { x: 3_037_000_500, y: 0 };
    assert_eq!(a.multiply(a), Err(FractalError::Overflow));
}

#[test]
fn add_componentwise() {
    let a = Complex { x: 1, y: -2 };
    let b = Complex { x: 10, y: 20 };
    assert_eq!(a.add(b), Complex { x: 11, y: 18 });
}

#[test]
fn three_unchecked_iterations() {
    let r = run_iterations(Complex { x: 156, y: 57 }, 3, 10);
    assert_eq!(r, Ok(Complex { x: 176_003, y: 830_945 }));
}

#[test]
fn run_iterations_overflow_reported() {
    let r = run_iterations(Complex { x: 1_000_000_000, y: 0 }, 8, 1);
    assert_eq!(r, Err(FractalError::Overflow));
}

#[test]
fn run_iterations_zero_steps() {
    let r = run_iterations(Complex { x: 156, y: 57 }, 0, 10);
    assert_eq!(r, Ok(Complex { x: 0, y: 0 }));
}

#[test]
fn depth_is_bounded() {
    for d in [0, 1, 5, 100] {
        let r = escape_depth(Complex { x: 156_000, y: 57_000 }, d, 100_000);
        assert!(0 <= r && r <= d);
    }
}

#[test]
fn depth_deterministic() {
    let p = Complex { x: -79_705, y: 15_616 };
    assert_eq!(engraving_depth(p, 100), engraving_depth(p, 100));
    assert_eq!(engraving_depth(p, 100), 42);
}

#[test]
fn zero_offset_never_escapes() {
    assert_eq!(escape_depth(Complex { x: 0, y: 0 }, 250, 7), 250);
    assert_eq!(engraving_depth(Complex { x: 0, y: 0 }, 100), 100);
    assert!(to_engrave(Complex { x: 0, y: 0 }));
}

#[test]
fn monotonic_saturation() {
    let p = Complex { x: -79_705, y: 15_616 };
    assert_eq!(engraving_depth(p, 20), 20);
    assert!(engraving_depth(p, 100) >= 20);
}

#[test]
fn immediate_escape() {
    let p = Complex { x: 2_000_000, y: 0 };
    assert_eq!(escape_depth(p, 5, 100_000), 0);
    assert!(!to_engrave(p));
}

#[test]
fn coarse_grid_count() {
    let n = count_deep_points(Complex { x: -79_705, y: 15_616 }, 101, 10);
    assert_eq!(n, 618);
}

#[test]
fn fine_grid_count() {
    let n = count_deep_points(Complex { x: -79_705, y: 15_616 }, 1001, 1);
    assert_eq!(n, 59_850);
}

#[test]
fn empty_grid_count() {
    let n = count_deep_points(Complex { x: -79_705, y: 15_616 }, 0, 10);
    assert_eq!(n, 0);
}

#[test]
fn textual_form() {
    assert_eq!(Complex { x: 3, y: -4 }.to_text(), "[3,-4]");
    assert_eq!(Complex { x: 0, y: 0 }.to_text(), "[0,0]");
    assert_eq!(Complex { x: -1_234_567, y: 890 }.to_text(), "[-1234567,890]");
    assert_eq!(
        Complex { x: i64::MIN, y: i64::MAX }.to_text(),
        "[-9223372036854775808,9223372036854775807]"
    );
}

#[test]
fn depth_grid_matches_depths() {
    let tl = Complex { x: -79_705, y: 15_616 };
    let g = depth_grid(tl, 4, 10);
    assert_eq!(g.len(), 4);
    for (r, row) in g.iter().enumerate() {
        assert_eq!(row.len(), 4);
        for (c, &v) in row.iter().enumerate() {
            let cell = Complex { x: tl.x + (c as i64) * 10, y: tl.y + (r as i64) * 10 };
            assert_eq!(v as i32, engraving_depth(cell, 255));
        }
    }
}
