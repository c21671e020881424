use ledge::{style_band_rows, unbounded_style_message, BandError, BandRow, BandSummary};

fn band(low: f64, high: f64) -> BandSummary {
    BandSummary {
        crossed: low > high,
        exact: low >= high,
        lower_finite: low.is_finite(),
        upper_finite: high.is_finite(),
    }
}

#[test]
fn bands_lay_out_in_style_order() {
    let bands = [band(-0.1, 0.1), band(0.0, 0.0), band(f64::NEG_INFINITY, 0.2), band(-0.3, f64::INFINITY)];
    assert_eq!(
        style_band_rows(&bands),
        Ok(vec![
            (0, BandRow::Upper),
            (0, BandRow::Lower),
            (1, BandRow::Equality),
            (2, BandRow::Upper),
            (3, BandRow::Lower),
        ])
    );
    assert_eq!(style_band_rows(&[]), Ok(vec![]));
}

#[test]
fn first_bad_band_is_reported() {
    let bands = [band(-0.1, 0.1), band(f64::NEG_INFINITY, f64::INFINITY), band(0.2, 0.1)];
    assert_eq!(style_band_rows(&bands), Err(BandError::Unbounded { style: 1 }));
    let bands = [band(0.3, 0.1), band(f64::NEG_INFINITY, f64::INFINITY)];
    assert_eq!(style_band_rows(&bands), Err(BandError::Crossed { style: 0 }));
}

#[test]
fn unbounded_style_text() {
    assert_eq!(
        unbounded_style_message(12),
        "style 12 has neither a finite lower nor a finite upper bound; drop the row instead of leaving it unconstrained"
    );
}

#[test]
fn infinite_exact_bands_are_unbounded() {
    let bands = [band(-0.1, 0.1), band(f64::INFINITY, f64::INFINITY)];
    assert_eq!(style_band_rows(&bands), Err(BandError::Unbounded { style: 1 }));
    let bands = [band(f64::NEG_INFINITY, f64::NEG_INFINITY)];
    assert_eq!(style_band_rows(&bands), Err(BandError::Unbounded { style: 0 }));
    let bands = [band(0.2, 0.2)];
    assert_eq!(style_band_rows(&bands), Ok(vec![(0, BandRow::Equality)]));
}
