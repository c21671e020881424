//! Row layout of the style-exposure band template.
//!
//! A band `lower[s] <= exposures[s] · w <= upper[s]` becomes constraint
//! rows: one equality row when the band is exact, otherwise an upper row
//! `exposures[s] · w <= upper[s]` followed by a lower row
//! `-exposures[s] · w <= -lower[s]`, skipping infinite sides. A crossed
//! band is rejected, and so is a band with neither side finite (exact or
//! not: `lower == upper == ±inf` constrains nothing). Styles are laid out
//! in index order.

use vstd::prelude::*;

use crate::text::{decimal, push_decimal};

verus! {

/// What the layout reads from one style band.
#[derive(Clone, Copy, Debug)]
pub struct BandSummary {
    /// `lower > upper`.
    pub crossed: bool,
    /// `lower >= upper` (with `crossed` false: the bounds are equal).
    pub exact: bool,
    /// The lower bound is finite.
    pub lower_finite: bool,
    /// The upper bound is finite.
    pub upper_finite: bool,
}

/// Which constraint row a band contributes.
#[derive(Clone, Copy, Debug, PartialEq, Eq, Structural)]
pub enum BandRow {
    /// `exposures[s] · w = upper[s]`.
    Equality,
    /// `exposures[s] · w <= upper[s]`.
    Upper,
    /// `-exposures[s] · w <= -lower[s]`.
    Lower,
}

/// Why a band was rejected.
#[derive(Clone, Copy, Debug, PartialEq, Eq, Structural)]
pub enum BandError {
    /// The lower bound of this style exceeds its upper bound.
    Crossed {
        /// Style index.
        style: usize,
    },
    /// This style has neither a finite lower nor a finite upper bound.
    Unbounded {
        /// Style index.
        style: usize,
    },
}

/// The rows one band contributes, in order.
pub open spec fn band_rows(band: BandSummary, style: usize) -> Seq<(usize, BandRow)> {
    if band.exact {
        seq![(style, BandRow::Equality)]
    } else {
        (if band.upper_finite {
            seq![(style, BandRow::Upper)]
        } else {
            Seq::empty()
        }) + (if band.lower_finite {
            seq![(style, BandRow::Lower)]
        } else {
            Seq::empty()
        })
    }
}

/// The rejection of one band, if any.
pub open spec fn band_error(band: BandSummary, style: usize) -> Option<BandError> {
    if band.crossed {
        Some(BandError::Crossed { style })
    } else if !band.lower_finite && !band.upper_finite {
        Some(BandError::Unbounded { style })
    } else {
        None
    }
}

/// The first rejected band among the first `n` bands.
pub open spec fn first_band_error(bands: Seq<BandSummary>, n: int) -> Option<BandError>
    decreases n,
{
    if n <= 0 {
        None
    } else {
        match first_band_error(bands, n - 1) {
            Some(error) => Some(error),
            None => band_error(bands[n - 1], (n - 1) as usize),
        }
    }
}

/// The rows of the first `n` bands, in style order.
pub open spec fn layout(bands: Seq<BandSummary>, n: int) -> Seq<(usize, BandRow)>
    decreases n,
{
    if n <= 0 {
        Seq::empty()
    } else {
        layout(bands, n - 1) + band_rows(bands[n - 1], (n - 1) as usize)
    }
}

/// Lays out the constraint rows of a list of style bands, or reports the
/// first band (in style order) that is crossed or unbounded on both sides.
pub fn style_band_rows(bands: &[BandSummary]) -> (result: Result<Vec<(usize, BandRow)>, BandError>)
    ensures
        match first_band_error(bands@, bands@.len() as int) {
            Some(error) => result == Err::<Vec<(usize, BandRow)>, BandError>(error),
            None => (result matches Ok(rows) && rows@ == layout(bands@, bands@.len() as int)),
        },
        result is Ok <==> forall|s: int| 0 <= s < bands@.len() ==> band_acceptable(#[trigger] bands@[s]),
{
    let count = bands.len();
    proof {
        lemma_band_rejection_names_first_bad_band(bands@, count as int);
    }
    let mut rows: Vec<(usize, BandRow)> = Vec::new();
    let mut style: usize = 0;
    while style < bands.len()
        invariant
            style <= bands@.len(),
            first_band_error(bands@, style as int) is None,
            rows@ == layout(bands@, style as int),
        decreases bands@.len() - style,
    {
        let band = bands[style];
        if band.crossed {
            proof {
                lemma_first_band_error_sticks(bands@, style + 1, bands@.len() as int);
            }
            return Err(BandError::Crossed { style });
        }
        if !band.lower_finite && !band.upper_finite {
            proof {
                lemma_first_band_error_sticks(bands@, style + 1, bands@.len() as int);
            }
            return Err(BandError::Unbounded { style });
        }
        if band.exact {
            rows.push((style, BandRow::Equality));
        } else {
            if band.upper_finite {
                rows.push((style, BandRow::Upper));
            }
            if band.lower_finite {
                rows.push((style, BandRow::Lower));
            }
        }
        assert(rows@ =~= layout(bands@, style as int) + band_rows(band, style));
        style = style + 1;
    }
    Ok(rows)
}

/// A rejection among the first `m` bands is the rejection of any longer
/// prefix.
proof fn lemma_first_band_error_sticks(bands: Seq<BandSummary>, m: int, n: int)
    requires
        0 <= m <= n,
        first_band_error(bands, m) is Some,
    ensures
        first_band_error(bands, n) == first_band_error(bands, m),
    decreases n - m,
{
    if m < n {
        lemma_first_band_error_sticks(bands, m, n - 1);
    }
}

/// Within the layout, rows of a lower-indexed style come first, and every
/// accepted band contributes at least one row.
pub proof fn lemma_layout_in_style_order(bands: Seq<BandSummary>, n: int)
    requires
        0 <= n <= bands.len(),
        n <= usize::MAX + 1,
        first_band_error(bands, n) is None,
    ensures
        forall|a: int, b: int|
            0 <= a <= b < layout(bands, n).len() ==> (#[trigger] layout(bands, n)[a]).0 <= (
            #[trigger] layout(bands, n)[b]).0,
        forall|k: int| 0 <= k < layout(bands, n).len() ==> (#[trigger] layout(bands, n)[k]).0 < n,
        layout(bands, n).len() >= n,
    decreases n,
{
    if n > 0 {
        lemma_layout_in_style_order(bands, n - 1);
        let earlier = layout(bands, n - 1);
        let last = band_rows(bands[n - 1], (n - 1) as usize);
        assert(layout(bands, n) == earlier + last);
        assert forall|k: int| 0 <= k < last.len() implies (#[trigger] last[k]).0 == n - 1 by {}
        assert(last.len() >= 1);
        assert forall|a: int, b: int|
            0 <= a <= b < layout(bands, n).len() implies (#[trigger] layout(bands, n)[a]).0 <= (
        #[trigger] layout(bands, n)[b]).0 by {
            if b >= earlier.len() {
                assert(layout(bands, n)[b] == last[b - earlier.len()]);
                if a >= earlier.len() {
                    assert(layout(bands, n)[a] == last[a - earlier.len()]);
                } else {
                    assert(layout(bands, n)[a] == earlier[a]);
                }
            } else {
                assert(layout(bands, n)[a] == earlier[a]);
                assert(layout(bands, n)[b] == earlier[b]);
            }
        }
        assert forall|k: int| 0 <= k < layout(bands, n).len() implies (#[trigger] layout(
            bands,
            n,
        )[k]).0 < n by {
            if k >= earlier.len() {
                assert(layout(bands, n)[k] == last[k - earlier.len()]);
            } else {
                assert(layout(bands, n)[k] == earlier[k]);
            }
        }
    }
}

/// A band that can be laid out: not crossed, with at least one finite side.
pub open spec fn band_acceptable(band: BandSummary) -> bool {
    !band.crossed && (band.lower_finite || band.upper_finite)
}

/// The first `n` bands are rejected exactly when one of them is crossed or
/// has no finite side, and the rejection names the first such band: as
/// crossed when it is, otherwise as unbounded.
pub proof fn lemma_band_rejection_names_first_bad_band(bands: Seq<BandSummary>, n: int)
    requires
        0 <= n <= bands.len(),
        n <= usize::MAX + 1,
    ensures
        first_band_error(bands, n) is None <==> forall|s: int|
            0 <= s < n ==> band_acceptable(#[trigger] bands[s]),
        first_band_error(bands, n) matches Some(error) ==> exists|s: int|
            0 <= s < n && !band_acceptable(#[trigger] bands[s]) && (forall|t: int|
                0 <= t < s ==> band_acceptable(#[trigger] bands[t])) && error == if bands[s].crossed {
                BandError::Crossed { style: s as usize }
            } else {
                BandError::Unbounded { style: s as usize }
            },
    decreases n,
{
    if n > 0 {
        lemma_band_rejection_names_first_bad_band(bands, n - 1);
        if first_band_error(bands, n - 1) is None && band_error(bands[n - 1], (n - 1) as usize) is Some {
            assert(!band_acceptable(bands[n - 1]));
        }
    }
}

/// An accepted band contributes rows of its own style only: one equality
/// row when its bounds are equal, otherwise an upper row exactly when the
/// upper bound is finite and a lower row exactly when the lower bound is,
/// the upper row first.
pub proof fn lemma_band_rows_follow_bounds(band: BandSummary, style: usize)
    requires
        band_acceptable(band),
    ensures
        forall|k: int| 0 <= k < band_rows(band, style).len() ==> (#[trigger] band_rows(band, style)[k]).0
            == style,
        band.exact ==> band_rows(band, style) == seq![(style, BandRow::Equality)],
        !band.exact ==> {
            &&& band_rows(band, style).contains((style, BandRow::Upper)) == band.upper_finite
            &&& band_rows(band, style).contains((style, BandRow::Lower)) == band.lower_finite
            &&& !band_rows(band, style).contains((style, BandRow::Equality))
            &&& band_rows(band, style).len() == (if band.upper_finite {
                1int
            } else {
                0
            }) + (if band.lower_finite {
                1int
            } else {
                0
            })
            &&& band_rows(band, style)[0] == if band.upper_finite {
                (style, BandRow::Upper)
            } else {
                (style, BandRow::Lower)
            }
        },
{
    let rows = band_rows(band, style);
    if !band.exact {
        if band.upper_finite && band.lower_finite {
            assert(rows =~= seq![(style, BandRow::Upper), (style, BandRow::Lower)]);
            assert(rows[0] == (style, BandRow::Upper));
            assert(rows[1] == (style, BandRow::Lower));
        } else if band.upper_finite {
            assert(rows =~= seq![(style, BandRow::Upper)]);
            assert(rows[0] == (style, BandRow::Upper));
        } else {
            assert(rows =~= seq![(style, BandRow::Lower)]);
            assert(rows[0] == (style, BandRow::Lower));
        }
    }
}

/// Text rejecting a style without finite bounds.
pub open spec fn unbounded_style_text(style: nat) -> Seq<char> {
    "style "@ + decimal(style)
        + " has neither a finite lower nor a finite upper bound; drop the row instead of leaving it unconstrained"@
}

/// Text rejecting a style without finite bounds.
pub fn unbounded_style_message(style: usize) -> (text: String)
    ensures
        text@ == unbounded_style_text(style as nat),
{
    let mut text = String::from_str("style ");
    push_decimal(&mut text, style as u64);
    text.append(
        " has neither a finite lower nor a finite upper bound; drop the row instead of leaving it unconstrained",
    );
    assert(text@ =~= unbounded_style_text(style as nat));
    text
}

} // verus!
