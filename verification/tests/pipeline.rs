//! End-to-end tests of the data-to-geometry pipeline: ring-buffered
//! ingest, spline fitting, range animation, grid layout and
//! tessellation. Scalar values are in milli-units throughout.

use pdhv::graphic::{isqrt, quantize, tessellate, u64_to_string, uv_quant};
use pdhv::layout::{layout, panel_rect};
use pdhv::query::{CounterV2, QueryV2};
use pdhv::spline::InterpolatedCurve;

fn tick(vals: &[(&str, i64)]) -> Option<Vec<(String, i64)>> {
    Some(vals.iter().map(|(n, v)| (n.to_string(), *v)).collect())
}

#[test]
fn ring_buffer_length_tracks_ticks() {
    let mut m = CounterV2::new("\\Processor(*)\\% Processor Time".to_string());
    assert_eq!(m.instances(), 0);
    for k in 0..3i64 {
        m.update(tick(&[("a", 1000 + k), ("b", 2000 + k)]));
    }
    let data = m.get_data_by_instance().unwrap();
    assert_eq!(data.len(), 2);
    assert_eq!(data[0].len(), 3);
    assert_eq!(data[1].len(), 3);
    assert_eq!(data[0], vec![1000, 1001, 1002]);
    assert_eq!(data[1], vec![2000, 2001, 2002]);
}

#[test]
fn ring_buffer_never_exceeds_depth() {
    let mut m = CounterV2::new("c".to_string());
    for k in 0..25i64 {
        m.update(tick(&[("a", k)]));
    }
    assert_eq!(m.ticks_ingested(), 25);
    let data = m.get_data_by_instance().unwrap();
    assert_eq!(data.len(), 1);
    // only the newest 20 ticks stay, oldest first
    assert_eq!(data[0].len(), 20);
    assert_eq!(data[0][0], 5);
    assert_eq!(data[0][19], 24);
}

#[test]
fn missing_tick_changes_nothing() {
    let mut m = CounterV2::new("c".to_string());
    m.update(tick(&[("a", 500), ("b", 600)]));
    m.update(tick(&[("a", 700), ("b", 800)]));
    let before = m.get_data_by_instance().unwrap();
    let ticks_before = m.ticks_ingested();
    m.update(None);
    m.update(Some(Vec::new()));
    assert_eq!(m.get_data_by_instance().unwrap(), before);
    assert_eq!(m.ticks_ingested(), ticks_before);
    assert_eq!(m.instances(), 2);
}

#[test]
fn cardinality_change_resets_history() {
    let mut m = CounterV2::new("c".to_string());
    m.update(tick(&[("a", 1), ("b", 2)]));
    m.update(tick(&[("a", 3), ("b", 4)]));
    assert_eq!(m.ticks_ingested(), 2);
    m.update(tick(&[("x", 10), ("y", 20), ("z", 30)]));
    assert_eq!(m.instances(), 3);
    assert_eq!(m.ticks_ingested(), 1);
    let data = m.get_data_by_instance().unwrap();
    assert_eq!(data.len(), 3);
    assert_eq!(data[0], vec![10]);
    assert_eq!(data[2], vec![30]);
    assert_eq!(m.name_at(0).as_str(), "x");
    assert_eq!(m.name_at(2).as_str(), "z");
}

#[test]
fn colors_are_opaque_and_stable_between_resets() {
    let mut m = CounterV2::new("c".to_string());
    m.update(tick(&[("a", 1), ("b", 2)]));
    let c0 = m.color(0);
    let c1 = m.color(1);
    assert_eq!(c0[3], 255);
    assert_eq!(c1[3], 255);
    // same instance count: colors stay assigned
    m.update(tick(&[("a", 9), ("b", 8)]));
    assert_eq!(m.color(0), c0);
    assert_eq!(m.color(1), c1);
}

#[test]
fn names_kept_while_cardinality_is_stable() {
    let mut m = CounterV2::new("c".to_string());
    m.update(tick(&[("a", 1), ("b", 2)]));
    // a tick with the same count does not re-record names
    m.update(tick(&[("q", 3), ("r", 4)]));
    assert_eq!(m.name_at(0).as_str(), "a");
    assert_eq!(m.name_at(1).as_str(), "b");
}

#[test]
fn spline_hand_solved_three_samples() {
    // single instance with samples 1.0, 2.0, 3.0: the natural spline is
    // the straight line, so b = 1 everywhere and c = d = 0
    let curve = InterpolatedCurve::new(vec![1000, 2000, 3000]);
    assert_eq!(curve.seg_count(), 2);
    assert_eq!(curve.coefficients(0), (1000, 1000, 0, 0));
    assert_eq!(curve.coefficients(1), (2000, 1000, 0, 0));
}

#[test]
fn spline_passes_through_knots() {
    let samples: Vec<i64> = vec![0, 10_000, 0, 5_000, 5_000];
    let curve = InterpolatedCurve::new(samples.clone());
    for j in 0..curve.seg_count() {
        assert_eq!(curve.interpolate((j as i64) * 1000, j), samples[j]);
    }
}

#[test]
fn spline_peak_coefficients() {
    // samples 0, 10.0, 0: one tridiagonal step, solved by hand in
    // milli-units: z1 = -15000, c = [0, -15000, 0], b = [15000, 0],
    // d = [-5000, 5000]
    let curve = InterpolatedCurve::new(vec![0, 10_000, 0]);
    assert_eq!(curve.coefficients(0), (0, 15_000, 0, -5_000));
    assert_eq!(curve.coefficients(1), (10_000, 0, -15_000, 5_000));
}

#[test]
fn display_range_blends_between_floors() {
    let mut m = CounterV2::new("c".to_string());
    m.update(tick(&[("a", 1000)]));
    m.update(tick(&[("a", 3000)]));
    // previous floor: max(1, max(1.0, 2*1.0)) = 2.0;
    // current floor: max(1, max(3.0, 2*2.0)) = 4.0
    assert_eq!(m.display_range(0), 2000);
    assert_eq!(m.display_range(500), 3000);
    assert_eq!(m.display_range(999), 3998);
}

#[test]
fn display_range_never_below_one() {
    let mut m = CounterV2::new("c".to_string());
    assert_eq!(m.display_range(0), 1000);
    m.update(tick(&[("a", 0)]));
    assert_eq!(m.display_range(500), 1000);
    m.update(tick(&[("a", -5_000)]));
    for t in [0, 250, 999] {
        assert!(m.display_range(t) >= 1000);
    }
}

#[test]
fn display_range_grows_only_with_current_floor() {
    // same history prefix, larger current peak: the blended range is
    // pointwise at least as large at every elapsed fraction
    let mut low = CounterV2::new("c".to_string());
    let mut high = CounterV2::new("c".to_string());
    low.update(tick(&[("a", 1000)]));
    high.update(tick(&[("a", 1000)]));
    low.update(tick(&[("a", 2000)]));
    high.update(tick(&[("a", 3000)]));
    for t in [0, 125, 500, 999] {
        assert!(high.display_range(t) >= low.display_range(t));
    }
}

#[test]
fn tessellation_decoration_scales_with_panels() {
    let mut q = QueryV2::new();
    q.add_counter("a".to_string());
    q.add_counter("b".to_string());
    q.update(vec![tick(&[("i", 1000)]), tick(&[("j", 2000)])]);
    let f = tessellate(&q, 1680, 800, 144, -10_000, -10_000, 0);
    // sixteen atlas quads and three base quads per panel, two labels each
    assert_eq!(f.textured.len(), 2 * 16 * 6);
    assert_eq!(f.solid.len(), 2 * 3 * 6);
    assert_eq!(f.texts.len(), 2 * 2);
}

#[test]
fn layout_columns_cover_panels() {
    for n in 1..40usize {
        let l = layout(n, 1680, 800, 144);
        assert!(l.columns >= 1);
        assert!(l.columns <= n);
        assert!(l.columns * l.rows >= n);
    }
}

#[test]
fn layout_seven_panels_four_columns() {
    // 1680 px at base DPI fit exactly four minimum-width panels
    let l = layout(7, 1680, 800, 144);
    assert_eq!(l.columns, 4);
    assert_eq!(l.rows, 2);
    // first-row panels split the width four ways: cell width 420 px
    let r0 = panel_rect(0, 7, 1680, 800, 144);
    let r1 = panel_rect(1, 7, 1680, 800, 144);
    // cell 0 spans [0, 420000) milli-pixels, cell 1 starts at 420000
    assert_eq!(r0.x1, 0 + 32_000); // outer margin on the viewport edge
    assert_eq!(r0.x2, 420_000 - 22_000); // inner margin on a shared edge
    assert_eq!(r1.x1, 420_000 + 22_000);
    // the last row has 3 panels of width 1680/3 = 560 px, not 420
    let r4 = panel_rect(4, 7, 1680, 800, 144);
    let r5 = panel_rect(5, 7, 1680, 800, 144);
    assert_eq!(r4.x1, 0 + 32_000);
    assert_eq!(r4.x2, 560_000 - 22_000);
    assert_eq!(r5.x1, 560_000 + 22_000);
    assert_eq!(r5.x2, 1_120_000 - 22_000);
}

#[test]
fn counter_paths_round_trip_through_json() {
    let saved: Vec<String> =
        vec!["\\Memory\\Available MBytes".to_string(), "\\System\\Processes".to_string()];
    let mut q = QueryV2::new();
    q.add_saved_counters(saved.clone());
    let paths = q.counter_paths();
    assert_eq!(paths, saved);
    // the collaborator's save/load cycle: serialize, parse back, re-add
    let json = serde_json::to_string(&paths).expect("serialize");
    let loaded: Vec<String> = serde_json::from_str(&json).expect("parse");
    let mut q2 = QueryV2::new();
    q2.add_saved_counters(loaded);
    assert_eq!(q2.counter_paths(), saved);
}

#[test]
fn add_and_remove_counters() {
    let mut q = QueryV2::new();
    q.add_counter("a".to_string());
    q.add_counter("b".to_string());
    q.add_counter("c".to_string());
    assert_eq!(q.counter_count(), 3);
    let id_b = q.counter_id_at(1);
    q.remove_counter(id_b);
    assert_eq!(q.counter_paths(), vec!["a".to_string(), "c".to_string()]);
    // ids keep growing after removals: nothing is reused
    q.add_counter("d".to_string());
    assert_eq!(q.counter_id_at(2), 4);
    q.remove_all_counter();
    assert_eq!(q.counter_count(), 0);
}

#[test]
fn query_update_dispatches_per_position() {
    let mut q = QueryV2::new();
    q.add_counter("a".to_string());
    q.add_counter("b".to_string());
    q.update(vec![tick(&[("x", 1500)]), None]);
    assert_eq!(q.counter_at(0).instances(), 1);
    assert_eq!(q.counter_at(1).instances(), 0);
    assert_eq!(q.counter_at(0).ticks_ingested(), 1);
    assert_eq!(q.counter_at(1).ticks_ingested(), 0);
}

#[test]
fn tessellation_is_idempotent() {
    let mut q = QueryV2::new();
    q.add_counter("a".to_string());
    q.add_counter("b".to_string());
    for k in 0..5i64 {
        q.update(vec![tick(&[("i", 1000 * k), ("j", 500 * k)]), tick(&[("s", 777)])]);
    }
    let f1 = tessellate(&q, 1680, 800, 144, 100, 100, 330);
    let f2 = tessellate(&q, 1680, 800, 144, 100, 100, 330);
    assert_eq!(f1.solid, f2.solid);
    assert_eq!(f1.textured, f2.textured);
    assert_eq!(f1.texts, f2.texts);
    assert!(!f1.solid.is_empty());
    assert!(!f1.textured.is_empty());
}

#[test]
fn tessellation_panel_structure() {
    let mut q = QueryV2::new();
    q.add_counter("only".to_string());
    q.update(vec![tick(&[("a", 1000)])]);
    // one tick kept: no curves yet, so one panel of three solid quads
    let f = tessellate(&q, 1680, 800, 144, -10_000, -10_000, 0);
    assert_eq!(f.solid.len(), 3 * 6);
    assert_eq!(f.textured.len(), 16 * 6);
    // cursor far outside: only the two value labels
    assert_eq!(f.texts.len(), 2);
    assert_eq!(f.texts[0].text, "1");
    assert!(f.texts[0].centered);
}

#[test]
fn tessellation_hover_tooltip() {
    let mut q = QueryV2::new();
    q.add_counter("\\Disk\\Reads".to_string());
    q.update(vec![tick(&[("a", 1000)])]);
    // cursor well inside the single panel
    let f = tessellate(&q, 1680, 800, 144, 500, 300, 0);
    assert_eq!(f.texts.len(), 3);
    assert_eq!(f.texts[2].text, "\\Disk\\Reads");
    assert!(!f.texts[2].centered);
}

#[test]
fn tessellation_draws_curve_ribbons() {
    let mut q = QueryV2::new();
    q.add_counter("a".to_string());
    q.update(vec![tick(&[("i", 1000)])]);
    let without_curve = tessellate(&q, 1680, 800, 144, -10_000, -10_000, 0).solid.len();
    q.update(vec![tick(&[("i", 2000)])]);
    q.update(vec![tick(&[("i", 1500)])]);
    let with_curve = tessellate(&q, 1680, 800, 144, -10_000, -10_000, 0).solid.len();
    // the ribbon and its two cover strips add quads beyond the base three
    assert!(with_curve > without_curve + 2 * 6);
}

#[test]
fn quantization_formulas() {
    assert_eq!(quantize(-5, 1000), 0);
    assert_eq!(quantize(0, 1000), 0);
    assert_eq!(quantize(500, 1000), 32767); // 500 * 65535 / 1000, truncated
    assert_eq!(quantize(1000, 1000), 65535);
    assert_eq!(quantize(2000, 1000), 65535); // saturates past the extent
    assert_eq!(uv_quant(0), 0);
    assert_eq!(uv_quant(250), 16383);
    assert_eq!(uv_quant(1000), 65535);
}

#[test]
fn integer_square_roots() {
    assert_eq!(isqrt(0), 0);
    assert_eq!(isqrt(1), 1);
    assert_eq!(isqrt(15), 3);
    assert_eq!(isqrt(16), 4);
    assert_eq!(isqrt(1_000_000_000_000_000_000), 1_000_000_000);
}

#[test]
fn decimal_rendering() {
    assert_eq!(u64_to_string(0), "0");
    assert_eq!(u64_to_string(7), "7");
    assert_eq!(u64_to_string(1234567890), "1234567890");
}
