use pathtracer::progress::ExportStep;
use pathtracer::{Average, Progress, TracingOutput};

#[test]
fn average_counts_samples() {
    let mut a = Average::default();
    assert_eq!(a.sample(), 0);
    a.next_frame();
    a.next_frame();
    assert_eq!(a.sample(), 2);
    a.set_sample(10);
    assert_eq!(a.sample(), 10);
    a.reset();
    assert_eq!(a.sample(), 0);
}

#[test]
fn cancel_at_sample_ten_keeps_counter_until_next_sample() {
    let mut p = Progress::new();
    for _ in 0..10 {
        assert!(p.ready_for_sample(false));
        p.start_new_sample(6);
        for _ in 0..6 {
            p.tile_received();
        }
    }
    assert_eq!(p.average.sample(), 10);
    p.start_new_sample(6);
    p.tile_received();
    assert_eq!(p.average.sample(), 11);
    p.reset_tracing();
    assert!(p.cancel);
    assert_eq!(p.average.sample(), 11);
    assert!(!p.ready_for_sample(false));
    for _ in 0..5 {
        p.tile_received();
    }
    assert_eq!(p.pending, 0);
    assert!(p.ready_for_sample(false));
    assert!(!p.ready_for_sample(true));
    assert_eq!(p.average.sample(), 11);
    assert!(p.start_new_sample(6));
    assert_eq!(p.average.sample(), 1);
    assert!(!p.cancel);
    assert_eq!(p.pending, 6);
}

#[test]
fn pending_reset_applies_once() {
    let mut p = Progress::new();
    p.apply_reset_pending();
    assert!(!p.reset);
    p.request_reset();
    p.apply_reset_pending();
    assert!(p.reset && p.cancel && !p.reset_pending);
}

#[test]
fn export_renders_aux_passes_first() {
    let mut p = Progress::new();
    assert_eq!(p.export_step(4), ExportStep::TraceAlbedo);
    assert_eq!(p.output, TracingOutput::Albedo);
    assert_eq!(p.pending, 4);
    assert_eq!(p.export_step(4), ExportStep::TraceNormals);
    assert_eq!(p.output, TracingOutput::Normals);
    assert_eq!(p.export_step(4), ExportStep::Save);
    assert_eq!(p.output, TracingOutput::Output);
    p.scene_changed();
    assert!(!p.has_albedo && !p.has_normals && p.reset);
    p.exit();
    assert!(p.cancel);
}
