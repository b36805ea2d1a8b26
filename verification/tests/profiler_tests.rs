use raytracer::profiler::{
    get_delta_time, print_profile, profiler_reset, profiler_start, profiler_stop, Profiler,
};

#[test]
fn spans_outside_main_go_to_the_persistent_table() {
    let mut p = Profiler::new();
    profiler_start(&mut p, "init".to_string(), 0);
    profiler_stop(&mut p, "init", 250);
    assert_eq!(p.persistent_entries.len(), 1);
    assert_eq!(p.frame_entries.len(), 0);
    assert_eq!(p.persistent_entries[0].name, "init");
    assert_eq!(p.persistent_entries[0].nanos, 250);
    assert_eq!(p.persistent_entries[0].count, 1);
    assert_eq!(p.persistent_entries[0].depth, 0);
}

#[test]
fn spans_inside_main_go_to_the_frame_table() {
    let mut p = Profiler::new();
    profiler_start(&mut p, "main".to_string(), 0);
    profiler_start(&mut p, "render".to_string(), 10);
    profiler_stop(&mut p, "render", 60);
    profiler_stop(&mut p, "main", 100);
    assert_eq!(p.persistent_entries.len(), 0);
    assert_eq!(p.frame_entries.len(), 2);
    assert_eq!(p.frame_entries[0].name, "render");
    assert_eq!(p.frame_entries[0].depth, 1);
    assert_eq!(p.frame_entries[0].nanos, 50);
    assert_eq!(p.frame_entries[1].name, "main");
    assert_eq!(p.frame_entries[1].depth, 0);
}

#[test]
fn closing_main_records_the_frame_time() {
    let mut p = Profiler::new();
    profiler_start(&mut p, "main".to_string(), 1000);
    profiler_stop(&mut p, "main", 17_000);
    assert_eq!(get_delta_time(&p), 16_000);
}

#[test]
fn repeated_spans_fold_into_one_row() {
    let mut p = Profiler::new();
    profiler_start(&mut p, "main".to_string(), 0);
    for k in 0..3 {
        profiler_start(&mut p, "draw".to_string(), 100 * k);
        profiler_stop(&mut p, "draw", 100 * k + 30);
    }
    profiler_stop(&mut p, "main", 1000);
    assert_eq!(p.frame_entries.len(), 2);
    assert_eq!(p.frame_entries[0].name, "draw");
    assert_eq!(p.frame_entries[0].nanos, 90);
    assert_eq!(p.frame_entries[0].count, 3);
}

#[test]
fn same_name_at_different_depths_stays_separate() {
    let mut p = Profiler::new();
    profiler_start(&mut p, "main".to_string(), 0);
    profiler_start(&mut p, "work".to_string(), 0);
    profiler_start(&mut p, "work".to_string(), 0);
    profiler_stop(&mut p, "work", 5);
    profiler_stop(&mut p, "work", 10);
    profiler_stop(&mut p, "main", 20);
    assert_eq!(p.frame_entries.len(), 3);
    assert_eq!(p.frame_entries[0].depth, 2);
    assert_eq!(p.frame_entries[1].depth, 1);
}

#[test]
fn reset_clears_the_frame_but_not_the_persistent_table() {
    let mut p = Profiler::new();
    profiler_start(&mut p, "setup".to_string(), 0);
    profiler_stop(&mut p, "setup", 40);
    profiler_start(&mut p, "main".to_string(), 0);
    profiler_start(&mut p, "draw".to_string(), 0);
    profiler_stop(&mut p, "draw", 10);
    profiler_stop(&mut p, "main", 20);
    profiler_reset(&mut p);
    assert_eq!(p.frame_entries.len(), 0);
    assert_eq!(p.persistent_entries.len(), 1);
    assert_eq!(p.stack.len(), 0);
    assert_eq!(get_delta_time(&p), 20);
}

#[test]
fn report_lists_persistent_rows_before_frame_rows() {
    let mut p = Profiler::new();
    profiler_start(&mut p, "setup".to_string(), 0);
    profiler_stop(&mut p, "setup", 40);
    profiler_start(&mut p, "main".to_string(), 0);
    profiler_stop(&mut p, "main", 25);
    let rows = print_profile(&p);
    assert_eq!(rows.len(), 2);
    assert_eq!(rows[0].name, "setup");
    assert_eq!(rows[0].nanos, 40);
    assert_eq!(rows[1].name, "main");
    assert_eq!(rows[1].nanos, 25);
}

#[test]
fn a_backwards_clock_counts_as_zero() {
    let mut p = Profiler::new();
    profiler_start(&mut p, "odd".to_string(), 100);
    profiler_stop(&mut p, "odd", 50);
    assert_eq!(p.persistent_entries[0].nanos, 0);
}
