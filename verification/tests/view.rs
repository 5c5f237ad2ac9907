use soundfarmer::ratio::Ratio;
use soundfarmer::view::{choose_edge, sample_index_for_column, wave_y, Edge};

#[test]
fn pointer_near_begin_grabs_begin() {
    let e = choose_edge(
        Ratio::new(1, 4).unwrap(),
        Ratio::new(0, 1).unwrap(),
        Ratio::new(1, 1).unwrap(),
    );
    assert_eq!(e, Edge::Begin);
}

#[test]
fn pointer_near_end_grabs_end() {
    let e = choose_edge(
        Ratio::new(3, 4).unwrap(),
        Ratio::new(0, 1).unwrap(),
        Ratio::new(1, 1).unwrap(),
    );
    assert_eq!(e, Edge::End);
}

#[test]
fn equidistant_pointer_grabs_end() {
    let e = choose_edge(
        Ratio::new(1, 2).unwrap(),
        Ratio::new(0, 1).unwrap(),
        Ratio::new(1, 1).unwrap(),
    );
    assert_eq!(e, Edge::End);
}

#[test]
fn mixed_denominators_compare_exactly() {
    // 0.3 is nearer to 1/4 than to 1/2.
    let e = choose_edge(
        Ratio::new(3, 10).unwrap(),
        Ratio::new(1, 4).unwrap(),
        Ratio::new(1, 2).unwrap(),
    );
    assert_eq!(e, Edge::Begin);
}

#[test]
fn marker_x_tracks_window_resize() {
    let half = Ratio::new(1, 2).unwrap();
    assert_eq!(half.scale(1024), 512);
    assert_eq!(half.scale(800), 400);
    let tenth = Ratio::new(1, 10).unwrap();
    assert_eq!(tenth.scale(1024), 102);
    assert_eq!(tenth.scale(800), 80);
}

#[test]
fn wave_y_scales_into_window_height() {
    assert_eq!(wave_y(0, 768), 0);
    assert_eq!(wave_y(255, 768), 768);
    assert_eq!(wave_y(128, 768), 385);
    assert_eq!(wave_y(128, 600), 301);
}

#[test]
fn column_index_tracks_window_resize() {
    assert_eq!(sample_index_for_column(3, 4, 10), 7);
    assert_eq!(sample_index_for_column(512, 1024, 8000), 4000);
    assert_eq!(sample_index_for_column(512, 800, 8000), 5120);
    assert_eq!(sample_index_for_column(799, 800, 8000), 7990);
}
