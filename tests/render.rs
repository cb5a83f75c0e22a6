use explora::stages::{run_order, stage_edges, Stage};
use explora::frame::{on_frame_error, resized_surface, FrameAction, FrameError};
use explora::index_buffer::{
    compute_terrain_indices, fits_index_range, index_count, SharedIndexBuffer,
};

#[test]
fn indices_follow_quad_pattern() {
    assert_eq!(compute_terrain_indices(8), vec![0, 1, 2, 2, 3, 0, 4, 5, 6, 6, 7, 4]);
    assert_eq!(compute_terrain_indices(0), Vec::<u32>::new());
    assert_eq!(compute_terrain_indices(3), Vec::<u32>::new());
    let v = compute_terrain_indices(4000);
    assert_eq!(v.len(), 6000);
    assert_eq!(&v[5994..], &[3996, 3997, 3998, 3998, 3999, 3996]);
}

#[test]
fn index_buffer_grows_for_larger_upload() {
    let (mut buffer, data) = SharedIndexBuffer::for_vertices(2000);
    assert_eq!(buffer.capacity(), 3000);
    assert_eq!(data.len(), 3000);
    let grown = buffer.check_index_buffer(4000).expect("the buffer must be rebuilt");
    assert_eq!(grown.len(), 6000);
    assert!(buffer.capacity() >= 4000 / 4 * 6);
    assert_eq!(grown, compute_terrain_indices(4000));
}

#[test]
fn index_buffer_kept_when_large_enough() {
    let (mut buffer, _) = SharedIndexBuffer::for_vertices(5000);
    assert_eq!(buffer.capacity(), 7500);
    assert!(buffer.check_index_buffer(4000).is_none());
    assert!(buffer.check_index_buffer(5000).is_none());
    assert_eq!(buffer.capacity(), 7500);
    assert!(buffer.check_index_buffer(5004).is_some());
    assert_eq!(buffer.capacity(), 7506);
}

#[test]
fn vertex_count_limit_of_index_type() {
    assert!(fits_index_range(0));
    assert!(fits_index_range(u32::MAX as usize));
    if usize::BITS > 32 {
        assert!(!fits_index_range(u32::MAX as usize + 1));
    }
}

#[test]
fn draw_index_count() {
    assert_eq!(index_count(4000), 6000);
    assert_eq!(index_count(7), 6);
    assert_eq!(index_count(0), 0);
    assert_eq!(index_count(u32::MAX as usize), (u32::MAX as u64) / 4 * 6);
}

#[test]
fn frame_errors_policy() {
    assert_eq!(on_frame_error(FrameError::Timeout), FrameAction::Skip);
    assert_eq!(on_frame_error(FrameError::Outdated), FrameAction::Skip);
    assert_eq!(on_frame_error(FrameError::Lost), FrameAction::Reconfigure);
    assert_eq!(on_frame_error(FrameError::OutOfMemory), FrameAction::Abort);
}

#[test]
fn resize_ignores_zero_sides() {
    assert_eq!(resized_surface((800, 600), 0, 0), (800, 600));
    assert_eq!(resized_surface((800, 600), 1024, 0), (800, 600));
    assert_eq!(resized_surface((800, 600), 1024, 768), (1024, 768));
}

#[test]
fn stages_run_in_declared_order() {
    let order = run_order();
    assert_eq!(
        order,
        vec![Stage::PreRender, Stage::Render, Stage::UiDrawWidgets, Stage::UiRender, Stage::PostRender]
    );
    for (before, after) in stage_edges() {
        let a = order.iter().position(|s| *s == before).unwrap();
        let b = order.iter().position(|s| *s == after).unwrap();
        assert!(a < b);
    }
    assert_eq!(stage_edges().len(), 4);
}
