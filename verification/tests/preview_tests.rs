use wallpaper_state::geometry::Geometry;
use wallpaper_state::preview::{PreviewMode, UiState};

#[test]
fn default_state_shows_the_source_crop() {
    let ui = UiState::default();
    assert!(!ui.show_filelist);
    assert!(!ui.show_faces);
    assert_eq!(ui.preview_mode, PreviewMode::Source);
}

#[test]
fn reset_restores_the_default_from_any_state() {
    let mut ui = UiState {
        show_filelist: true,
        show_faces: true,
        preview_mode: PreviewMode::Manual,
    };
    ui.reset();
    assert_eq!(ui, UiState::default());

    let hover = Geometry { x: 10, y: 20, w: 300, h: 400 };
    let mut ui = UiState {
        show_filelist: false,
        show_faces: true,
        preview_mode: PreviewMode::Candidate(Some(hover)),
    };
    ui.reset();
    assert!(!ui.show_filelist);
    assert!(!ui.show_faces);
    assert_eq!(ui.preview_mode, PreviewMode::Source);
}

#[test]
fn candidate_mode_keeps_the_hover_geometry() {
    let hover = Geometry { x: 1, y: 2, w: 3, h: 4 };
    let mode = PreviewMode::Candidate(Some(hover));
    match mode {
        PreviewMode::Candidate(Some(g)) => assert_eq!(g, hover),
        _ => panic!("expected a held candidate"),
    }
    assert_eq!(PreviewMode::Candidate(None), PreviewMode::Candidate(None));
}
