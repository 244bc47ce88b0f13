use category_api::error::ApiError;
use category_api::object_id::ObjectId;
use category_api::upload::{
    extension_of, image_path, initial_state, step, UploadAction, UploadEvent, UploadState,
};

fn part_begin(name: &str) -> UploadEvent {
    UploadEvent::PartBegin { filename: Some(name.to_string()) }
}

/// Drive one part through the pipeline, checking each action on the way, and
/// return the state that awaits the next part.
fn run_one_part(state: UploadState, filename: &str, counter: u64, chunks: usize) -> UploadState {
    let (state, action) = step(state, part_begin(filename));
    assert!(matches!(action, UploadAction::Mint));
    let oid = ObjectId::mint(counter);
    let hex = oid.to_hex();
    let (state, action) = step(state, UploadEvent::Minted { id: oid });
    let ext = extension_of(filename).expect("the filename has an extension");
    match action {
        UploadAction::Open { path } => assert_eq!(path, format!("images/{}.{}", hex, ext)),
        _ => panic!("the pipeline must open the destination file"),
    }
    let (mut state, action) = step(state, UploadEvent::Opened);
    assert!(matches!(action, UploadAction::PullChunk));
    for _ in 0..chunks {
        let (next, action) = step(state, UploadEvent::ChunkWritten);
        assert!(matches!(action, UploadAction::PullChunk));
        state = next;
    }
    let (state, action) = step(state, UploadEvent::PartEnd);
    assert!(matches!(action, UploadAction::CloseThenPull));
    state
}

#[test]
fn upload_single_file_creates_one_file_and_reports_its_identifier() {
    let state = run_one_part(initial_state(), "photo.png", 4, 3);
    let (_, action) = step(state, UploadEvent::PartsDone);
    match action {
        UploadAction::Respond { id } => assert_eq!(id, ObjectId::mint(4).to_hex()),
        _ => panic!("the pipeline must respond with the identifier"),
    }
}

#[test]
fn upload_three_files_reports_only_the_last_identifier() {
    let state = run_one_part(initial_state(), "a.png", 1, 1);
    let state = run_one_part(state, "b.jpg", 2, 2);
    let state = run_one_part(state, "c.gif", 3, 0);
    let (_, action) = step(state, UploadEvent::PartsDone);
    match action {
        UploadAction::Respond { id } => assert_eq!(id, ObjectId::mint(3).to_hex()),
        _ => panic!("the pipeline must respond with the identifier"),
    }
}

#[test]
fn upload_with_no_parts_reports_the_empty_identifier() {
    let (_, action) = step(initial_state(), UploadEvent::PartsDone);
    match action {
        UploadAction::Respond { id } => assert_eq!(id, ""),
        _ => panic!("the pipeline must respond"),
    }
}

#[test]
fn malformed_part_fails_and_opens_no_file() {
    let (state, action) = step(initial_state(), UploadEvent::PartBegin { filename: None });
    assert!(matches!(action, UploadAction::Fail { err: ApiError::MalformedPart }));
    assert!(matches!(state, UploadState::Failed { err: ApiError::MalformedPart }));
}

#[test]
fn filename_without_extension_fails_after_minting() {
    let (state, action) = step(initial_state(), part_begin("noextension"));
    assert!(matches!(action, UploadAction::Mint));
    let (state, action) = step(state, UploadEvent::Minted { id: ObjectId::mint(1) });
    assert!(matches!(action, UploadAction::Fail { err: ApiError::MalformedPart }));
    assert!(matches!(state, UploadState::Failed { err: ApiError::MalformedPart }));
}

#[test]
fn mint_failure_fails_the_request() {
    let (state, _) = step(initial_state(), part_begin("photo.png"));
    let (state, action) = step(state, UploadEvent::MintFailed);
    assert!(matches!(action, UploadAction::Fail { err: ApiError::Store }));
    assert!(matches!(state, UploadState::Failed { err: ApiError::Store }));
}

#[test]
fn open_failure_fails_the_request() {
    let (state, _) = step(initial_state(), part_begin("photo.png"));
    let (state, _) = step(state, UploadEvent::Minted { id: ObjectId::mint(1) });
    let (state, action) = step(state, UploadEvent::OpenFailed);
    assert!(matches!(action, UploadAction::Fail { err: ApiError::Io }));
    assert!(matches!(state, UploadState::Failed { err: ApiError::Io }));
}

#[test]
fn chunk_failure_fails_the_request() {
    let (state, _) = step(initial_state(), part_begin("photo.png"));
    let (state, _) = step(state, UploadEvent::Minted { id: ObjectId::mint(1) });
    let (state, _) = step(state, UploadEvent::Opened);
    let (state, action) = step(state, UploadEvent::ChunkFailed);
    assert!(matches!(action, UploadAction::Fail { err: ApiError::Io }));
    assert!(matches!(state, UploadState::Failed { err: ApiError::Io }));
}

#[test]
fn extension_is_the_substring_after_the_last_dot() {
    assert_eq!(extension_of("photo.png").as_deref(), Some("png"));
    assert_eq!(extension_of("archive.tar.gz").as_deref(), Some("gz"));
    assert_eq!(extension_of("trailing.").as_deref(), Some(""));
    assert_eq!(extension_of("noextension"), None);
    assert_eq!(extension_of(""), None);
}

#[test]
fn image_path_is_exact() {
    assert_eq!(image_path("00ff", "png"), "images/00ff.png");
}
