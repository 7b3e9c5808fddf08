use watcher_server::assets::AssetList;
use watcher_server::upload::{Upload, UploadAction, UploadEvent};

fn respond(a: UploadAction<String>) -> (u16, String) {
    match a {
        UploadAction::Respond { status, body } => (status, body),
        _ => panic!("expected a response"),
    }
}

fn known() -> AssetList {
    let mut l = AssetList::new();
    l.sync(&vec![(1, "taken.png".to_string())]);
    l
}

fn to_field(u: &mut Upload, l: &AssetList) {
    let a = u.step(UploadEvent::DirCreated, l);
    assert!(matches!(a, UploadAction::NextField));
}

#[test]
fn successful_upload() {
    let l = known();
    let (mut u, a) = Upload::start(&"uploads".to_string());
    assert!(matches!(a, UploadAction::CreateDir(ref d) if d == "uploads"));
    to_field(&mut u, &l);
    let a = u.step(UploadEvent::NamedField("new.png".to_string()), &l);
    assert!(matches!(a, UploadAction::ReadData));
    let a = u.step(UploadEvent::DataRead, &l);
    match a {
        UploadAction::CreateFile { dir, file_name } => {
            assert_eq!(dir, "uploads");
            assert_eq!(file_name, "new.png");
        }
        _ => panic!("expected file creation"),
    }
    let a = u.step(UploadEvent::FileCreated, &l);
    assert!(matches!(a, UploadAction::WriteData));
    let a = u.step(UploadEvent::Written, &l);
    assert_eq!(respond(a), (200, "File uploaded successfully as new.png".to_string()));
    assert!(!u.accepts(&UploadEvent::Written));
}

#[test]
fn duplicate_name_is_refused() {
    let l = known();
    let (mut u, _) = Upload::start(&"d".to_string());
    to_field(&mut u, &l);
    let a = u.step(UploadEvent::NamedField("taken.png".to_string()), &l);
    assert_eq!(respond(a), (400, "File taken.png already exists".to_string()));
}

#[test]
fn unnamed_fields_are_skipped() {
    let l = known();
    let (mut u, _) = Upload::start(&"d".to_string());
    to_field(&mut u, &l);
    let a = u.step(UploadEvent::UnnamedField, &l);
    assert!(matches!(a, UploadAction::NextField));
    let a = u.step(UploadEvent::NoMoreFields, &l);
    assert_eq!(respond(a), (400, "No file provided".to_string()));
}

#[test]
fn directory_failure() {
    let l = known();
    let (mut u, _) = Upload::start(&"d".to_string());
    let a = u.step(UploadEvent::DirFailed, &l);
    assert_eq!(respond(a), (500, "Failed to create upload directory".to_string()));
}

#[test]
fn read_create_and_write_failures() {
    let l = known();
    let (mut u, _) = Upload::start(&"d".to_string());
    to_field(&mut u, &l);
    u.step(UploadEvent::NamedField("f".to_string()), &l);
    assert_eq!(respond(u.step(UploadEvent::DataFailed, &l)), (400, "Failed to read file data".to_string()));

    let (mut u, _) = Upload::start(&"d".to_string());
    to_field(&mut u, &l);
    u.step(UploadEvent::NamedField("f".to_string()), &l);
    u.step(UploadEvent::DataRead, &l);
    assert_eq!(respond(u.step(UploadEvent::FileFailed, &l)), (500, "Failed to save file".to_string()));

    let (mut u, _) = Upload::start(&"d".to_string());
    to_field(&mut u, &l);
    u.step(UploadEvent::NamedField("f".to_string()), &l);
    u.step(UploadEvent::DataRead, &l);
    u.step(UploadEvent::FileCreated, &l);
    assert_eq!(respond(u.step(UploadEvent::WriteFailed, &l)), (500, "Failed to save file".to_string()));
}

#[test]
fn accepts_only_expected_events() {
    let l = known();
    let (u, _) = Upload::start(&"d".to_string());
    assert!(u.accepts(&UploadEvent::DirCreated));
    assert!(!u.accepts(&UploadEvent::Written));
    let _ = l;
}
