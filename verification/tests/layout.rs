use rpmoci::layout::{
    check_marker, find_marker, init_actions, init_dir, init_dir_with, init_image_directory,
    marker_document,
    survey, Action, LayoutError, Observed, OciImageLayout, Plan, Step, OCI_LAYOUT_VERSION,
};

const MARKER: &str = r#"{"imageLayoutVersion":"1.0.0"}"#;
const INDEX: &str = r#"{"schemaVersion":2,"manifests":[]}"#;

fn store_actions() -> Vec<Action> {
    vec![
        Action::CreateDir { path: "blobs/sha256".to_string() },
        Action::WriteFile { path: "oci-layout".to_string(), content: MARKER.to_string() },
        Action::WriteFile { path: "index.json".to_string(), content: INDEX.to_string() },
    ]
}

fn names(list: &[&str]) -> Vec<String> {
    list.iter().map(|s| s.to_string()).collect()
}

#[test]
fn test_init() {
    let step = init_image_directory(&Observed::Missing).unwrap();
    let mut expected = vec![Action::CreateRoot];
    expected.extend(store_actions());
    assert_eq!(step, Step::Perform(expected));
}

#[test]
fn empty_directory_is_laid_out() {
    let step = init_image_directory(&Observed::Listed(Vec::new())).unwrap();
    assert_eq!(step, Step::Perform(store_actions()));
    assert_eq!(init_dir(), Ok(store_actions()));
    assert_eq!(init_dir(), init_dir());
}

#[test]
fn missing_and_empty_get_the_same_files() {
    let missing = init_image_directory(&Observed::Missing).unwrap();
    let empty = init_image_directory(&Observed::Listed(Vec::new())).unwrap();
    match (missing, empty) {
        (Step::Perform(a), Step::Perform(b)) => {
            assert_eq!(a[0], Action::CreateRoot);
            assert_eq!(a[1..], b[..]);
        }
        _ => panic!("both are to be laid out"),
    }
}

#[test]
fn marker_of_a_new_store() {
    let layout = OciImageLayout::default();
    assert_eq!(layout.version, "1.0.0");
    assert_eq!(OCI_LAYOUT_VERSION, "1.0.0");
    assert_eq!(marker_document(), Some(MARKER.to_string()));
}

#[test]
fn steps_come_in_their_order() {
    let actions = init_actions("m".to_string(), "i".to_string());
    assert_eq!(
        actions,
        vec![
            Action::CreateDir { path: "blobs/sha256".to_string() },
            Action::WriteFile { path: "oci-layout".to_string(), content: "m".to_string() },
            Action::WriteFile { path: "index.json".to_string(), content: "i".to_string() },
        ]
    );
}

#[test]
fn directory_with_marker_is_read_not_written() {
    let observed = Observed::Listed(names(&["blobs", "index.json", "oci-layout"]));
    assert_eq!(survey(&observed), Ok(Plan::ReadMarker));
    assert_eq!(init_image_directory(&observed), Ok(Step::ReadMarker));
    let only = Observed::Listed(names(&["oci-layout"]));
    assert_eq!(init_image_directory(&only), Ok(Step::ReadMarker));
}

#[test]
fn foreign_directory_is_refused() {
    let observed = Observed::Listed(names(&["notes.txt"]));
    assert_eq!(survey(&observed), Err(LayoutError::NotImageDirectory));
    assert_eq!(init_image_directory(&observed), Err(LayoutError::NotImageDirectory));
    let near = Observed::Listed(names(&["oci-layout.bak", "OCI-LAYOUT", "index.json"]));
    assert_eq!(init_image_directory(&near), Err(LayoutError::NotImageDirectory));
}

#[test]
fn unreadable_path_is_an_error() {
    assert_eq!(survey(&Observed::Unreadable), Err(LayoutError::Unreadable));
    assert_eq!(init_image_directory(&Observed::Unreadable), Err(LayoutError::Unreadable));
}

#[test]
fn missing_and_empty_are_planned() {
    assert_eq!(survey(&Observed::Missing), Ok(Plan::CreateAndInitialize));
    assert_eq!(survey(&Observed::Listed(Vec::new())), Ok(Plan::Initialize));
}

#[test]
fn marker_is_found_by_its_exact_name() {
    assert!(find_marker(&names(&["a", "oci-layout"])));
    assert!(!find_marker(&names(&["a", "oci-layout2", "oci"])));
    assert!(!find_marker(&Vec::new()));
}

#[test]
fn known_version_is_accepted() {
    let layout = OciImageLayout { version: "1.0.0".to_string() };
    assert_eq!(check_marker(&layout), Ok(()));
}

#[test]
fn other_version_is_refused_and_reported() {
    let layout = OciImageLayout { version: "2.0.0".to_string() };
    assert_eq!(
        check_marker(&layout),
        Err(LayoutError::UnrecognizedVersion { version: "2.0.0".to_string() })
    );
    let empty = OciImageLayout { version: String::new() };
    assert_eq!(
        check_marker(&empty),
        Err(LayoutError::UnrecognizedVersion { version: String::new() })
    );
}

#[test]
fn documents_as_encoded_make_the_steps() {
    assert_eq!(
        init_dir_with(Some(MARKER.to_string()), Some(INDEX.to_string())),
        Ok(store_actions())
    );
    assert_eq!(init_dir_with(marker_document(), Some(INDEX.to_string())), init_dir());
}

#[test]
fn missing_document_is_reported() {
    assert_eq!(init_dir_with(None, Some(INDEX.to_string())), Err(LayoutError::Encoding));
    assert_eq!(init_dir_with(Some(MARKER.to_string()), None), Err(LayoutError::Encoding));
    assert_eq!(init_dir_with(None, None), Err(LayoutError::Encoding));
}
