use mdu::directory::{
    add_directory, get_directories, remove_directory, DirectoryState, DirectoryType,
};
use mdu::services::drive_type_name;

#[test]
fn new_state_holds_the_default_download_directory() {
    let state = DirectoryState::new("/home/u/Downloads".to_string());
    assert_eq!(state.directories.len(), 1);
    assert_eq!(state.directories[0].path, "/home/u/Downloads");
    assert_eq!(state.directories[0].id.len(), 36);
    assert_eq!(state.directories[0].id.matches('-').count(), 4);
    assert_eq!(state.get_download_directory("/fallback".to_string()), "/home/u/Downloads");
}

#[test]
fn directories_are_added_filtered_and_removed() {
    let mut state = DirectoryState::new("/dl".to_string());
    assert!(add_directory(&mut state, "/nope".to_string(), DirectoryType::Manga, false, false).is_err());
    assert!(add_directory(&mut state, "/file".to_string(), DirectoryType::Manga, true, false).is_err());
    assert_eq!(state.directories.len(), 1);
    let manga = add_directory(&mut state, "/manga".to_string(), DirectoryType::Manga, true, true).unwrap();
    assert_ne!(manga.id, state.directories[0].id);
    let mangas = get_directories(&state, Some(DirectoryType::Manga));
    assert_eq!(mangas.len(), 1);
    assert_eq!(mangas[0].path, "/manga");
    assert_eq!(get_directories(&state, None).len(), 2);
    let first = state.directories[0].id.clone();
    remove_directory(&mut state, &first);
    assert_eq!(state.directories.len(), 1);
    assert_eq!(state.get_download_directory("/fallback".to_string()), "/fallback");
}

#[test]
fn drive_types_have_labels() {
    assert_eq!(drive_type_name(2), "Removable");
    assert_eq!(drive_type_name(3), "Local Disk");
    assert_eq!(drive_type_name(5), "CD-ROM");
    assert_eq!(drive_type_name(9), "Unknown");
}
