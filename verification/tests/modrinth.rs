use modpack_installer::modrinth::{Modrinth, ModrinthError, ModrinthFile, ModrinthVersion};

fn file(url: &str, primary: bool) -> ModrinthFile {
    ModrinthFile { url: url.to_string(), primary }
}

fn version(project_id: &str, files: Vec<ModrinthFile>) -> ModrinthVersion {
    ModrinthVersion { project_id: project_id.to_string(), files }
}

#[test]
fn the_primary_file_is_chosen() {
    let v = version("proj-a", vec![file("https://cdn/a.jar", false), file("https://cdn/b.jar", true), file("https://cdn/c.jar", true)]);
    assert_eq!(Modrinth::get_download_url("proj-a", "ver-1", &v), Ok("https://cdn/b.jar".to_string()));
}

#[test]
fn the_first_file_is_chosen_when_none_is_primary() {
    let v = version("proj-a", vec![file("https://cdn/a.jar", false), file("https://cdn/b.jar", false)]);
    assert_eq!(Modrinth::get_download_url("proj-a", "ver-1", &v), Ok("https://cdn/a.jar".to_string()));
}

#[test]
fn a_version_of_another_project_is_refused() {
    let v = version("proj-b", vec![file("https://cdn/a.jar", true)]);
    let error = Modrinth::get_download_url("proj-a", "ver-1", &v).unwrap_err();
    assert_eq!(
        error,
        ModrinthError::ProjectMismatch { expected: "proj-a".to_string(), actual: "proj-b".to_string() }
    );
    assert_eq!(error.message(), "Project ID mismatch: expected proj-a, got proj-b.");
}

#[test]
fn a_version_without_files_is_refused() {
    let v = version("proj-a", Vec::new());
    let error = Modrinth::get_download_url("proj-a", "ver-1", &v).unwrap_err();
    assert_eq!(
        error,
        ModrinthError::NoFiles { version_id: "ver-1".to_string(), project_id: "proj-a".to_string() }
    );
    assert_eq!(error.message(), "No files found for version ver-1 of project proj-a.");
}
