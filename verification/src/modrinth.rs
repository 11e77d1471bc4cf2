//! Choosing the file to download from what the Modrinth registry says of a
//! version.

use vstd::prelude::*;
use crate::config::views;

verus! {

/// A file of a version, as the registry describes it.
#[derive(Debug, PartialEq, Eq)]
pub struct ModrinthFile {
    pub url: String,
    /// Whether the registry marks the file as the version's primary one.
    pub primary: bool,
}

/// The mathematical value of a [`ModrinthFile`].
pub struct FileView {
    pub url: Seq<char>,
    pub primary: bool,
}

impl View for ModrinthFile {
    type V = FileView;

    open spec fn view(&self) -> FileView {
        FileView { url: self.url@, primary: self.primary }
    }
}

/// A version, as the registry describes it.
#[derive(Debug, PartialEq, Eq)]
pub struct ModrinthVersion {
    /// The project that the version belongs to.
    pub project_id: String,
    pub files: Vec<ModrinthFile>,
}

/// Why no download address can be had from a version.
#[derive(Debug, PartialEq, Eq)]
pub enum ModrinthError {
    /// The version belongs to another project than was asked for.
    ProjectMismatch { expected: String, actual: String },
    /// The version has no files.
    NoFiles { version_id: String, project_id: String },
}

/// The mathematical value of a [`ModrinthError`].
pub enum ModrinthErrorView {
    ProjectMismatch { expected: Seq<char>, actual: Seq<char> },
    NoFiles { version_id: Seq<char>, project_id: Seq<char> },
}

impl View for ModrinthError {
    type V = ModrinthErrorView;

    open spec fn view(&self) -> ModrinthErrorView {
        match self {
            ModrinthError::ProjectMismatch { expected, actual } => {
                ModrinthErrorView::ProjectMismatch { expected: expected@, actual: actual@ }
            },
            ModrinthError::NoFiles { version_id, project_id } => ModrinthErrorView::NoFiles {
                version_id: version_id@,
                project_id: project_id@,
            },
        }
    }
}

/// The text that describes a [`ModrinthError`].
pub open spec fn modrinth_error_text(e: ModrinthErrorView) -> Seq<char> {
    match e {
        ModrinthErrorView::ProjectMismatch { expected, actual } => "Project ID mismatch: expected "@
            + expected + ", got "@ + actual + "."@,
        ModrinthErrorView::NoFiles { version_id, project_id } => "No files found for version "@
            + version_id + " of project "@ + project_id + "."@,
    }
}

impl ModrinthError {
    /// The text that describes this error.
    pub fn message(&self) -> (r: String)
        ensures
            r@ == modrinth_error_text(self@),
    {
        match self {
            ModrinthError::ProjectMismatch { expected, actual } => {
                let mut r = String::from_str("Project ID mismatch: expected ");
                r.append(expected.as_str());
                r.append(", got ");
                r.append(actual.as_str());
                r.append(".");
                r
            },
            ModrinthError::NoFiles { version_id, project_id } => {
                let mut r = String::from_str("No files found for version ");
                r.append(version_id.as_str());
                r.append(" of project ");
                r.append(project_id.as_str());
                r.append(".");
                r
            },
        }
    }
}

/// The position of the first primary file, or the number of files if none
/// is primary.
pub open spec fn first_primary(files: Seq<FileView>) -> nat
    decreases files.len(),
{
    if files.len() == 0 {
        0
    } else if files[0].primary {
        0
    } else {
        1 + first_primary(files.drop_first())
    }
}

/// The file to download: the first primary file, or the first file if none
/// is primary.
pub open spec fn chosen_file(files: Seq<FileView>) -> Option<FileView> {
    if files.len() == 0 {
        None
    } else if first_primary(files) < files.len() {
        Some(files[first_primary(files) as int])
    } else {
        Some(files[0])
    }
}

/// The download address of a version of a project, or why there is none.
/// The version must belong to the project.
pub open spec fn version_url(
    project_id: Seq<char>,
    version_id: Seq<char>,
    version_project: Seq<char>,
    files: Seq<FileView>,
) -> Result<Seq<char>, ModrinthErrorView> {
    if version_project != project_id {
        Err(ModrinthErrorView::ProjectMismatch { expected: project_id, actual: version_project })
    } else {
        match chosen_file(files) {
            Some(file) => Ok(file.url),
            None => Err(ModrinthErrorView::NoFiles { version_id, project_id }),
        }
    }
}

/// The Modrinth registry.
pub struct Modrinth;

impl Modrinth {
    /// The download address of the version `version_id` of the project
    /// `project_id`, given what the registry says of that version.
    pub fn get_download_url(project_id: &str, version_id: &str, version: &ModrinthVersion) -> (r:
        Result<String, ModrinthError>)
        ensures
            match r {
                Ok(url) => version_url(
                    project_id@,
                    version_id@,
                    version.project_id@,
                    views(version.files@),
                ) == Ok::<Seq<char>, ModrinthErrorView>(url@),
                Err(e) => version_url(
                    project_id@,
                    version_id@,
                    version.project_id@,
                    views(version.files@),
                ) == Err::<Seq<char>, ModrinthErrorView>(e@),
            },
    {
        let expected = String::from_str(project_id);
        if version.project_id != expected {
            return Err(
                ModrinthError::ProjectMismatch { expected, actual: version.project_id.clone() },
            );
        }
        let ghost files = views(version.files@);
        if version.files.len() == 0 {
            return Err(
                ModrinthError::NoFiles {
                    version_id: String::from_str(version_id),
                    project_id: String::from_str(project_id),
                },
            );
        }
        let mut i: usize = 0;
        proof {
            assert(files.skip(0) =~= files);
        }
        while i < version.files.len()
            invariant
                i <= version.files.len(),
                files == views(version.files@),
                files.len() == version.files.len(),
                first_primary(files) == i + first_primary(files.skip(i as int)),
                version.project_id@ == project_id@,
            decreases version.files.len() - i,
        {
            proof {
                assert(files.skip(i as int).drop_first() =~= files.skip(i as int + 1));
                assert(files.skip(i as int)[0] == version.files@[i as int]@);
            }
            if version.files[i].primary {
                return Ok(version.files[i].url.clone());
            }
            i += 1;
        }
        Ok(version.files[0].url.clone())
    }
}

} // verus!
