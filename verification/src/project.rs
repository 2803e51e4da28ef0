//! The files of a project's directory, and what is said where one of them fails.

use vstd::prelude::*;

use crate::paths;
use crate::paths::join;

verus! {

/// A file or directory in a project's directory.
#[derive(Clone, Copy, Debug, PartialEq, Eq, Structural)]
pub enum ProjectFile {
    /// The name and the instants of the project.
    Toml,
    /// The snapshot of the scene.
    Scene,
    /// The log of the edits since the snapshot.
    Log,
    /// What is locked while the project is open.
    Lock,
    /// The directory of the images.
    Blobs,
    /// The directory of what can be made again.
    Cache,
}

impl ProjectFile {
    /// The name in the project's directory.
    pub open spec fn name_spec(self) -> &'static str {
        match self {
            ProjectFile::Toml => "project.toml",
            ProjectFile::Scene => "scene.bin",
            ProjectFile::Log => "history.log",
            ProjectFile::Lock => ".lock",
            ProjectFile::Blobs => "blobs",
            ProjectFile::Cache => "cache",
        }
    }

    /// The name in the project's directory.
    pub fn name(self) -> (r: &'static str)
        ensures
            r == self.name_spec(),
    {
        match self {
            ProjectFile::Toml => "project.toml",
            ProjectFile::Scene => "scene.bin",
            ProjectFile::Log => "history.log",
            ProjectFile::Lock => ".lock",
            ProjectFile::Blobs => "blobs",
            ProjectFile::Cache => "cache",
        }
    }
}

/// The path of `file` in the project's directory `dir`.
pub open spec fn path_spec(dir: Seq<char>, file: ProjectFile) -> Seq<char> {
    paths::path_joined(dir, file.name_spec()@)
}

/// The path of `file` in the project's directory `dir`.
pub fn project_path(dir: &str, file: ProjectFile) -> (r: String)
    ensures
        r@ == path_spec(dir@, file),
        r@ == paths::path_joined(dir@, file.name_spec()@),
        !paths::starts_with_share(dir@) ==> paths::is_child(dir@, file.name_spec()@, r@),
{
    proof {
        reveal_strlit("project.toml");
        reveal_strlit("scene.bin");
        reveal_strlit("history.log");
        reveal_strlit(".lock");
        reveal_strlit("blobs");
        reveal_strlit("cache");
        assert(paths::is_name(file.name_spec()@));
    }
    join(dir, file.name())
}

/// Why a project could not be opened, created or compacted.
#[derive(Clone, Copy, Debug, PartialEq, Eq, Structural)]
pub enum ProjectError {
    /// What is to be opened is no directory.
    NotAProjectDirectory,
    /// The directory of a new project could not be made.
    CreateDirectory,
    /// The directory of a new project is there already, and holds nothing.
    AlreadyExists,
    /// The directory of a new project holds something.
    DirectoryNotEmpty,
    /// The lock file could not be opened.
    OpenLockFile,
    /// Another session holds the lock.
    AlreadyOpen,
    /// The snapshot could not be read.
    ReadScene,
    /// The snapshot is of no known format.
    DecodeScene,
    /// There is neither a snapshot nor a description of the project.
    MissingToml,
    /// The description of the project is malformed.
    ParseToml,
    /// The log could not be replayed.
    ReplayLog,
    /// The scene could not be serialised.
    EncodeSnapshot,
    /// The snapshot could not be written.
    WriteScene,
    /// Something failed about which there is nothing to add to its own cause.
    Other,
}

impl ProjectError {
    /// What to say of the error in a project at `dir`, the outermost statement
    /// first. The cause, where there is one, comes behind the last of them.
    pub open spec fn contexts_spec(self, dir: Seq<char>) -> Seq<Seq<char>> {
        let scene = path_spec(dir, ProjectFile::Scene);
        match self {
            ProjectError::NotAProjectDirectory => seq!["not a project directory: "@ + dir],
            ProjectError::CreateDirectory => seq!["create project dir "@ + dir],
            ProjectError::AlreadyExists => seq!["project directory already exists: "@ + dir],
            ProjectError::DirectoryNotEmpty => seq!["project directory not empty: "@ + dir],
            ProjectError::OpenLockFile => seq![
                "open lock file "@ + path_spec(dir, ProjectFile::Lock),
            ],
            ProjectError::AlreadyOpen => seq!["project is already open elsewhere"@],
            ProjectError::ReadScene => seq!["read "@ + scene],
            ProjectError::DecodeScene => seq![
                "decode "@ + scene,
                "decode legacy "@ + scene,
                "decode legacy text style without line height"@,
            ],
            ProjectError::MissingToml => seq![
                "missing project.toml at "@ + path_spec(dir, ProjectFile::Toml),
            ],
            ProjectError::ParseToml => seq!["parse "@ + path_spec(dir, ProjectFile::Toml)],
            ProjectError::ReplayLog => seq!["replay log "@ + path_spec(dir, ProjectFile::Log)],
            ProjectError::EncodeSnapshot => seq!["encode snapshot"@],
            ProjectError::WriteScene => seq!["write scene.bin atomically"@],
            ProjectError::Other => Seq::empty(),
        }
    }

    /// What to say of the error in a project at `dir`, the outermost statement
    /// first. The cause, where there is one, comes behind the last of them.
    pub fn contexts(self, dir: &str) -> (r: Vec<String>)
        ensures
            r@.map_values(|s: String| s@) == self.contexts_spec(dir@),
    {
        let mut r: Vec<String> = Vec::new();
        match self {
            ProjectError::NotAProjectDirectory => r.push(
                statement("not a project directory: ", dir),
            ),
            ProjectError::CreateDirectory => r.push(statement("create project dir ", dir)),
            ProjectError::AlreadyExists => r.push(
                statement("project directory already exists: ", dir),
            ),
            ProjectError::DirectoryNotEmpty => r.push(
                statement("project directory not empty: ", dir),
            ),
            ProjectError::OpenLockFile => r.push(
                statement("open lock file ", project_path(dir, ProjectFile::Lock).as_str()),
            ),
            ProjectError::AlreadyOpen => r.push("project is already open elsewhere".to_string()),
            ProjectError::ReadScene => r.push(
                statement("read ", project_path(dir, ProjectFile::Scene).as_str()),
            ),
            ProjectError::DecodeScene => {
                let scene = project_path(dir, ProjectFile::Scene);
                r.push(statement("decode ", scene.as_str()));
                r.push(statement("decode legacy ", scene.as_str()));
                r.push("decode legacy text style without line height".to_string());
            },
            ProjectError::MissingToml => r.push(
                statement("missing project.toml at ", project_path(dir, ProjectFile::Toml).as_str()),
            ),
            ProjectError::ParseToml => r.push(
                statement("parse ", project_path(dir, ProjectFile::Toml).as_str()),
            ),
            ProjectError::ReplayLog => r.push(
                statement("replay log ", project_path(dir, ProjectFile::Log).as_str()),
            ),
            ProjectError::EncodeSnapshot => r.push("encode snapshot".to_string()),
            ProjectError::WriteScene => r.push("write scene.bin atomically".to_string()),
            ProjectError::Other => {},
        }
        assert(r@.map_values(|s: String| s@) =~= self.contexts_spec(dir@));
        r
    }
}

fn statement(what: &str, of: &str) -> (r: String)
    ensures
        r@ == what@ + of@,
{
    let mut r = what.to_string();
    r.append(of);
    r
}

/// What is said of an error, whatever the directory: it names the directory, or the file
/// that it is about, and the last statement comes before the cause.
pub proof fn law_errors_say_what_they_are_about(dir: Seq<char>)
    ensures
        ProjectError::NotAProjectDirectory.contexts_spec(dir) == seq![
            "not a project directory: "@ + dir,
        ],
        ProjectError::CreateDirectory.contexts_spec(dir) == seq!["create project dir "@ + dir],
        ProjectError::AlreadyExists.contexts_spec(dir) == seq![
            "project directory already exists: "@ + dir,
        ],
        ProjectError::DirectoryNotEmpty.contexts_spec(dir) == seq![
            "project directory not empty: "@ + dir,
        ],
        ProjectError::OpenLockFile.contexts_spec(dir) == seq![
            "open lock file "@ + paths::path_joined(dir, ".lock"@),
        ],
        ProjectError::AlreadyOpen.contexts_spec(dir) == seq!["project is already open elsewhere"@],
        ProjectError::ReadScene.contexts_spec(dir) == seq![
            "read "@ + paths::path_joined(dir, "scene.bin"@),
        ],
        ProjectError::DecodeScene.contexts_spec(dir) == seq![
            "decode "@ + paths::path_joined(dir, "scene.bin"@),
            "decode legacy "@ + paths::path_joined(dir, "scene.bin"@),
            "decode legacy text style without line height"@,
        ],
        ProjectError::MissingToml.contexts_spec(dir) == seq![
            "missing project.toml at "@ + paths::path_joined(dir, "project.toml"@),
        ],
        ProjectError::ParseToml.contexts_spec(dir) == seq![
            "parse "@ + paths::path_joined(dir, "project.toml"@),
        ],
        ProjectError::ReplayLog.contexts_spec(dir) == seq![
            "replay log "@ + paths::path_joined(dir, "history.log"@),
        ],
        ProjectError::EncodeSnapshot.contexts_spec(dir) == seq!["encode snapshot"@],
        ProjectError::WriteScene.contexts_spec(dir) == seq!["write scene.bin atomically"@],
        ProjectError::Other.contexts_spec(dir).len() == 0,
{
}

} // verus!
