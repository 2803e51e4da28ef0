//! Sessions: one project, loaded and locked.
//!
//! Opening a project goes through a series of states. Each state says by its type
//! what has been done, and takes what came of the next piece of work on the
//! disk; nothing of the project is read before the lock is held.

use vstd::prelude::*;

use crate::clock;
use crate::clock::utc_now;
use crate::legacy::LegacyScene;
use crate::maps;
use crate::maps::collect_pages;
use crate::project::ProjectError;
use crate::scene;
use crate::scene::{Encoded, ProjectMeta, Scene, Timestamp};
use crate::snapshot;
use crate::snapshot::{decode_snapshot, frame_snapshot, Snapshot};

verus! {

/// The description of a project, as it is kept in a file of its own.
#[derive(Debug)]
pub struct ProjectToml {
    pub name: String,
    pub created_at: Timestamp,
    pub updated_at: Timestamp,
}

/// Whether `scene` has no pages, and the settings of a new project.
pub open spec fn is_pageless(scene: Scene) -> bool {
    &&& scene.project.settings.bytes@ == Seq::<u8>::empty()
    &&& maps::page_entries(scene.pages) == Seq::<(scene::PageId, scene::Page)>::empty()
}

/// Whether `scene` is the scene of a project that `toml` describes and that has no
/// pages yet.
pub open spec fn is_blank_scene(scene: Scene, toml: ProjectToml) -> bool {
    &&& scene.project.name == toml.name
    &&& scene.project.created_at == toml.created_at
    &&& scene.project.updated_at == toml.updated_at
    &&& is_pageless(scene)
}

/// The scene of a project that `toml` describes and that has no pages yet.
pub fn blank_scene(toml: ProjectToml) -> (r: Scene)
    ensures
        is_blank_scene(r, toml),
{
    Scene {
        project: ProjectMeta {
            name: toml.name,
            created_at: toml.created_at,
            updated_at: toml.updated_at,
            settings: Encoded { bytes: Vec::new() },
        },
        pages: collect_pages(Vec::new()),
    }
}

/// What was found at the path of the snapshot.
#[derive(Debug)]
pub enum SceneFile {
    Missing,
    Unreadable,
    Read(Vec<u8>),
}

/// What was found at the path of the description of the project.
#[derive(Debug)]
pub enum TomlFile {
    Missing,
    Unreadable,
    Malformed,
    Parsed(ProjectToml),
}

/// What came of trying to lock the project.
#[derive(Debug)]
pub enum LockAttempt<L> {
    /// The lock file could not be opened.
    NotOpened,
    /// Another session holds the lock.
    Refused,
    /// The lock is held as long as this value lives.
    Held(L),
}

/// Whether `r` is what a project without a snapshot starts from: the first epoch
/// and no pages, after the description `file`. A description may be missing only
/// where the project is being created; then the project has no name and is as old
/// as this moment.
pub open spec fn starts_from(
    creating: bool,
    file: TomlFile,
    r: Result<Snapshot, ProjectError>,
) -> bool {
    match file {
        TomlFile::Parsed(toml) => {
            &&& r is Ok
            &&& r->Ok_0.epoch == 0
            &&& is_blank_scene(r->Ok_0.scene, toml)
        },
        TomlFile::Missing => if creating {
            &&& r is Ok
            &&& r->Ok_0.epoch == 0
            &&& r->Ok_0.scene.project.name@ == Seq::<char>::empty()
            &&& clock::is_instant(r->Ok_0.scene.project.created_at)
            &&& clock::is_instant(r->Ok_0.scene.project.updated_at)
            &&& clock::read_from_clock(r->Ok_0.scene.project.created_at)
            &&& clock::read_from_clock(r->Ok_0.scene.project.updated_at)
            &&& is_pageless(r->Ok_0.scene)
        } else {
            r == Err::<Snapshot, ProjectError>(ProjectError::MissingToml)
        },
        TomlFile::Malformed => r == Err::<Snapshot, ProjectError>(ProjectError::ParseToml),
        TomlFile::Unreadable => r == Err::<Snapshot, ProjectError>(ProjectError::Other),
    }
}

/// What a project without a snapshot starts from.
pub fn load_toml_file(creating: bool, file: TomlFile) -> (r: Result<Snapshot, ProjectError>)
    ensures
        starts_from(creating, file, r),
{
    let toml = match file {
        TomlFile::Parsed(toml) => toml,
        TomlFile::Missing => {
            if !creating {
                return Err(ProjectError::MissingToml);
            }
            let toml = ProjectToml {
                name: String::new(),
                created_at: utc_now(),
                updated_at: utc_now(),
            };
            proof {
                clock::law_read_from_clock(toml.created_at);
                clock::law_read_from_clock(toml.updated_at);
            }
            toml
        },
        TomlFile::Malformed => {
            return Err(ProjectError::ParseToml);
        },
        TomlFile::Unreadable => {
            return Err(ProjectError::Other);
        },
    };
    Ok(Snapshot { epoch: 0, scene: blank_scene(toml) })
}

/// Whether `r` is what a project is loaded as. A snapshot decides, where there is
/// one: it is read in today's format or in an earlier one, and it is an error
/// where it cannot be read or is of no known format. Without a snapshot the
/// description of the project decides, which `toml_file` looks for.
pub open spec fn loads<T, C, N, O>(
    creating: bool,
    scene_file: SceneFile,
    toml_file: T,
    current: C,
    line_height: N,
    no_line_height: O,
    r: Result<Snapshot, ProjectError>,
) -> bool where
    T: FnOnce() -> TomlFile,
    C: FnOnce(&[u8]) -> Option<Scene>,
    N: FnOnce(&[u8]) -> Option<LegacyScene>,
    O: FnOnce(&[u8]) -> Option<LegacyScene>,
 {
    match scene_file {
        SceneFile::Missing => exists|file: TomlFile| #[trigger]
            call_ensures(toml_file, (), file) && starts_from(creating, file, r),
        SceneFile::Unreadable => r == Err::<Snapshot, ProjectError>(ProjectError::ReadScene),
        SceneFile::Read(bytes) => exists|found: Option<Snapshot>|
            {
                &&& #[trigger] snapshot::reads_as(
                    bytes@,
                    current,
                    line_height,
                    no_line_height,
                    found,
                )
                &&& r == match found {
                    Some(snapshot) => Ok::<Snapshot, ProjectError>(snapshot),
                    None => Err(ProjectError::DecodeScene),
                }
            },
    }
}

/// The scene and the epoch that a project is loaded with. `toml_file` is asked
/// only where there is no snapshot; `current`, `line_height` and `no_line_height`
/// read a serialised scene in today's format and in the two earlier ones, and each
/// is asked only where those before it fail.
pub fn load_snapshot<T, C, N, O>(
    creating: bool,
    scene_file: SceneFile,
    toml_file: T,
    current: C,
    line_height: N,
    no_line_height: O,
) -> (r: Result<Snapshot, ProjectError>) where
    T: FnOnce() -> TomlFile,
    C: FnOnce(&[u8]) -> Option<Scene>,
    N: FnOnce(&[u8]) -> Option<LegacyScene>,
    O: FnOnce(&[u8]) -> Option<LegacyScene>,

    requires
        call_requires(toml_file, ()),
        forall|body: &[u8]| call_requires(current, (body,)),
        forall|body: &[u8]| call_requires(line_height, (body,)),
        forall|body: &[u8]| call_requires(no_line_height, (body,)),
    ensures
        loads(creating, scene_file, toml_file, current, line_height, no_line_height, r),
        scene_file is Unreadable ==> r == Err::<Snapshot, ProjectError>(ProjectError::ReadScene),
        scene_file matches SceneFile::Read(bytes) ==> (snapshot::unframed(bytes@) is None ==> r
            == Err::<Snapshot, ProjectError>(ProjectError::DecodeScene)),
{
    match scene_file {
        SceneFile::Missing => load_toml_file(creating, toml_file()),
        SceneFile::Unreadable => Err(ProjectError::ReadScene),
        SceneFile::Read(bytes) => match decode_snapshot(
            bytes.as_slice(),
            current,
            line_height,
            no_line_height,
        ) {
            Some(snapshot) => Ok(snapshot),
            None => Err(ProjectError::DecodeScene),
        },
    }
}

/// A project that is to be opened. Its directory is there; the directories of the
/// images and of the cache are to be made next.
#[derive(Debug)]
pub struct Opening {
    pub dir: String,
    /// Whether the project is new.
    pub creating: bool,
}

impl Opening {
    /// Goes on where the directories of the images and of the cache were made; the
    /// lock is to be taken next.
    pub fn directories(self, made: bool) -> (r: Result<Prepared, ProjectError>)
        ensures
            r == if made {
                Ok(Prepared { dir: self.dir, creating: self.creating })
            } else {
                Err(ProjectError::Other)
            },
    {
        if made {
            Ok(Prepared { dir: self.dir, creating: self.creating })
        } else {
            Err(ProjectError::Other)
        }
    }
}

/// A project whose directories are there and that is not locked yet.
#[derive(Debug)]
pub struct Prepared {
    pub dir: String,
    pub creating: bool,
}

impl Prepared {
    /// Goes on where the lock was taken; the store of the images is to be opened
    /// next. Where another session holds the lock, the project cannot be opened.
    pub fn locked<L>(self, attempt: LockAttempt<L>) -> (r: Result<Locked<L>, ProjectError>)
        ensures
            r == match attempt {
                LockAttempt::NotOpened => Err(ProjectError::OpenLockFile),
                LockAttempt::Refused => Err(ProjectError::AlreadyOpen),
                LockAttempt::Held(lock) => Ok(
                    Locked { dir: self.dir, creating: self.creating, lock },
                ),
            },
    {
        match attempt {
            LockAttempt::NotOpened => Err(ProjectError::OpenLockFile),
            LockAttempt::Refused => Err(ProjectError::AlreadyOpen),
            LockAttempt::Held(lock) => Ok(
                Locked { dir: self.dir, creating: self.creating, lock },
            ),
        }
    }
}

/// A project that is locked.
#[derive(Debug)]
pub struct Locked<L> {
    pub dir: String,
    pub creating: bool,
    pub lock: L,
}

impl<L> Locked<L> {
    /// Goes on where the store of the images was opened; the scene is to be loaded
    /// next.
    pub fn stocked<B>(self, blobs: Option<B>) -> (r: Result<Stocked<B, L>, ProjectError>)
        ensures
            r == match blobs {
                Some(blobs) => Ok(
                    Stocked { dir: self.dir, creating: self.creating, lock: self.lock, blobs },
                ),
                None => Err(ProjectError::Other),
            },
    {
        match blobs {
            Some(blobs) => Ok(
                Stocked { dir: self.dir, creating: self.creating, lock: self.lock, blobs },
            ),
            None => Err(ProjectError::Other),
        }
    }
}

/// A project that is locked and whose images are at hand.
#[derive(Debug)]
pub struct Stocked<B, L> {
    pub dir: String,
    pub creating: bool,
    pub lock: L,
    pub blobs: B,
}

impl<B, L> Stocked<B, L> {
    /// Goes on with the scene and the epoch that `load_snapshot` finds; the log is
    /// to be replayed next.
    pub fn load<T, C, N, O>(
        self,
        scene_file: SceneFile,
        toml_file: T,
        current: C,
        line_height: N,
        no_line_height: O,
    ) -> (r: Result<Loaded<B, L>, ProjectError>) where
        T: FnOnce() -> TomlFile,
        C: FnOnce(&[u8]) -> Option<Scene>,
        N: FnOnce(&[u8]) -> Option<LegacyScene>,
        O: FnOnce(&[u8]) -> Option<LegacyScene>,

        requires
            call_requires(toml_file, ()),
            forall|body: &[u8]| call_requires(current, (body,)),
            forall|body: &[u8]| call_requires(line_height, (body,)),
            forall|body: &[u8]| call_requires(no_line_height, (body,)),
        ensures
            exists|found: Result<Snapshot, ProjectError>|
                {
                    &&& #[trigger] loads(
                        self.creating,
                        scene_file,
                        toml_file,
                        current,
                        line_height,
                        no_line_height,
                        found,
                    )
                    &&& r == match found {
                        Ok(snapshot) => Ok::<Loaded<B, L>, ProjectError>(
                            Loaded {
                                dir: self.dir,
                                lock: self.lock,
                                blobs: self.blobs,
                                scene: snapshot.scene,
                                epoch: snapshot.epoch,
                            },
                        ),
                        Err(error) => Err(error),
                    }
                },
    {
        match load_snapshot(
            self.creating,
            scene_file,
            toml_file,
            current,
            line_height,
            no_line_height,
        ) {
            Ok(snapshot) => Ok(
                Loaded {
                    dir: self.dir,
                    lock: self.lock,
                    blobs: self.blobs,
                    scene: snapshot.scene,
                    epoch: snapshot.epoch,
                },
            ),
            Err(error) => Err(error),
        }
    }
}

/// A project whose scene is that of an epoch, and whose log may hold later edits.
#[derive(Debug)]
pub struct Loaded<B, L> {
    pub dir: String,
    pub lock: L,
    pub blobs: B,
    pub scene: Scene,
    pub epoch: u64,
}

impl<B, L> Loaded<B, L> {
    /// Goes on with what `replay` makes of the scene and the epoch; the history is
    /// to be opened next. `replay` applies the frames of the log past that epoch to
    /// the scene, and gives the epoch that this leads to.
    pub fn replayed<F>(self, replay: F) -> (r: Result<Self, ProjectError>) where
        F: FnOnce(u64, &mut Scene) -> Option<u64>,

        requires
            forall|scene: &mut Scene|
                *scene == self.scene ==> call_requires(replay, (self.epoch, scene)),
        ensures
            exists|scene: &mut Scene, epoch: Option<u64>|
                {
                    &&& *scene == self.scene
                    &&& #[trigger] call_ensures(replay, (self.epoch, scene), epoch)
                    &&& r == match epoch {
                        Some(epoch) => Ok::<Self, ProjectError>(
                            Loaded { scene: *final(scene), epoch, ..self },
                        ),
                        None => Err(ProjectError::ReplayLog),
                    }
                },
    {
        let Loaded { dir, lock, blobs, mut scene, epoch } = self;
        match replay(epoch, &mut scene) {
            Some(epoch) => Ok(Loaded { dir, lock, blobs, scene, epoch }),
            None => Err(ProjectError::ReplayLog),
        }
    }

    /// The session, with the history that `open` opens at the epoch of the scene.
    pub fn opened<H, F>(self, open: F) -> (r: Result<ProjectSession<H, B, L>, ProjectError>) where
        F: FnOnce(u64) -> Option<H>,

        requires
            call_requires(open, (self.epoch,)),
        ensures
            exists|history: Option<H>|
                {
                    &&& #[trigger] call_ensures(open, (self.epoch,), history)
                    &&& r == match history {
                        Some(history) => Ok::<ProjectSession<H, B, L>, ProjectError>(
                            ProjectSession {
                                dir: self.dir,
                                scene: self.scene,
                                history,
                                blobs: self.blobs,
                                lock: self.lock,
                            },
                        ),
                        None => Err(ProjectError::Other),
                    }
                },
    {
        match open(self.epoch) {
            Some(history) => Ok(
                ProjectSession {
                    dir: self.dir,
                    scene: self.scene,
                    history,
                    blobs: self.blobs,
                    lock: self.lock,
                },
            ),
            None => Err(ProjectError::Other),
        }
    }
}

/// What is at the path of a new project before it is created.
#[derive(Clone, Copy, Debug, PartialEq, Eq, Structural)]
pub enum FoundDirectory {
    /// No directory.
    Absent,
    /// A directory without entries.
    Empty,
    /// A directory with entries.
    NotEmpty,
}

/// A new project: the description to write, and how to go on from there.
#[derive(Debug)]
pub struct NewProject {
    pub toml: ProjectToml,
    pub opening: Opening,
}

/// A loaded project: its directory, its scene, the history of its edits, the store
/// of its images, and the lock that keeps others from opening it.
#[derive(Debug)]
pub struct ProjectSession<H, B, L> {
    pub dir: String,
    pub scene: Scene,
    pub history: H,
    pub blobs: B,
    pub lock: L,
}

/// Whether `r` is what comes of starting to create a project called `name` at `dir`,
/// where `found` is what was there: an error where there was a directory, else the
/// description of a project that is as old as this moment.
pub open spec fn creates_project(
    dir: String,
    name: String,
    found: FoundDirectory,
    r: Result<NewProject, ProjectError>,
) -> bool {
    match r {
        Ok(new) => {
            &&& found is Absent
            &&& new.opening == Opening { dir, creating: true }
            &&& new.toml.name == name
            &&& clock::read_from_clock(new.toml.created_at)
            &&& clock::read_from_clock(new.toml.updated_at)
        },
        Err(error) => {
            ||| found is NotEmpty && error == ProjectError::DirectoryNotEmpty
            ||| found is Empty && error == ProjectError::AlreadyExists
        },
    }
}

/// Whether `r` is what comes of compacting `session`: the content of a snapshot's
/// file, of the epoch that `read_epoch` finds in the history and of the scene as
/// `encode` serialises it, or the error where `encode` fails.
pub open spec fn compacts<H, B, L, F, G>(
    session: ProjectSession<H, B, L>,
    read_epoch: F,
    encode: G,
    r: Result<Vec<u8>, ProjectError>,
) -> bool where F: FnOnce(&H) -> u64, G: FnOnce(&Scene) -> Option<Vec<u8>> {
    exists|epoch: u64, body: Option<Vec<u8>>|
        {
            &&& #[trigger] call_ensures(read_epoch, (&session.history,), epoch)
            &&& #[trigger] call_ensures(encode, (&session.scene,), body)
            &&& match body {
                Some(body) => r is Ok && r->Ok_0@ == snapshot::framed(epoch, body@),
                None => r == Err::<Vec<u8>, ProjectError>(ProjectError::EncodeSnapshot),
            }
        }
}

impl<H, B, L> ProjectSession<H, B, L> {
    /// Starts to open the project at `dir`, which has to be a directory.
    pub fn open(dir: String, is_dir: bool) -> (r: Result<Opening, ProjectError>)
        ensures
            r == if is_dir {
                Ok(Opening { dir, creating: false })
            } else {
                Err(ProjectError::NotAProjectDirectory)
            },
    {
        if is_dir {
            Ok(Opening { dir, creating: false })
        } else {
            Err(ProjectError::NotAProjectDirectory)
        }
    }

    /// Starts to create a project called `name` at `dir`, where `found` is what was
    /// there before. The directory must not be there yet: it is to be made next, and
    /// the description is to be written in it.
    pub fn create(dir: String, name: String, found: FoundDirectory) -> (r: Result<
        NewProject,
        ProjectError,
    >)
        ensures
            found is NotEmpty ==> r == Err::<NewProject, ProjectError>(
                ProjectError::DirectoryNotEmpty,
            ),
            found is Empty ==> r == Err::<NewProject, ProjectError>(ProjectError::AlreadyExists),
            found is Absent ==> {
                &&& r is Ok
                &&& r->Ok_0.opening == Opening { dir, creating: true }
                &&& r->Ok_0.toml.name == name
                &&& clock::is_instant(r->Ok_0.toml.created_at)
                &&& clock::is_instant(r->Ok_0.toml.updated_at)
                &&& clock::read_from_clock(r->Ok_0.toml.created_at)
                &&& clock::read_from_clock(r->Ok_0.toml.updated_at)
            },
            creates_project(dir, name, found, r),
    {
        match found {
            FoundDirectory::NotEmpty => {
                return Err(ProjectError::DirectoryNotEmpty);
            },
            FoundDirectory::Empty => {
                return Err(ProjectError::AlreadyExists);
            },
            FoundDirectory::Absent => {},
        }
        let toml = ProjectToml { name, created_at: utc_now(), updated_at: utc_now() };
        proof {
            clock::law_read_from_clock(toml.created_at);
            clock::law_read_from_clock(toml.updated_at);
        }
        Ok(NewProject { toml, opening: Opening { dir, creating: true } })
    }

    /// Hands `op` to `edit`, the history's way to apply it, with the history and
    /// the scene, and gives back what it answers: the epoch after the edit.
    pub fn apply<O, E, F>(&mut self, op: O, edit: F) -> (r: Result<u64, E>) where
        F: FnOnce(&mut H, &mut Scene, O) -> Result<u64, E>,

        requires
            forall|history: &mut H, scene: &mut Scene|
                *history == old(self).history && *scene == old(self).scene ==> call_requires(
                    edit,
                    (history, scene, op),
                ),
        ensures
            exists|history: &mut H, scene: &mut Scene|
                {
                    &&& *history == old(self).history
                    &&& *scene == old(self).scene
                    &&& #[trigger] call_ensures(edit, (history, scene, op), r)
                    &&& *final(self) == (ProjectSession {
                        history: *final(history),
                        scene: *final(scene),
                        ..*old(self)
                    })
                },
    {
        edit(&mut self.history, &mut self.scene, op)
    }

    /// Hands the history and the scene to `step`, the history's way to take the last
    /// edit back, and gives back what it answers: the epoch after that and the edit,
    /// or nothing where there was none to take back.
    pub fn undo<O, E, F>(&mut self, step: F) -> (r: Result<Option<(u64, O)>, E>) where
        F: FnOnce(&mut H, &mut Scene) -> Result<Option<(u64, O)>, E>,

        requires
            forall|history: &mut H, scene: &mut Scene|
                *history == old(self).history && *scene == old(self).scene ==> call_requires(
                    step,
                    (history, scene),
                ),
        ensures
            exists|history: &mut H, scene: &mut Scene|
                {
                    &&& *history == old(self).history
                    &&& *scene == old(self).scene
                    &&& #[trigger] call_ensures(step, (history, scene), r)
                    &&& *final(self) == (ProjectSession {
                        history: *final(history),
                        scene: *final(scene),
                        ..*old(self)
                    })
                },
    {
        step(&mut self.history, &mut self.scene)
    }

    /// Hands the history and the scene to `step`, the history's way to make an edit
    /// again that was taken back, and gives back what it answers: the epoch after
    /// that and the edit, or nothing where there was none to make again.
    pub fn redo<O, E, F>(&mut self, step: F) -> (r: Result<Option<(u64, O)>, E>) where
        F: FnOnce(&mut H, &mut Scene) -> Result<Option<(u64, O)>, E>,

        requires
            forall|history: &mut H, scene: &mut Scene|
                *history == old(self).history && *scene == old(self).scene ==> call_requires(
                    step,
                    (history, scene),
                ),
        ensures
            exists|history: &mut H, scene: &mut Scene|
                {
                    &&& *history == old(self).history
                    &&& *scene == old(self).scene
                    &&& #[trigger] call_ensures(step, (history, scene), r)
                    &&& *final(self) == (ProjectSession {
                        history: *final(history),
                        scene: *final(scene),
                        ..*old(self)
                    })
                },
    {
        step(&mut self.history, &mut self.scene)
    }

    /// The epoch that `read` finds in the history.
    pub fn epoch<F>(&self, read: F) -> (r: u64) where F: FnOnce(&H) -> u64
        requires
            call_requires(read, (&self.history,)),
        ensures
            call_ensures(read, (&self.history,), r),
    {
        read(&self.history)
    }

    /// A copy of the scene, for those who only read it.
    pub fn scene_snapshot(&self) -> (r: Scene)
        ensures
            scene::same_scene(self.scene, r),
    {
        self.scene.clone()
    }

    /// Starts to write a snapshot and to truncate the log: gives the content of the
    /// snapshot's file, made of the epoch that `read_epoch` finds in the history and
    /// of the scene as `encode` serialises it. See `CompactStep` for what to do with
    /// it.
    pub fn compact<F, G>(&self, read_epoch: F, encode: G) -> (r: Result<
        Vec<u8>,
        ProjectError,
    >) where F: FnOnce(&H) -> u64, G: FnOnce(&Scene) -> Option<Vec<u8>>
        requires
            call_requires(read_epoch, (&self.history,)),
            call_requires(encode, (&self.scene,)),
        ensures
            compacts(*self, read_epoch, encode, r),
    {
        let epoch = self.epoch(read_epoch);
        match encode(&self.scene) {
            Some(body) => frame_snapshot(epoch, body),
            None => Err(ProjectError::EncodeSnapshot),
        }
    }
}

/// After an edit the session is at the epoch that the edit answered, with a history
/// that is at that epoch itself.
pub proof fn law_epoch_after_apply<H, B, L, O, E, F, G>(
    before: ProjectSession<H, B, L>,
    op: O,
    edit: F,
    answered: u64,
    after: ProjectSession<H, B, L>,
    read: G,
    epoch: u64,
) where F: FnOnce(&mut H, &mut Scene, O) -> Result<u64, E>, G: FnOnce(&H) -> u64
    requires
        forall|history: &mut H, scene: &mut Scene, answer: u64, found: u64| #[trigger]
            call_ensures(edit, (history, scene, op), Ok::<u64, E>(answer)) && #[trigger]
            call_ensures(read, (&*final(history),), found) ==> found == answer,
        exists|history: &mut H, scene: &mut Scene|
            {
                &&& *history == before.history
                &&& *scene == before.scene
                &&& #[trigger] call_ensures(edit, (history, scene, op), Ok::<u64, E>(answered))
                &&& after == (ProjectSession {
                    history: *final(history),
                    scene: *final(scene),
                    ..before
                })
            },
        call_ensures(read, (&after.history,), epoch),
    ensures
        epoch == answered,
{
}

/// A new project has the name that was asked for, and two instants that were read from
/// the clock. They become those of its scene, which starts without pages at the first
/// epoch.
pub proof fn law_new_project_is_of_this_moment(
    dir: String,
    name: String,
    found: FoundDirectory,
    new: NewProject,
    started: Result<Snapshot, ProjectError>,
)
    requires
        creates_project(dir, name, found, Ok::<NewProject, ProjectError>(new)),
        starts_from(new.opening.creating, TomlFile::Parsed(new.toml), started),
    ensures
        found is Absent,
        new.opening.dir == dir,
        new.opening.creating,
        new.toml.name == name,
        clock::read_from_clock(new.toml.created_at),
        clock::read_from_clock(new.toml.updated_at),
        started is Ok,
        started->Ok_0.epoch == 0,
        started->Ok_0.scene.project.name == name,
        started->Ok_0.scene.project.created_at == new.toml.created_at,
        started->Ok_0.scene.project.updated_at == new.toml.updated_at,
        clock::read_from_clock(started->Ok_0.scene.project.created_at),
        clock::read_from_clock(started->Ok_0.scene.project.updated_at),
        started->Ok_0.scene.project.settings.bytes@.len() == 0,
        maps::page_entries(started->Ok_0.scene.pages).len() == 0,
{
}

/// A project without a snapshot starts after its description: with its name and its
/// two instants, at the first epoch, with no pages and the settings of a new project.
pub proof fn law_description_becomes_the_scene(
    creating: bool,
    toml: ProjectToml,
    started: Result<Snapshot, ProjectError>,
)
    requires
        starts_from(creating, TomlFile::Parsed(toml), started),
    ensures
        started is Ok,
        started->Ok_0.epoch == 0,
        started->Ok_0.scene.project.name == toml.name,
        started->Ok_0.scene.project.created_at == toml.created_at,
        started->Ok_0.scene.project.updated_at == toml.updated_at,
        started->Ok_0.scene.project.settings.bytes@.len() == 0,
        maps::page_entries(started->Ok_0.scene.pages).len() == 0,
{
}

/// Only a project that is being created may lack a description; it then has no name
/// and is as old as the clock says.
pub proof fn law_missing_description(creating: bool, started: Result<Snapshot, ProjectError>)
    requires
        starts_from(creating, TomlFile::Missing, started),
    ensures
        started is Ok <==> creating,
        !creating ==> started->Err_0 == ProjectError::MissingToml,
        creating ==> {
            &&& started->Ok_0.epoch == 0
            &&& started->Ok_0.scene.project.name@.len() == 0
            &&& clock::read_from_clock(started->Ok_0.scene.project.created_at)
            &&& clock::read_from_clock(started->Ok_0.scene.project.updated_at)
            &&& started->Ok_0.scene.project.settings.bytes@.len() == 0
            &&& maps::page_entries(started->Ok_0.scene.pages).len() == 0
        },
{
}

/// The snapshot decides where there is one: what is loaded is the epoch at its start
/// and a scene that one of the readers made of the bytes behind it. That is what
/// today's reader answers, where it answers anything; else what the newer of the
/// earlier readers answers, brought up to date, where it does; else what the older
/// one answers. It is an error where none of them can read it.
pub proof fn law_first_reader_that_answers_decides<T, C, N, O>(
    creating: bool,
    file: Vec<u8>,
    epoch: u64,
    body: Seq<u8>,
    toml_file: T,
    current: C,
    line_height: N,
    no_line_height: O,
    r: Result<Snapshot, ProjectError>,
) where
    T: FnOnce() -> TomlFile,
    C: FnOnce(&[u8]) -> Option<Scene>,
    N: FnOnce(&[u8]) -> Option<LegacyScene>,
    O: FnOnce(&[u8]) -> Option<LegacyScene>,

    requires
        snapshot::unframed(file@) == Some((epoch, body)),
        loads(
            creating,
            SceneFile::Read(file),
            toml_file,
            current,
            line_height,
            no_line_height,
            r,
        ),
    ensures
        r is Ok ==> r->Ok_0.epoch == epoch,
        r is Err ==> r->Err_0 == ProjectError::DecodeScene,
        exists|bytes: &[u8]|
            #![trigger bytes@]
            bytes@ == body && {
                ||| r is Ok && call_ensures(current, (bytes,), Some(r->Ok_0.scene))
                ||| call_ensures(current, (bytes,), None) && r is Ok && exists|legacy: LegacyScene|
                    #[trigger] call_ensures(line_height, (bytes,), Some(legacy)) && legacy.becomes(
                        r->Ok_0.scene,
                    )
                ||| call_ensures(current, (bytes,), None) && call_ensures(
                    line_height,
                    (bytes,),
                    None,
                ) && r is Ok && exists|legacy: LegacyScene| #[trigger]
                    call_ensures(no_line_height, (bytes,), Some(legacy)) && legacy.becomes(
                        r->Ok_0.scene,
                    )
                ||| call_ensures(current, (bytes,), None) && call_ensures(
                    line_height,
                    (bytes,),
                    None,
                ) && call_ensures(no_line_height, (bytes,), None) && r is Err
            },
{
    let read = choose|read: Option<Snapshot>|
        {
            &&& #[trigger] snapshot::reads_as(file@, current, line_height, no_line_height, read)
            &&& r == match read {
                Some(snapshot) => Ok::<Snapshot, ProjectError>(snapshot),
                None => Err(ProjectError::DecodeScene),
            }
        };
    let bytes = choose|bytes: &[u8]|
        #![trigger bytes@]
        bytes@ == body && snapshot::decodes(
            epoch,
            bytes,
            current,
            line_height,
            no_line_height,
            read,
        );
    assert(bytes@ == body);
}

} // verus!
