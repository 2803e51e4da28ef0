//! Compaction: a new snapshot takes the place of the old one and of the log.
//!
//! The snapshot is written first, in one piece; only then is the log truncated. A
//! crash at any point therefore leaves a snapshot and a log that lead to the scene
//! as it was.

use vstd::prelude::*;

use crate::edit_log;
use crate::edit_log::LogFrame;
use crate::legacy::LegacyScene;
use crate::maps;
use crate::project::ProjectError;
use crate::scene;
use crate::scene::Scene;
use crate::session;
use crate::session::{Loaded, ProjectSession, ProjectToml, SceneFile, Stocked, TomlFile};
use crate::snapshot;
use crate::snapshot::Snapshot;

verus! {

/// What is to be done next in a compaction.
#[derive(Clone, Copy, Debug, PartialEq, Eq, Structural)]
pub enum CompactStep {
    /// Put the new snapshot in the place of the old one, in one piece.
    WriteScene,
    /// Remove all frames from the log.
    TruncateLog,
    /// Nothing: the compaction is done.
    Finished,
}

impl CompactStep {
    /// The step that follows this one, where it succeeded, and the error where it
    /// did not.
    pub open spec fn following(self, succeeded: bool) -> Result<CompactStep, ProjectError> {
        match self {
            CompactStep::WriteScene => if succeeded {
                Ok(CompactStep::TruncateLog)
            } else {
                Err(ProjectError::WriteScene)
            },
            CompactStep::TruncateLog => if succeeded {
                Ok(CompactStep::Finished)
            } else {
                Err(ProjectError::Other)
            },
            CompactStep::Finished => Ok(CompactStep::Finished),
        }
    }

    /// The step that follows this one, where it succeeded, and the error where it
    /// did not.
    pub fn next(self, succeeded: bool) -> (r: Result<CompactStep, ProjectError>)
        ensures
            r == self.following(succeeded),
            self is WriteScene ==> r == if succeeded {
                Ok::<CompactStep, ProjectError>(CompactStep::TruncateLog)
            } else {
                Err(ProjectError::WriteScene)
            },
            self is TruncateLog ==> r == if succeeded {
                Ok::<CompactStep, ProjectError>(CompactStep::Finished)
            } else {
                Err(ProjectError::Other)
            },
            self is Finished ==> r == Ok::<CompactStep, ProjectError>(CompactStep::Finished),
    {
        match self {
            CompactStep::WriteScene => if succeeded {
                Ok(CompactStep::TruncateLog)
            } else {
                Err(ProjectError::WriteScene)
            },
            CompactStep::TruncateLog => if succeeded {
                Ok(CompactStep::Finished)
            } else {
                Err(ProjectError::Other)
            },
            CompactStep::Finished => Ok(CompactStep::Finished),
        }
    }
}

/// What a crash leaves of a project: the file of its snapshot, and the frames of
/// its log.
pub struct Disk<O> {
    pub scene_file: Option<Seq<u8>>,
    pub log: Seq<LogFrame<O>>,
}

impl<O> Disk<O> {
    /// The disk after `step` of a compaction that writes `bytes`.
    pub open spec fn performed(self, step: CompactStep, bytes: Seq<u8>) -> Disk<O> {
        match step {
            CompactStep::WriteScene => Disk { scene_file: Some(bytes), log: self.log },
            CompactStep::TruncateLog => Disk { scene_file: self.scene_file, log: Seq::empty() },
            CompactStep::Finished => self,
        }
    }

    /// The disk after the first `count` steps of a compaction that goes on with
    /// `step` and writes `bytes`.
    pub open spec fn after_steps(self, step: CompactStep, bytes: Seq<u8>, count: nat) -> Disk<O>
        decreases count,
    {
        if count == 0 {
            self
        } else {
            match step.following(true) {
                Ok(next) => self.performed(step, bytes).after_steps(next, bytes, (count - 1) as nat),
                Err(_) => self,
            }
        }
    }
}

/// What opening the project again makes of `disk`: the snapshot, as `decode` reads
/// its scene, or `blank` at the first epoch where there is none, and then the
/// frames of the log past that epoch. There is nothing where the snapshot cannot be
/// read.
pub open spec fn recovered<S, O>(
    disk: Disk<O>,
    blank: S,
    decode: spec_fn(Seq<u8>) -> Option<S>,
    edit: spec_fn(S, O) -> S,
) -> Option<(S, u64)> {
    match disk.scene_file {
        Some(bytes) => match snapshot::unframed(bytes) {
            Some((epoch, body)) => match decode(body) {
                Some(state) => Some(edit_log::replayed(disk.log, epoch, state, edit)),
                None => None,
            },
            None => None,
        },
        None => Some(edit_log::replayed(disk.log, 0, blank, edit)),
    }
}

/// An edit that was logged is not lost. Take a session that shows `state` at
/// `epoch`, which is what opening the project again would show. After an edit whose
/// frame, of a later epoch, was appended to the log, opening the project again shows
/// the edited state at the epoch of that frame.
pub proof fn law_logged_edit_is_recovered<S, O>(
    disk: Disk<O>,
    blank: S,
    decode: spec_fn(Seq<u8>) -> Option<S>,
    edit: spec_fn(S, O) -> S,
    state: S,
    epoch: u64,
    frame: LogFrame<O>,
)
    requires
        recovered(disk, blank, decode, edit) == Some((state, epoch)),
        frame.epoch > epoch,
    ensures
        recovered(
            Disk { scene_file: disk.scene_file, log: disk.log.push(frame) },
            blank,
            decode,
            edit,
        ) == Some((edit(state, frame.op), frame.epoch)),
{
    let (start, from) = match disk.scene_file {
        Some(bytes) => {
            let (from, body) = snapshot::unframed(bytes)->0;
            (decode(body)->0, from)
        },
        None => (blank, 0),
    };
    edit_log::lemma_replay_push(disk.log, from, start, edit, frame);
}

/// A compaction can be interrupted anywhere. Take a session that shows `state` at
/// `epoch`, which is what opening the project again would show, and whose log
/// holds no frame of a later epoch. After any number of steps of a compaction that
/// writes this state, opening the project again shows the same.
pub proof fn law_compaction_survives_a_crash<S, O>(
    disk: Disk<O>,
    blank: S,
    decode: spec_fn(Seq<u8>) -> Option<S>,
    edit: spec_fn(S, O) -> S,
    state: S,
    epoch: u64,
    body: Seq<u8>,
    steps: nat,
)
    requires
        recovered(disk, blank, decode, edit) == Some((state, epoch)),
        forall|i: int| 0 <= i < disk.log.len() ==> (#[trigger] disk.log[i]).epoch <= epoch,
        decode(body) == Some(state),
    ensures
        recovered(
            disk.after_steps(CompactStep::WriteScene, snapshot::framed(epoch, body), steps),
            blank,
            decode,
            edit,
        ) == Some((state, epoch)),
{
    let bytes = snapshot::framed(epoch, body);
    let written = disk.performed(CompactStep::WriteScene, bytes);
    let truncated = written.performed(CompactStep::TruncateLog, bytes);
    snapshot::law_framed_snapshot_reads_back(epoch, body);
    edit_log::lemma_nothing_to_replay(disk.log, epoch, state, edit);
    if steps >= 1 {
        assert(disk.after_steps(CompactStep::WriteScene, bytes, steps) == written.after_steps(
            CompactStep::TruncateLog,
            bytes,
            (steps - 1) as nat,
        ));
    }
    if steps >= 2 {
        assert(written.after_steps(CompactStep::TruncateLog, bytes, (steps - 1) as nat)
            == truncated.after_steps(CompactStep::Finished, bytes, (steps - 2) as nat));
        lemma_finished(truncated, bytes, (steps - 2) as nat);
    }
}

proof fn lemma_finished<O>(disk: Disk<O>, bytes: Seq<u8>, count: nat)
    ensures
        disk.after_steps(CompactStep::Finished, bytes, count) == disk,
    decreases count,
{
    if count > 0 {
        lemma_finished(disk, bytes, (count - 1) as nat);
    }
}

/// The log is truncated only once the new snapshot is in place: a disk whose log
/// the compaction has changed has the new snapshot.
pub proof fn law_log_is_truncated_last<O>(disk: Disk<O>, bytes: Seq<u8>, steps: nat)
    ensures
        ({
            let after = disk.after_steps(CompactStep::WriteScene, bytes, steps);
            after.log != disk.log ==> after.scene_file == Some(bytes)
        }),
{
    let written = disk.performed(CompactStep::WriteScene, bytes);
    let truncated = written.performed(CompactStep::TruncateLog, bytes);
    if steps >= 1 {
        assert(disk.after_steps(CompactStep::WriteScene, bytes, steps) == written.after_steps(
            CompactStep::TruncateLog,
            bytes,
            (steps - 1) as nat,
        ));
    }
    if steps >= 2 {
        assert(written.after_steps(CompactStep::TruncateLog, bytes, (steps - 1) as nat)
            == truncated.after_steps(CompactStep::Finished, bytes, (steps - 2) as nat));
        lemma_finished(truncated, bytes, (steps - 2) as nat);
    }
}

/// Opening a project gives back what its last compaction wrote: the epoch of the
/// history and the scene of the session that was compacted, with a reader of
/// today's format that gives back the scene that was serialised.
pub proof fn law_compacted_project_reloads<H, B, K, F, G, T, C, L, N>(
    session: ProjectSession<H, B, K>,
    read_epoch: F,
    encode: G,
    file: Vec<u8>,
    creating: bool,
    toml_file: T,
    current: C,
    line_height: L,
    no_line_height: N,
    r: Result<Snapshot, ProjectError>,
) where
    F: FnOnce(&H) -> u64,
    G: FnOnce(&Scene) -> Option<Vec<u8>>,
    T: FnOnce() -> TomlFile,
    C: FnOnce(&[u8]) -> Option<Scene>,
    L: FnOnce(&[u8]) -> Option<LegacyScene>,
    N: FnOnce(&[u8]) -> Option<LegacyScene>,

    requires
        session::compacts(session, read_epoch, encode, Ok::<Vec<u8>, ProjectError>(file)),
        forall|body: Vec<u8>, bytes: &[u8], read: Option<Scene>|
            bytes@ == body@ && #[trigger] call_ensures(encode, (&session.scene,), Some(body))
                && #[trigger] call_ensures(current, (bytes,), read) ==> read is Some
                && scene::same_scene(session.scene, read->0),
        session::loads(
            creating,
            SceneFile::Read(file),
            toml_file,
            current,
            line_height,
            no_line_height,
            r,
        ),
    ensures
        r is Ok,
        call_ensures(read_epoch, (&session.history,), r->Ok_0.epoch),
        scene::same_scene(session.scene, r->Ok_0.scene),
{
    let (epoch, body) = choose|epoch: u64, body: Option<Vec<u8>>|
        {
            &&& #[trigger] call_ensures(read_epoch, (&session.history,), epoch)
            &&& #[trigger] call_ensures(encode, (&session.scene,), body)
            &&& body is Some && file@ == snapshot::framed(epoch, body->0@)
        };
    assert(body == Some(body->0));
    snapshot::law_framed_snapshot_reads_back(epoch, body->0@);
}

/// The scene of today that an earlier one becomes.
pub open spec fn current_form(legacy: LegacyScene) -> Scene {
    choose|scene: Scene| legacy.becomes(scene)
}

/// What is shown of a serialised scene: it is read in today's format, else in the
/// newer of the earlier ones, else in the older.
pub open spec fn shown_as<S>(
    current: spec_fn(Seq<u8>) -> Option<Scene>,
    line_height: spec_fn(Seq<u8>) -> Option<LegacyScene>,
    no_line_height: spec_fn(Seq<u8>) -> Option<LegacyScene>,
    show: spec_fn(Scene) -> S,
) -> spec_fn(Seq<u8>) -> Option<S> {
    |body: Seq<u8>|
        match current(body) {
            Some(scene) => Some(show(scene)),
            None => match line_height(body) {
                Some(legacy) => Some(show(current_form(legacy))),
                None => match no_line_height(body) {
                    Some(legacy) => Some(show(current_form(legacy))),
                    None => None,
                },
            },
        }
}

/// What an earlier scene becomes is one scene, as far as scenes can be told apart.
proof fn lemma_current_form(legacy: LegacyScene, scene: Scene)
    requires
        legacy.becomes(scene),
    ensures
        scene::same_scene(scene, current_form(legacy)),
{
    let other = current_form(legacy);
    let a = maps::page_entries(scene.pages);
    let b = maps::page_entries(other.pages);
    let from = maps::legacy_page_entries(legacy.pages);
    assert(legacy.becomes(other));
    assert forall|i: int| 0 <= i < a.len() implies {
        &&& (#[trigger] a[i]).0 == b[i].0
        &&& scene::same_page(a[i].1, b[i].1)
    } by {
        assert(b[i].0 == from[i].0);
        assert(from[i].1.becomes(a[i].1) && from[i].1.becomes(b[i].1));
    }
}

/// Opening a project shows what `recovered` says of its disk, and fails where that
/// says nothing. The project is loaded from its snapshot, or after `toml` where
/// there is none, and `replay` then makes the edits in the log.
///
/// `show` is what is seen of a scene; like scenes are shown alike. The readers answer
/// as `current_of`, `line_height_of` and `no_line_height_of` say of the bytes, and
/// `replay` makes the edits of the log as `change` does on what is shown.
pub proof fn law_opening_recovers<B, L, O, T, C, M, N, R, S>(
    disk: Disk<O>,
    toml: ProjectToml,
    blank: Scene,
    stocked: Stocked<B, L>,
    scene_file: SceneFile,
    toml_file: T,
    current: C,
    line_height: M,
    no_line_height: N,
    replay: R,
    current_of: spec_fn(Seq<u8>) -> Option<Scene>,
    line_height_of: spec_fn(Seq<u8>) -> Option<LegacyScene>,
    no_line_height_of: spec_fn(Seq<u8>) -> Option<LegacyScene>,
    show: spec_fn(Scene) -> S,
    change: spec_fn(S, O) -> S,
    found: Result<Snapshot, ProjectError>,
    loaded: Loaded<B, L>,
    opened: Result<Loaded<B, L>, ProjectError>,
) where
    T: FnOnce() -> TomlFile,
    C: FnOnce(&[u8]) -> Option<Scene>,
    M: FnOnce(&[u8]) -> Option<LegacyScene>,
    N: FnOnce(&[u8]) -> Option<LegacyScene>,
    R: FnOnce(u64, &mut Scene) -> Option<u64>,

    requires
        forall|a: Scene, b: Scene| #[trigger] scene::same_scene(a, b) ==> show(a) == show(b),
        match disk.scene_file {
            Some(bytes) => scene_file is Read && scene_file->Read_0@ == bytes,
            None => scene_file is Missing,
        },
        forall|file: TomlFile| #[trigger]
            call_ensures(toml_file, (), file) ==> file == TomlFile::Parsed(toml),
        session::is_blank_scene(blank, toml),
        forall|body: &[u8], read: Option<Scene>| #[trigger]
            call_ensures(current, (body,), read) ==> read == current_of(body@),
        forall|body: &[u8], read: Option<LegacyScene>| #[trigger]
            call_ensures(line_height, (body,), read) ==> read == line_height_of(body@),
        forall|body: &[u8], read: Option<LegacyScene>| #[trigger]
            call_ensures(no_line_height, (body,), read) ==> read == no_line_height_of(body@),
        forall|from: u64, scene: &mut Scene, epoch: Option<u64>| #[trigger]
            call_ensures(replay, (from, scene), epoch) ==> {
                &&& epoch is Some
                &&& (show(*final(scene)), epoch->0) == edit_log::replayed(
                    disk.log,
                    from,
                    show(*scene),
                    change,
                )
            },
        session::loads(
            stocked.creating,
            scene_file,
            toml_file,
            current,
            line_height,
            no_line_height,
            found,
        ),
        found is Err ==> opened == Err::<Loaded<B, L>, ProjectError>(found->Err_0),
        found is Ok ==> loaded == (Loaded {
            dir: stocked.dir,
            lock: stocked.lock,
            blobs: stocked.blobs,
            scene: found->Ok_0.scene,
            epoch: found->Ok_0.epoch,
        }),
        found is Ok ==> exists|scene: &mut Scene, epoch: Option<u64>|
            {
                &&& *scene == loaded.scene
                &&& #[trigger] call_ensures(replay, (loaded.epoch, scene), epoch)
                &&& opened == match epoch {
                    Some(epoch) => Ok::<Loaded<B, L>, ProjectError>(
                        Loaded { scene: *final(scene), epoch, ..loaded },
                    ),
                    None => Err(ProjectError::ReplayLog),
                }
            },
    ensures
        recovered(
            disk,
            show(blank),
            shown_as(current_of, line_height_of, no_line_height_of, show),
            change,
        ) == match opened {
            Ok(opened) => Some((show(opened.scene), opened.epoch)),
            Err(_) => None,
        },
{
    let decode = shown_as(current_of, line_height_of, no_line_height_of, show);
    match disk.scene_file {
        None => {
            assert(scene::same_scene(found->Ok_0.scene, blank));
        },
        Some(bytes) => {
            let read = choose|read: Option<Snapshot>|
                {
                    &&& #[trigger] snapshot::reads_as(
                        bytes,
                        current,
                        line_height,
                        no_line_height,
                        read,
                    )
                    &&& found == match read {
                        Some(snapshot) => Ok::<Snapshot, ProjectError>(snapshot),
                        None => Err(ProjectError::DecodeScene),
                    }
                };
            match snapshot::unframed(bytes) {
                None => {},
                Some((epoch, rest)) => {
                    let body = choose|body: &[u8]|
                        #![trigger body@]
                        body@ == rest && snapshot::decodes(
                            epoch,
                            body,
                            current,
                            line_height,
                            no_line_height,
                            read,
                        );
                    if current_of(body@) is None && read is Some {
                        let legacy = if line_height_of(body@) is Some {
                            line_height_of(body@)->0
                        } else {
                            no_line_height_of(body@)->0
                        };
                        lemma_current_form(legacy, read->0.scene);
                    }
                    assert(decode(rest) == match read {
                        Some(snapshot) => Some(show(snapshot.scene)),
                        None => None,
                    });
                },
            }
        },
    }
}

/// Compacting a project and opening it again changes neither the epoch nor the
/// scene. The log may be truncated or still full, as long as it holds no frame past
/// the epoch of the snapshot.
///
/// `read_epoch` gives one epoch for a history, and for one that was opened at an
/// epoch gives that. Today's reader gives back the scene that was serialised.
/// `replay` makes the edits of the log as `change` does on what `show` shows of a
/// scene; like scenes are shown alike.
pub proof fn law_epoch_survives_compaction<H, B, K, F, G, T, C, L, N, R, P, O, S>(
    session: ProjectSession<H, B, K>,
    epoch: u64,
    read_epoch: F,
    encode: G,
    file: Vec<u8>,
    toml_file: T,
    current: C,
    line_height: L,
    no_line_height: N,
    found: Result<Snapshot, ProjectError>,
    log: Seq<LogFrame<O>>,
    replay: R,
    show: spec_fn(Scene) -> S,
    change: spec_fn(S, O) -> S,
    loaded: Loaded<B, K>,
    replayed: Result<Loaded<B, K>, ProjectError>,
    open: P,
    reopened: ProjectSession<H, B, K>,
    later: u64,
) where
    F: FnOnce(&H) -> u64,
    G: FnOnce(&Scene) -> Option<Vec<u8>>,
    T: FnOnce() -> TomlFile,
    C: FnOnce(&[u8]) -> Option<Scene>,
    L: FnOnce(&[u8]) -> Option<LegacyScene>,
    N: FnOnce(&[u8]) -> Option<LegacyScene>,
    R: FnOnce(u64, &mut Scene) -> Option<u64>,
    P: FnOnce(u64) -> Option<H>,

    requires
        forall|found: u64| #[trigger]
            call_ensures(read_epoch, (&session.history,), found) ==> found == epoch,
        session::compacts(session, read_epoch, encode, Ok::<Vec<u8>, ProjectError>(file)),
        forall|body: Vec<u8>, bytes: &[u8], read: Option<Scene>|
            bytes@ == body@ && #[trigger] call_ensures(encode, (&session.scene,), Some(body))
                && #[trigger] call_ensures(current, (bytes,), read) ==> read is Some
                && scene::same_scene(session.scene, read->0),
        session::loads(
            false,
            SceneFile::Read(file),
            toml_file,
            current,
            line_height,
            no_line_height,
            found,
        ),
        found is Ok ==> loaded.scene == found->Ok_0.scene && loaded.epoch == found->Ok_0.epoch,
        forall|i: int| 0 <= i < log.len() ==> (#[trigger] log[i]).epoch <= epoch,
        forall|a: Scene, b: Scene| #[trigger] scene::same_scene(a, b) ==> show(a) == show(b),
        forall|from: u64, scene: &mut Scene, answer: Option<u64>| #[trigger]
            call_ensures(replay, (from, scene), answer) ==> {
                &&& answer is Some
                &&& (show(*final(scene)), answer->0) == edit_log::replayed(
                    log,
                    from,
                    show(*scene),
                    change,
                )
            },
        exists|scene: &mut Scene, answer: Option<u64>|
            {
                &&& *scene == loaded.scene
                &&& #[trigger] call_ensures(replay, (loaded.epoch, scene), answer)
                &&& replayed == match answer {
                    Some(answer) => Ok::<Loaded<B, K>, ProjectError>(
                        Loaded { scene: *final(scene), epoch: answer, ..loaded },
                    ),
                    None => Err(ProjectError::ReplayLog),
                }
            },
        forall|at: u64, history: H, found: u64|
            #[trigger] call_ensures(open, (at,), Some(history)) && #[trigger] call_ensures(
                read_epoch,
                (&history,),
                found,
            ) ==> found == at,
        replayed is Ok ==> {
            &&& call_ensures(open, (replayed->Ok_0.epoch,), Some(reopened.history))
            &&& reopened.scene == replayed->Ok_0.scene
        },
        call_ensures(read_epoch, (&reopened.history,), later),
    ensures
        found is Ok,
        replayed is Ok,
        later == epoch,
        show(reopened.scene) == show(session.scene),
{
    law_compacted_project_reloads(
        session,
        read_epoch,
        encode,
        file,
        false,
        toml_file,
        current,
        line_height,
        no_line_height,
        found,
    );
    edit_log::lemma_nothing_to_replay(log, epoch, show(loaded.scene), change);
}

} // verus!
