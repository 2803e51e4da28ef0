//! The log of the edits since the last snapshot.

use vstd::prelude::*;

use crate::project::ProjectError;
use crate::scene;
use crate::scene::Scene;
use crate::session;
use crate::session::{Loaded, ProjectSession, ProjectToml, TomlFile};
use crate::snapshot::Snapshot;

verus! {

/// An edit in the log, and the epoch that it led to.
pub struct LogFrame<O> {
    pub epoch: u64,
    pub op: O,
}

/// What replaying the frames of `log` past the epoch `from` makes of `state`: each
/// edit is made by `edit`, in order, and the last of them gives the epoch.
pub open spec fn replayed<S, O>(
    log: Seq<LogFrame<O>>,
    from: u64,
    state: S,
    edit: spec_fn(S, O) -> S,
) -> (S, u64)
    decreases log.len(),
{
    if log.len() == 0 {
        (state, from)
    } else {
        let front = replayed(log.drop_last(), from, state, edit);
        if log.last().epoch > from {
            (edit(front.0, log.last().op), log.last().epoch)
        } else {
            front
        }
    }
}

/// Frames that are not past the epoch change nothing.
pub proof fn lemma_nothing_to_replay<S, O>(
    log: Seq<LogFrame<O>>,
    from: u64,
    state: S,
    edit: spec_fn(S, O) -> S,
)
    requires
        forall|i: int| 0 <= i < log.len() ==> (#[trigger] log[i]).epoch <= from,
    ensures
        replayed(log, from, state, edit) == (state, from),
    decreases log.len(),
{
    if log.len() > 0 {
        assert(log[log.len() - 1].epoch <= from);
        assert forall|i: int| 0 <= i < log.drop_last().len() implies (
        #[trigger] log.drop_last()[i]).epoch <= from by {
            assert(log.drop_last()[i] == log[i]);
        }
        lemma_nothing_to_replay(log.drop_last(), from, state, edit);
    }
}

/// A frame of a later epoch is replayed last.
pub proof fn lemma_replay_push<S, O>(
    log: Seq<LogFrame<O>>,
    from: u64,
    state: S,
    edit: spec_fn(S, O) -> S,
    frame: LogFrame<O>,
)
    requires
        frame.epoch > replayed(log, from, state, edit).1,
    ensures
        replayed(log.push(frame), from, state, edit) == (
            edit(replayed(log, from, state, edit).0, frame.op),
            frame.epoch,
        ),
{
    lemma_replay_goes_on(log, from, state, edit);
    assert(log.push(frame).drop_last() =~= log);
}

proof fn lemma_replay_goes_on<S, O>(
    log: Seq<LogFrame<O>>,
    from: u64,
    state: S,
    edit: spec_fn(S, O) -> S,
)
    ensures
        replayed(log, from, state, edit).1 >= from,
    decreases log.len(),
{
    if log.len() > 0 {
        lemma_replay_goes_on(log.drop_last(), from, state, edit);
    }
}

/// What the edits in `frames` make of `state`, each made by `edit`, in order.
pub open spec fn edited<S, O>(
    state: S,
    frames: Seq<LogFrame<O>>,
    edit: spec_fn(S, O) -> S,
) -> S
    decreases frames.len(),
{
    if frames.len() == 0 {
        state
    } else {
        edit(edited(state, frames.drop_last(), edit), frames.last().op)
    }
}

/// Whether the epochs of `frames` rise from `from` on.
pub open spec fn rising<O>(from: u64, frames: Seq<LogFrame<O>>) -> bool {
    &&& forall|i: int| 0 <= i < frames.len() ==> from < (#[trigger] frames[i]).epoch
    &&& forall|i: int, j: int|
        0 <= i < j < frames.len() ==> (#[trigger] frames[i]).epoch < (#[trigger] frames[j]).epoch
}

/// Replaying a log whose epochs rise from that of the state makes every edit in it,
/// and leads to the epoch of the last.
pub proof fn law_replay_makes_every_edit<S, O>(
    frames: Seq<LogFrame<O>>,
    from: u64,
    state: S,
    edit: spec_fn(S, O) -> S,
)
    requires
        rising(from, frames),
    ensures
        replayed(frames, from, state, edit) == (
            edited(state, frames, edit),
            if frames.len() == 0 {
                from
            } else {
                frames.last().epoch
            },
        ),
    decreases frames.len(),
{
    if frames.len() > 0 {
        let front = frames.drop_last();
        assert forall|i: int| 0 <= i < front.len() implies #[trigger] front[i] == frames[i] by {}
        law_replay_makes_every_edit(front, from, state, edit);
        assert(from < frames[frames.len() - 1].epoch);
    }
}

/// What a history keeps of an edit: whether from `before` to `after` one frame was
/// appended, of a later epoch than the last.
pub open spec fn logs<O>(
    before: Seq<LogFrame<O>>,
    at: u64,
    op: O,
    after: Seq<LogFrame<O>>,
    epoch: u64,
) -> bool {
    &&& at < epoch
    &&& after == before.push(LogFrame { epoch, op })
}

proof fn lemma_log_leads_to<S, O>(
    shown: Seq<S>,
    frames: Seq<Seq<LogFrame<O>>>,
    epochs: Seq<u64>,
    ops: Seq<O>,
    edit: spec_fn(S, O) -> S,
    n: nat,
)
    requires
        n <= ops.len(),
        shown.len() == ops.len() + 1,
        frames.len() == ops.len() + 1,
        epochs.len() == ops.len() + 1,
        frames[0] == Seq::<LogFrame<O>>::empty(),
        epochs[0] == 0,
        forall|i: int|
            0 <= i < ops.len() ==> {
                &&& shown[i + 1] == edit(shown[i], #[trigger] ops[i])
                &&& logs(frames[i], epochs[i], ops[i], frames[i + 1], epochs[i + 1])
            },
    ensures
        replayed(frames[n as int], 0, shown[0], edit) == (shown[n as int], epochs[n as int]),
    decreases n,
{
    if n > 0 {
        let i = n - 1;
        lemma_log_leads_to(shown, frames, epochs, ops, edit, i as nat);
        assert(shown[i + 1] == edit(shown[i], ops[i]));
        lemma_replay_push(
            frames[i],
            0,
            shown[0],
            edit,
            LogFrame { epoch: epochs[i + 1], op: ops[i] },
        );
    }
}

/// The log alone restores the edits of a new project. The sessions are those of a
/// project that was created after `toml`, before the first and after each of `ops`,
/// all of which were applied; there was no compaction. The project is then opened
/// again: it is loaded after `toml`, `replay` makes the edits in the log, and `open`
/// opens a history at the epoch that this leads to. The session `restored` shows what
/// the last session showed, and its history is at the same epoch.
///
/// `show` is what is seen of a scene; like scenes are shown alike. The history is
/// known by what it keeps: the frames of its log, and its epoch. An edit that it
/// applies changes what is shown as `change` does, and appends one frame of a later
/// epoch.
pub proof fn law_log_alone_restores_the_edits<H, B, L, O, E, F, R, P, S>(
    toml: ProjectToml,
    sessions: Seq<ProjectSession<H, B, L>>,
    ops: Seq<O>,
    edit: F,
    frames_of: spec_fn(H) -> Seq<LogFrame<O>>,
    epoch_of: spec_fn(H) -> u64,
    show: spec_fn(Scene) -> S,
    change: spec_fn(S, O) -> S,
    snapshot: Snapshot,
    loaded: Loaded<B, L>,
    replay: R,
    reopened: Result<Loaded<B, L>, ProjectError>,
    open: P,
    restored: ProjectSession<H, B, L>,
) where
    F: FnOnce(&mut H, &mut Scene, O) -> Result<u64, E>,
    R: FnOnce(u64, &mut Scene) -> Option<u64>,
    P: FnOnce(u64) -> Option<H>,

    requires
        forall|a: Scene, b: Scene| #[trigger] scene::same_scene(a, b) ==> show(a) == show(b),
        forall|history: &mut H, scene: &mut Scene, op: O, epoch: u64| #[trigger]
            call_ensures(edit, (history, scene, op), Ok::<u64, E>(epoch)) ==> {
                &&& show(*final(scene)) == change(show(*scene), op)
                &&& epoch_of(*final(history)) == epoch
                &&& logs(
                    frames_of(*history),
                    epoch_of(*history),
                    op,
                    frames_of(*final(history)),
                    epoch,
                )
            },
        sessions.len() == ops.len() + 1,
        session::is_blank_scene(sessions[0].scene, toml),
        frames_of(sessions[0].history) == Seq::<LogFrame<O>>::empty(),
        epoch_of(sessions[0].history) == 0,
        forall|i: int|
            0 <= i < ops.len() ==> exists|history: &mut H, scene: &mut Scene, epoch: u64|
                {
                    &&& *history == sessions[i].history
                    &&& *scene == sessions[i].scene
                    &&& #[trigger] call_ensures(
                        edit,
                        (history, scene, #[trigger] ops[i]),
                        Ok::<u64, E>(epoch),
                    )
                    &&& sessions[i + 1] == (ProjectSession {
                        history: *final(history),
                        scene: *final(scene),
                        ..sessions[i]
                    })
                },
        session::starts_from(
            false,
            TomlFile::Parsed(toml),
            Ok::<Snapshot, ProjectError>(snapshot),
        ),
        loaded.scene == snapshot.scene,
        loaded.epoch == snapshot.epoch,
        forall|from: u64, scene: &mut Scene, epoch: Option<u64>| #[trigger]
            call_ensures(replay, (from, scene), epoch) ==> {
                &&& epoch is Some
                &&& (show(*final(scene)), epoch->0) == replayed(
                    frames_of(sessions.last().history),
                    from,
                    show(*scene),
                    change,
                )
            },
        exists|scene: &mut Scene, epoch: Option<u64>|
            {
                &&& *scene == loaded.scene
                &&& #[trigger] call_ensures(replay, (loaded.epoch, scene), epoch)
                &&& reopened == match epoch {
                    Some(epoch) => Ok::<Loaded<B, L>, ProjectError>(
                        Loaded { scene: *final(scene), epoch, ..loaded },
                    ),
                    None => Err(ProjectError::ReplayLog),
                }
            },
        forall|at: u64, history: H| #[trigger]
            call_ensures(open, (at,), Some(history)) ==> epoch_of(history) == at,
        reopened is Ok ==> {
            &&& call_ensures(open, (reopened->Ok_0.epoch,), Some(restored.history))
            &&& restored.scene == reopened->Ok_0.scene
        },
    ensures
        reopened is Ok,
        show(restored.scene) == show(sessions.last().scene),
        epoch_of(restored.history) == epoch_of(sessions.last().history),
{
    let shown = sessions.map_values(|s: ProjectSession<H, B, L>| show(s.scene));
    let frames = sessions.map_values(|s: ProjectSession<H, B, L>| frames_of(s.history));
    let epochs = sessions.map_values(|s: ProjectSession<H, B, L>| epoch_of(s.history));
    assert forall|i: int| 0 <= i < ops.len() implies {
        &&& shown[i + 1] == change(shown[i], #[trigger] ops[i])
        &&& logs(frames[i], epochs[i], ops[i], frames[i + 1], epochs[i + 1])
    } by {}
    lemma_log_leads_to(shown, frames, epochs, ops, change, ops.len());
    assert(scene::same_scene(loaded.scene, sessions[0].scene));
}

} // verus!
