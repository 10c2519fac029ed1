//! The render loop's state machine: the current scene, the two drawable
//! sets derived from it, and the running flag. A frame handles input first,
//! then at most one reload attempt; the scene and its sets are replaced
//! atomically and only after a whole new scene decoded, so a failed reload
//! leaves the last good scene rendering.

use vstd::prelude::*;
use crate::scene::{Scene, SceneView};
use crate::geometry::{
    build_line_set, build_point_set, indexable, line_set_of, point_set_of, scene_indexable,
    DrawableSet, DrawableSetView,
};
use crate::codec::{decode_scene, spec_decode, DecodeError};
use crate::watch::{first_change_index, spec_wants_reload, WatchEvent};

verus! {

/// Why a reload attempt left the current scene in place.
#[derive(Copy, Clone, PartialEq, Eq, Structural, Debug)]
pub enum ReloadError {
    /// The new bytes did not decode; nothing was replaced.
    Decode(DecodeError),
    /// The new bytes decoded, but the scene has too many primitives for
    /// 32-bit drawable indices; nothing was replaced.
    SceneTooLarge,
}

/// The render loop state, as the per-frame decisions see it.
#[verifier::ext_equal]
pub struct ViewerView {
    pub running: bool,
    pub scene: SceneView,
    pub line_set: DrawableSetView,
    pub point_set: DrawableSetView,
}

impl ViewerView {
    /// Well-formed: the drawable sets are exactly the two the current scene
    /// yields, and the scene's indices fit the 32-bit index width.
    pub open spec fn wf(self) -> bool {
        indexable(self.scene) && self.line_set == line_set_of(self.scene) && self.point_set
            == point_set_of(self.scene)
    }
}

/// The render loop's owned state. The scene and its drawable sets change
/// only together, and only when a whole new scene decoded.
pub struct ViewerState {
    pub running: bool,
    pub scene: Scene,
    pub line_set: DrawableSet,
    pub point_set: DrawableSet,
}

impl View for ViewerState {
    type V = ViewerView;

    open spec fn view(&self) -> ViewerView {
        ViewerView {
            running: self.running,
            scene: self.scene@,
            line_set: self.line_set@,
            point_set: self.point_set@,
        }
    }
}

/// One frame's outside happenings, as the state machine sees them: whether
/// a close was requested, the notifications the frame drained, and the
/// watched file's bytes where a change was signalled and the read
/// succeeded (`None` stands for "no read happened, or it failed").
pub struct FrameInput {
    pub close_requested: bool,
    pub events: Seq<WatchEvent>,
    pub contents: Option<Seq<u8>>,
}

/// The bytes a frame was handed, as the specification sees them.
pub open spec fn contents_view(c: Option<&Vec<u8>>) -> Option<Seq<u8>> {
    match c {
        Some(b) => Some(b@),
        None => None,
    }
}

/// What one frame does to the state: a close request clears the running
/// flag; a signalled change whose bytes decode to an indexable scene
/// replaces the scene and both drawable sets at once; anything else leaves
/// scene and sets untouched.
pub open spec fn spec_frame(v: ViewerView, input: FrameInput) -> ViewerView {
    let stay = ViewerView { running: v.running && !input.close_requested, ..v };
    if spec_wants_reload(input.events) {
        match input.contents {
            Some(b) => match spec_decode(b) {
                Some(s) => if indexable(s) {
                    ViewerView {
                        running: stay.running,
                        scene: s,
                        line_set: line_set_of(s),
                        point_set: point_set_of(s),
                    }
                } else {
                    stay
                },
                None => stay,
            },
            None => stay,
        }
    } else {
        stay
    }
}

/// The state after a whole sequence of frames.
pub open spec fn spec_run(v: ViewerView, inputs: Seq<FrameInput>) -> ViewerView
    decreases inputs.len(),
{
    if inputs.len() == 0 {
        v
    } else {
        spec_run(spec_frame(v, inputs[0]), inputs.drop_first())
    }
}

impl ViewerState {
    /// Builds the startup state from the input file's initial bytes. Fails
    /// exactly where a reload would: bytes that do not decode, or a scene
    /// too large to index.
    pub fn new(bytes: &Vec<u8>) -> (r: Result<ViewerState, ReloadError>)
        ensures
            match r {
                Ok(v) => v@.wf() && v@.running && spec_decode(bytes@) == Some(v@.scene),
                Err(e) => match e {
                    ReloadError::Decode(_) => spec_decode(bytes@) is None,
                    ReloadError::SceneTooLarge => spec_decode(bytes@) matches Some(s)
                        && !indexable(s),
                },
            },
    {
        match decode_scene(bytes) {
            Ok(scene) => {
                if scene_indexable(&scene) {
                    let line_set = build_line_set(&scene);
                    let point_set = build_point_set(&scene);
                    Ok(ViewerState { running: true, scene, line_set, point_set })
                } else {
                    Err(ReloadError::SceneTooLarge)
                }
            },
            Err(e) => Err(ReloadError::Decode(e)),
        }
    }

    /// Attempts to replace the current scene with freshly read bytes. On
    /// success the scene and both drawable sets are swapped together; on any
    /// failure every part of the state is exactly what it was, so the last
    /// good scene keeps rendering.
    pub fn apply_reload(&mut self, bytes: &Vec<u8>) -> (r: Result<(), ReloadError>)
        requires
            old(self)@.wf(),
        ensures
            final(self)@.wf(),
            final(self).running == old(self).running,
            match r {
                Ok(()) => spec_decode(bytes@) matches Some(s) && indexable(s)
                    && final(self)@.scene == s,
                Err(e) => final(self)@ == old(self)@ && (match e {
                    ReloadError::Decode(_) => spec_decode(bytes@) is None,
                    ReloadError::SceneTooLarge => spec_decode(bytes@) matches Some(s)
                        && !indexable(s),
                }),
            },
    {
        match decode_scene(bytes) {
            Ok(scene) => {
                if scene_indexable(&scene) {
                    let line_set = build_line_set(&scene);
                    let point_set = build_point_set(&scene);
                    self.scene = scene;
                    self.line_set = line_set;
                    self.point_set = point_set;
                    Ok(())
                } else {
                    Err(ReloadError::SceneTooLarge)
                }
            },
            Err(e) => Err(ReloadError::Decode(e)),
        }
    }

    /// One frame of the running loop, in the loaded order: input first (a
    /// close request clears the running flag), then at most one reload
    /// attempt for however many change notifications the frame drained.
    /// Returns the reload attempt's outcome, or `None` where none was due
    /// or the file could not be read.
    pub fn frame(
        &mut self,
        close_requested: bool,
        events: &Vec<WatchEvent>,
        contents: Option<&Vec<u8>>,
    ) -> (r: Option<Result<(), ReloadError>>)
        requires
            old(self)@.wf(),
            old(self)@.running,
        ensures
            final(self)@.wf(),
            final(self)@ == spec_frame(
                old(self)@,
                FrameInput {
                    close_requested,
                    events: events@,
                    contents: contents_view(contents),
                },
            ),
            (r is None) == (!spec_wants_reload(events@) || contents is None),
            r matches Some(Ok(())) ==> contents matches Some(b) && spec_decode(b@) matches Some(s)
                && indexable(s),
            r matches Some(Err(e)) ==> contents matches Some(b) && (match e {
                ReloadError::Decode(_) => spec_decode(b@) is None,
                ReloadError::SceneTooLarge => spec_decode(b@) matches Some(s) && !indexable(s),
            }),
    {
        if close_requested {
            self.running = false;
        }
        let change = first_change_index(events);
        match change {
            Some(_) => match contents {
                Some(b) => Some(self.apply_reload(b)),
                None => None,
            },
            None => None,
        }
    }
}

/// A frame with no change notification, no readable bytes, or bytes that do
/// not decode leaves the scene and both drawable sets exactly as they were.
pub proof fn lemma_failed_reload_preserves_state(v: ViewerView, input: FrameInput)
    requires
        !spec_wants_reload(input.events) || input.contents is None || (input.contents matches Some(
            b,
        ) && spec_decode(b) is None),
    ensures
        spec_frame(v, input).scene == v.scene,
        spec_frame(v, input).line_set == v.line_set,
        spec_frame(v, input).point_set == v.point_set,
{
}

/// Appending one frame to a run is running the frame on the run's result.
pub proof fn lemma_run_push(v: ViewerView, inputs: Seq<FrameInput>, x: FrameInput)
    ensures
        spec_run(v, inputs.push(x)) == spec_frame(spec_run(v, inputs), x),
    decreases inputs.len(),
{
    if inputs.len() == 0 {
        assert(inputs.push(x)[0] == x);
        assert(inputs.push(x).drop_first() =~= Seq::<FrameInput>::empty());
        assert(spec_run(v, inputs.push(x)) == spec_run(
            spec_frame(v, x),
            inputs.push(x).drop_first(),
        ));
        assert(spec_run(spec_frame(v, x), inputs.push(x).drop_first()) == spec_frame(v, x));
        assert(spec_run(v, inputs) == v);
    } else {
        assert(inputs.push(x)[0] == inputs[0]);
        assert(inputs.push(x).drop_first() =~= inputs.drop_first().push(x));
        lemma_run_push(spec_frame(v, inputs[0]), inputs.drop_first(), x);
        assert(spec_run(v, inputs.push(x)) == spec_run(
            spec_frame(v, inputs[0]),
            inputs.drop_first().push(x),
        ));
        assert(spec_run(v, inputs) == spec_run(spec_frame(v, inputs[0]), inputs.drop_first()));
    }
}

proof fn lemma_single_change_run_upto(
    v: ViewerView,
    inputs: Seq<FrameInput>,
    k: int,
    j: int,
)
    requires
        0 <= k < inputs.len(),
        forall|m: int| 0 <= m < inputs.len() && m != k ==> !spec_wants_reload(
            #[trigger] inputs[m].events,
        ),
        0 <= j <= k,
    ensures
        spec_run(v, inputs.take(j)).scene == v.scene,
        spec_run(v, inputs.take(j)).line_set == v.line_set,
        spec_run(v, inputs.take(j)).point_set == v.point_set,
    decreases j,
{
    if j == 0 {
        assert(inputs.take(0) =~= Seq::<FrameInput>::empty());
    } else {
        lemma_single_change_run_upto(v, inputs, k, j - 1);
        assert(inputs.take(j) =~= inputs.take(j - 1).push(inputs[j - 1]));
        lemma_run_push(v, inputs.take(j - 1), inputs[j - 1]);
    }
}

proof fn lemma_single_change_run_after(
    v: ViewerView,
    inputs: Seq<FrameInput>,
    k: int,
    s: SceneView,
    j: int,
)
    requires
        0 <= k < inputs.len(),
        forall|m: int| 0 <= m < inputs.len() && m != k ==> !spec_wants_reload(
            #[trigger] inputs[m].events,
        ),
        spec_wants_reload(inputs[k].events),
        inputs[k].contents matches Some(b) && spec_decode(b) == Some(s),
        indexable(s),
        k < j <= inputs.len(),
    ensures
        spec_run(v, inputs.take(j)).scene == s,
        spec_run(v, inputs.take(j)).line_set == line_set_of(s),
        spec_run(v, inputs.take(j)).point_set == point_set_of(s),
    decreases j - k,
{
    if j == k + 1 {
        lemma_single_change_run_upto(v, inputs, k, k);
        assert(inputs.take(j) =~= inputs.take(k).push(inputs[k]));
        lemma_run_push(v, inputs.take(k), inputs[k]);
    } else {
        lemma_single_change_run_after(v, inputs, k, s, j - 1);
        assert(inputs.take(j) =~= inputs.take(j - 1).push(inputs[j - 1]));
        lemma_run_push(v, inputs.take(j - 1), inputs[j - 1]);
    }
}

/// Simulating a run whose frames drain exactly one change notification, at
/// frame `k`, with bytes that decode to an indexable scene `s`: every frame
/// up to and including `k` starts from the initial scene and drawable sets
/// unchanged, frame `k` performs the one replacement, and every later frame
/// renders `s` with its freshly built sets. Exactly one decode-and-rebuild
/// happens, at frame `k`.
pub proof fn lemma_single_change_run(
    v: ViewerView,
    inputs: Seq<FrameInput>,
    k: int,
    s: SceneView,
)
    requires
        0 <= k < inputs.len(),
        forall|m: int| 0 <= m < inputs.len() && m != k ==> !spec_wants_reload(
            #[trigger] inputs[m].events,
        ),
        spec_wants_reload(inputs[k].events),
        inputs[k].contents matches Some(b) && spec_decode(b) == Some(s),
        indexable(s),
    ensures
        forall|j: int| 0 <= j <= k ==> #[trigger] spec_run(v, inputs.take(j)).scene == v.scene
            && spec_run(v, inputs.take(j)).line_set == v.line_set && spec_run(
            v,
            inputs.take(j),
        ).point_set == v.point_set,
        forall|j: int| k < j <= inputs.len() ==> #[trigger] spec_run(v, inputs.take(j)).scene == s
            && spec_run(v, inputs.take(j)).line_set == line_set_of(s) && spec_run(
            v,
            inputs.take(j),
        ).point_set == point_set_of(s),
{
    assert forall|j: int| 0 <= j <= k implies #[trigger] spec_run(v, inputs.take(j)).scene
        == v.scene && spec_run(v, inputs.take(j)).line_set == v.line_set && spec_run(
        v,
        inputs.take(j),
    ).point_set == v.point_set by {
        lemma_single_change_run_upto(v, inputs, k, j);
    }
    assert forall|j: int| k < j <= inputs.len() implies #[trigger] spec_run(
        v,
        inputs.take(j),
    ).scene == s && spec_run(v, inputs.take(j)).line_set == line_set_of(s) && spec_run(
        v,
        inputs.take(j),
    ).point_set == point_set_of(s) by {
        lemma_single_change_run_after(v, inputs, k, s, j);
    }
}

} // verus!
