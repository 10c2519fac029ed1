//! File-change notifications and their once-per-frame coalescing.
//!
//! A watcher outside the verified boundary posts notifications into a queue;
//! the render loop drains that queue non-blockingly once per frame and hands
//! the drained batch here. However many change notifications one frame
//! drained, they coalesce into a single reload trigger.

use vstd::prelude::*;

verus! {

/// What kind of notification the watcher delivered for the watched path.
#[derive(Copy, Clone, PartialEq, Eq, Structural, Debug)]
pub enum WatchEventKind {
    /// The watched file was written.
    Write,
    /// The watched file was created or re-created.
    Create,
    /// Any other notification (a removal, a metadata change); never
    /// triggers a reload.
    Other,
}

/// One notification drained from the watch queue.
pub struct WatchEvent {
    pub kind: WatchEventKind,
    /// The affected path, as the notification reported it.
    pub path: String,
}

/// Whether one notification reports new contents of the watched file.
pub open spec fn is_change(e: WatchEvent) -> bool {
    e.kind == WatchEventKind::Write || e.kind == WatchEventKind::Create
}

/// Whether a frame's drained notifications call for a reload at all.
pub open spec fn spec_wants_reload(events: Seq<WatchEvent>) -> bool {
    exists|i: int| 0 <= i < events.len() && is_change(#[trigger] events[i])
}

/// The position of the first change notification in a frame's drained
/// batch, if any. All queued changes coalesce into this one trigger, so a
/// frame attempts at most one reload.
pub fn first_change_index(events: &Vec<WatchEvent>) -> (r: Option<usize>)
    ensures
        (r is Some) == spec_wants_reload(events@),
        match r {
            Some(i) => i < events@.len() && is_change(events@[i as int]) && forall|j: int|
                0 <= j < i ==> !is_change(#[trigger] events@[j]),
            None => true,
        },
{
    let n = events.len();
    let mut i: usize = 0;
    while i < n
        invariant
            n == events@.len(),
            i <= n,
            forall|j: int| 0 <= j < i ==> !is_change(#[trigger] events@[j]),
        decreases n - i,
    {
        let k = events[i].kind;
        if k == WatchEventKind::Write || k == WatchEventKind::Create {
            return Some(i);
        }
        i = i + 1;
    }
    None
}

} // verus!
