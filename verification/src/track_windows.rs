//! The state of the two windows that edit event tracks: the track editor
//! and the clip preview beside it, and how each answers the requests
//! addressed to it. Their geometry (scrolling, camera, seek times) is the
//! caller's and is carried through unchanged.
use vstd::prelude::*;
use crate::pins::NodeId;
use crate::text_order::{is_text_sort_of, sort_by_text, text_le, TextKeyed};

verus! {

/// Whose event tracks are edited: an animation clip's, or those of an
/// event markup node of a graph.
#[derive(Debug, Clone, Copy)]
pub enum TargetTracks<H> {
    Clip(H),
    GraphNode { graph: H, node: NodeId },
}

/// The track editor: how its timeline is scrolled, the event selected,
/// and the tracks edited.
#[derive(Debug)]
pub struct EventTrackEditorWindow<S, H> {
    pub scroll_config: S,
    pub selected_track: Option<String>,
    pub selected_event: Option<u128>,
    pub target_tracks: Option<TargetTracks<H>>,
}

/// A request to the track editor.
#[derive(Debug)]
pub enum EventTrackEditorAction<S, H> {
    SelectEvent { track_name: String, event_id: u128 },
    SetScrollConfig(S),
    SetTrackSource(Option<TargetTracks<H>>),
}

impl<S, H> EventTrackEditorWindow<S, H> {
    /// A track editor scrolled as `scroll_config`, with nothing selected
    /// and no tracks to edit.
    pub fn new(scroll_config: S) -> (w: Self)
        ensures
            w.scroll_config == scroll_config,
            w.selected_track is None,
            w.selected_event is None,
            w.target_tracks is None,
    {
        EventTrackEditorWindow { scroll_config, selected_track: None, selected_event: None, target_tracks: None }
    }

    /// Answers a request: selecting an event selects its track too.
    pub fn handle_action(&mut self, action: EventTrackEditorAction<S, H>)
        ensures
            match action {
                EventTrackEditorAction::SelectEvent { track_name, event_id } => {
                    &&& final(self).selected_track == Some(track_name)
                    &&& final(self).selected_event == Some(event_id)
                    &&& final(self).scroll_config == old(self).scroll_config
                    &&& final(self).target_tracks == old(self).target_tracks
                },
                EventTrackEditorAction::SetScrollConfig(c) => {
                    &&& final(self).scroll_config == c
                    &&& final(self).selected_track == old(self).selected_track
                    &&& final(self).selected_event == old(self).selected_event
                    &&& final(self).target_tracks == old(self).target_tracks
                },
                EventTrackEditorAction::SetTrackSource(t) => {
                    &&& final(self).target_tracks == t
                    &&& final(self).scroll_config == old(self).scroll_config
                    &&& final(self).selected_track == old(self).selected_track
                    &&& final(self).selected_event == old(self).selected_event
                },
            },
    {
        match action {
            EventTrackEditorAction::SelectEvent { track_name, event_id } => {
                self.selected_track = Some(track_name);
                self.selected_event = Some(event_id);
            },
            EventTrackEditorAction::SetScrollConfig(c) => {
                self.scroll_config = c;
            },
            EventTrackEditorAction::SetTrackSource(t) => {
                self.target_tracks = t;
            },
        }
    }
}

/// The clip preview: its camera, the tracks previewed, the scene they play
/// in, the last playback order not yet carried out, and the time it shows.
#[derive(Debug)]
pub struct ClipPreviewWindow<V, H, A, O, T> {
    pub orbit_view: V,
    pub target: Option<TargetTracks<H>>,
    pub base_scene: Option<A>,
    pub last_order: Option<O>,
    pub current_time: Option<T>,
}

/// A request to the clip preview.
#[derive(Debug)]
pub enum ClipPreviewAction<H, A, O> {
    TimingOrder(O),
    SelectTarget(Option<TargetTracks<H>>),
    SelectBaseScene(A),
}

impl<V, H, A, O, T> ClipPreviewWindow<V, H, A, O, T> {
    /// Answers a request: a playback order waits to be carried out, the
    /// others replace what they name.
    pub fn handle_action(&mut self, action: ClipPreviewAction<H, A, O>)
        ensures
            final(self).orbit_view == old(self).orbit_view,
            final(self).current_time == old(self).current_time,
            match action {
                ClipPreviewAction::TimingOrder(o) => {
                    &&& final(self).last_order == Some(o)
                    &&& final(self).target == old(self).target
                    &&& final(self).base_scene == old(self).base_scene
                },
                ClipPreviewAction::SelectTarget(t) => {
                    &&& final(self).target == t
                    &&& final(self).last_order == old(self).last_order
                    &&& final(self).base_scene == old(self).base_scene
                },
                ClipPreviewAction::SelectBaseScene(a) => {
                    &&& final(self).base_scene == Some(a)
                    &&& final(self).target == old(self).target
                    &&& final(self).last_order == old(self).last_order
                },
            },
    {
        match action {
            ClipPreviewAction::TimingOrder(o) => {
                self.last_order = Some(o);
            },
            ClipPreviewAction::SelectTarget(t) => {
                self.target = t;
            },
            ClipPreviewAction::SelectBaseScene(a) => {
                self.base_scene = Some(a);
            },
        }
    }
}


/// `r` holds the tracks of `tracks` (name and track pairs), each once, in
/// the order of their names; `src` tells for each position of `r` the
/// position of `tracks` it came from.
pub open spec fn is_sorted_tracks<T>(r: Seq<T>, tracks: Seq<(String, T)>, src: Seq<int>) -> bool {
    &&& r.len() == tracks.len()
    &&& src.len() == r.len()
    &&& forall|a: int| 0 <= a < r.len() ==> 0 <= #[trigger] src[a] < tracks.len() && r[a] == tracks[src[a]].1
    &&& forall|a: int, b: int| 0 <= a < b < r.len() ==> #[trigger] src[a] != #[trigger] src[b]
    &&& forall|a: int, b: int| 0 <= a < b < r.len() ==> text_le(tracks[#[trigger] src[a]].0@, tracks[#[trigger] src[b]].0@)
}

/// The tracks of a track list, given with their names, in the order of
/// their names; tracks with the same name may come in either order.
pub fn sorted_tracks<T>(tracks: Vec<(String, T)>) -> (r: Vec<T>)
    ensures
        exists|src: Seq<int>| #[trigger] is_sorted_tracks(r@, tracks@, src),
{
    let ghost input = tracks@;
    let sorted = sort_by_text(tracks);
    let ghost s = sorted@;
    let n = sorted.len();
    let mut rest = sorted;
    let mut out: Vec<T> = Vec::new();
    let mut i: usize = 0;
    while i < n
        invariant
            n == s.len(),
            i <= n,
            rest@ == s.subrange(i as int, n as int),
            out@.len() == i,
            forall|k: int| 0 <= k < i ==> #[trigger] out@[k] == s[k].1,
        decreases n - i,
    {
        let (_, track) = rest.remove(0);
        proof {
            assert(rest@ =~= s.subrange(i + 1, n as int));
        }
        out.push(track);
        i = i + 1;
    }
    proof {
        let src = choose|src: Seq<int>| #[trigger] is_text_sort_of(s, input, src);
        assert forall|a: int, b: int| 0 <= a < b < out@.len() implies text_le(input[#[trigger] src[a]].0@, input[#[trigger] src[b]].0@) by {
            assert(text_le(s[a].key_text(), s[b].key_text()));
        }
        assert(is_sorted_tracks(out@, input, src));
    }
    out
}

} // verus!
