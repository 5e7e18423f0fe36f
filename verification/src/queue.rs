//! The queue model: the tracks of a session in playing order, the playback
//! mode, and the position of the track that is current.

use vstd::prelude::*;
use crate::shuffle::{
    is_shuffle_of, lemma_shuffled_keeps_items, partner, shuffle_files, shuffled, swapped,
};
use crate::track::{has_audio_extension, track_views, Track, TrackView};

verus! {

/// How a session plays its queue.
#[derive(Clone, Copy, Debug, PartialEq, Eq, Structural)]
pub enum PlaybackMode {
    /// One track, repeated without end.
    SingleFileLooping,
    /// The tracks of a directory, one after the other.
    Sequential,
}

/// What the input path turned out to be.
#[derive(Debug)]
pub enum TrackSource {
    /// A single file.
    File(Track),
    /// A directory, with its entries in the order in which they were listed.
    Directory(Vec<Track>),
}

/// The entries that are admitted to a queue: those whose file name carries
/// the audio extension, in their order.
pub open spec fn audio_tracks(entries: Seq<TrackView>) -> Seq<TrackView> {
    entries.filter(|entry: TrackView| has_audio_extension(entry.name))
}

/// Whether `queue` is a queue for `source`. A single file is the only track
/// of a looping queue. A directory gives a sequential queue of the entries
/// that carry the audio extension: a shuffle of them where `shuffle` is set,
/// and the entries in their listed order otherwise.
pub open spec fn is_built_from(queue: QueueView, source: TrackSource, shuffle: bool) -> bool {
    &&& queue.position == 0
    &&& match source {
        TrackSource::File(track) => {
            &&& queue.mode is SingleFileLooping
            &&& queue.tracks == seq![track@]
        },
        TrackSource::Directory(entries) => {
            &&& queue.mode is Sequential
            &&& queue.tracks.to_multiset() == audio_tracks(track_views(entries@)).to_multiset()
            &&& if shuffle {
                is_shuffle_of(queue.tracks, audio_tracks(track_views(entries@)))
            } else {
                queue.tracks == audio_tracks(track_views(entries@))
            }
        },
    }
}

/// The tracks that the engine accepted: `tracks[i]` is among them where
/// `accepted[i]` is true. A track without a flag counts as refused.
pub open spec fn accepted_tracks(tracks: Seq<TrackView>, accepted: Seq<bool>) -> Seq<TrackView>
    decreases tracks.len(),
{
    if tracks.len() == 0 {
        tracks
    } else {
        let earlier = accepted_tracks(tracks.drop_last(), accepted);
        if tracks.len() <= accepted.len() && accepted[tracks.len() - 1] {
            earlier.push(tracks.last())
        } else {
            earlier
        }
    }
}

/// The tracks that the engine refused, in their order.
pub open spec fn refused_tracks(tracks: Seq<TrackView>, accepted: Seq<bool>) -> Seq<TrackView>
    decreases tracks.len(),
{
    if tracks.len() == 0 {
        tracks
    } else {
        let earlier = refused_tracks(tracks.drop_last(), accepted);
        if tracks.len() <= accepted.len() && accepted[tracks.len() - 1] {
            earlier
        } else {
            earlier.push(tracks.last())
        }
    }
}

/// The mathematical content of a [`Queue`].
pub struct QueueView {
    pub tracks: Seq<TrackView>,
    pub mode: PlaybackMode,
    /// Index of the current track; the number of tracks where none is.
    pub position: nat,
}

/// The tracks of a session in playing order.
#[derive(Debug)]
pub struct Queue {
    tracks: Vec<Track>,
    mode: PlaybackMode,
    position: usize,
}

impl View for Queue {
    type V = QueueView;

    closed spec fn view(&self) -> QueueView {
        QueueView {
            tracks: track_views(self.tracks@),
            mode: self.mode,
            position: self.position as nat,
        }
    }
}

impl Clone for Queue {
    fn clone(&self) -> (copy: Queue)
        ensures
            copy@ == self@,
    {
        proof {
            use_type_invariant(self);
        }
        let tracks = self.tracks.clone();
        assert(track_views(tracks@) =~= track_views(self.tracks@));
        Queue { tracks, mode: self.mode, position: self.position }
    }
}

/// What a queue always satisfies: the position lies within the tracks or
/// just past them, and a looping queue holds at most its one track.
pub open spec fn queue_inv(queue: QueueView) -> bool {
    &&& queue.position <= queue.tracks.len()
    &&& queue.mode is SingleFileLooping ==> queue.tracks.len() <= 1
}

/// How a request to advance ended.
#[derive(Clone, Copy, Debug, PartialEq, Eq, Structural)]
pub enum Advance {
    /// A looping queue has nothing to advance to.
    Refused,
    /// The engine holds no track that could be skipped.
    NothingQueued,
    /// The engine is to drop its current track and begin the next.
    Moved,
}

/// Index of the track that the engine plays while `queued` of the queue's
/// `len` tracks are still with it: the engine drains the queue from the front.
pub open spec fn engine_position(len: nat, queued: nat) -> nat {
    if queued >= len {
        0
    } else {
        (len - queued) as nat
    }
}

/// How a request to advance ends, and the position after it.
pub open spec fn advanced(queue: QueueView, queued: nat) -> (Advance, nat) {
    if queue.mode is SingleFileLooping {
        (Advance::Refused, queue.position)
    } else if queued == 0 || queue.tracks.len() == 0 {
        (Advance::NothingQueued, queue.position)
    } else {
        (Advance::Moved, engine_position(queue.tracks.len(), queued) + 1)
    }
}

/// The track at the queue's position, if there is one.
pub open spec fn current_track(queue: QueueView) -> Option<TrackView> {
    if queue.position < queue.tracks.len() {
        Some(queue.tracks[queue.position as int])
    } else {
        None
    }
}

/// A pass over the views is the view of the pass.
proof fn lemma_shuffled_views(tracks: Seq<Track>, draws: Seq<usize>, steps: nat)
    requires
        steps <= tracks.len(),
    ensures
        track_views(shuffled(tracks, draws, steps)) == shuffled(track_views(tracks), draws, steps),
    decreases steps,
{
    if steps > 0 {
        lemma_shuffled_views(tracks, draws, (steps - 1) as nat);
        lemma_shuffled_keeps_items(tracks, draws, (steps - 1) as nat);
        let before = shuffled(tracks, draws, (steps - 1) as nat);
        let i = tracks.len() - steps;
        let j = partner(draws[steps - 1], i);
        assert(track_views(swapped(before, i, j)) =~= swapped(track_views(before), i, j));
    }
}

impl Queue {
    #[verifier::type_invariant]
    spec fn well_formed(self) -> bool {
        queue_inv(self@)
    }

    /// Builds the queue of a session. A single file is its only track and
    /// loops. A directory gives the entries that carry the audio extension,
    /// shuffled where `shuffle` is set and in their listed order otherwise.
    pub fn build(source: TrackSource, shuffle: bool) -> (queue: Queue)
        ensures
            queue_inv(queue@),
            is_built_from(queue@, source, shuffle),
    {
        match source {
            TrackSource::File(track) => {
                let ghost view = track@;
                let mut tracks: Vec<Track> = Vec::new();
                tracks.push(track);
                assert(track_views(tracks@) =~= seq![view]);
                Queue { tracks, mode: PlaybackMode::SingleFileLooping, position: 0 }
            },
            TrackSource::Directory(entries) => {
                let ghost pred = |entry: TrackView| has_audio_extension(entry.name);
                let ghost listed = track_views(entries@);
                let mut tracks: Vec<Track> = Vec::new();
                proof {
                    reveal(Seq::filter);
                    assert(listed.take(0).filter(pred) =~= track_views(tracks@));
                }
                for entry in it: entries
                    invariant
                        it.seq() == entries@,
                        listed == track_views(entries@),
                        pred == (|entry: TrackView| has_audio_extension(entry.name)),
                        track_views(tracks@) == listed.take(it.index() as int).filter(pred),
                {
                    proof {
                        let seen = listed.take(it.index() as int);
                        assert(listed.take(it.index() + 1) =~= seen.push(entry@));
                        seen.lemma_filter_push(entry@, pred);
                    }
                    if entry.is_audio() {
                        let ghost earlier = tracks@;
                        tracks.push(entry);
                        assert(track_views(tracks@) =~= track_views(earlier).push(entry@));
                    }
                }
                assert(listed.take(entries@.len() as int) =~= listed);
                let ghost admitted = tracks@;
                if shuffle {
                    shuffle_files(&mut tracks);
                    proof {
                        let draws = choose|draws: Seq<usize>|
                            draws.len() == admitted.len() && tracks@ == #[trigger] shuffled(
                                admitted,
                                draws,
                                admitted.len(),
                            );
                        lemma_shuffled_views(admitted, draws, admitted.len());
                        lemma_shuffled_keeps_items(track_views(admitted), draws, admitted.len());
                    }
                }
                Queue { tracks, mode: PlaybackMode::Sequential, position: 0 }
            },
        }
    }

    /// The tracks in playing order.
    pub fn tracks(&self) -> (tracks: &Vec<Track>)
        ensures
            track_views(tracks@) == self@.tracks,
    {
        &self.tracks
    }

    /// The number of tracks.
    pub fn len(&self) -> (len: usize)
        ensures
            len == self@.tracks.len(),
    {
        self.tracks.len()
    }

    /// Whether the queue holds no track.
    pub fn is_empty(&self) -> (empty: bool)
        ensures
            empty == (self@.tracks.len() == 0),
    {
        self.tracks.len() == 0
    }

    /// The playback mode.
    pub fn mode(&self) -> (mode: PlaybackMode)
        ensures
            mode == self@.mode,
    {
        self.mode
    }

    /// Index of the current track; the number of tracks where none is.
    pub fn position(&self) -> (position: usize)
        ensures
            position == self@.position,
            queue_inv(self@),
    {
        proof {
            use_type_invariant(self);
        }
        self.position
    }

    /// The track at the queue's position, if there is one.
    pub fn current(&self) -> (track: Option<&Track>)
        ensures
            match track {
                Some(found) => current_track(self@) == Some(found@),
                None => current_track(self@) is None,
            },
    {
        if self.position < self.tracks.len() {
            Some(&self.tracks[self.position])
        } else {
            None
        }
    }

    /// Removes from the queue the tracks that the engine refused, and hands
    /// them back in their order. The position returns to the front.
    pub fn keep_accepted(&mut self, accepted: &Vec<bool>) -> (refused: Vec<Track>)
        ensures
            final(self)@.tracks == accepted_tracks(old(self)@.tracks, accepted@),
            final(self)@.mode == old(self)@.mode,
            final(self)@.position == 0,
            track_views(refused@) == refused_tracks(old(self)@.tracks, accepted@),
            queue_inv(final(self)@),
    {
        proof {
            use_type_invariant(&*self);
        }
        let ghost before = track_views(self.tracks@);
        let mut all: Vec<Track> = Vec::new();
        self.position = 0;
        core::mem::swap(&mut self.tracks, &mut all);
        let mut kept: Vec<Track> = Vec::new();
        let mut refused: Vec<Track> = Vec::new();
        let mut i: usize = 0;
        let count: usize = all.len();
        assert(before.take(0) =~= Seq::<TrackView>::empty());
        for track in it: all
            invariant
                it.seq() == all@,
                count == all@.len(),
                before == track_views(all@),
                i == it.index(),
                track_views(kept@) == accepted_tracks(before.take(i as int), accepted@),
                track_views(refused@) == refused_tracks(before.take(i as int), accepted@),
        {
            proof {
                assert(i < all@.len());
                let seen = before.take(i + 1);
                assert(seen.drop_last() =~= before.take(i as int));
                assert(seen.last() == track@);
            }
            if i < accepted.len() && accepted[i] {
                let ghost earlier = kept@;
                kept.push(track);
                assert(track_views(kept@) =~= track_views(earlier).push(track@));
            } else {
                let ghost earlier = refused@;
                refused.push(track);
                assert(track_views(refused@) =~= track_views(earlier).push(track@));
            }
            i = i + 1;
        }
        proof {
            assert(before.take(i as int) =~= before);
            lemma_accepted_len(before, accepted@);
        }
        self.tracks = kept;
        refused
    }

    /// Answers a request to advance while the engine still holds `queued`
    /// tracks. Where the queue moves, its position becomes that of the track
    /// after the one the engine is playing.
    pub fn advance(&mut self, queued: usize) -> (result: Advance)
        ensures
            (result, final(self)@.position) == advanced(old(self)@, queued as nat),
            final(self)@.tracks == old(self)@.tracks,
            final(self)@.mode == old(self)@.mode,
            queue_inv(final(self)@),
    {
        proof {
            use_type_invariant(&*self);
        }
        match self.mode {
            PlaybackMode::SingleFileLooping => Advance::Refused,
            PlaybackMode::Sequential => {
                let len: usize = self.tracks.len();
                if queued == 0 || len == 0 {
                    Advance::NothingQueued
                } else {
                    let playing: usize = if queued >= len {
                        0
                    } else {
                        len - queued
                    };
                    self.position = playing + 1;
                    Advance::Moved
                }
            },
        }
    }
}

/// No more tracks are accepted than were offered.
pub proof fn lemma_accepted_len(tracks: Seq<TrackView>, accepted: Seq<bool>)
    ensures
        accepted_tracks(tracks, accepted).len() <= tracks.len(),
    decreases tracks.len(),
{
    if tracks.len() > 0 {
        lemma_accepted_len(tracks.drop_last(), accepted);
    }
}

/// The admitted entries, counted: each entry that carries the audio
/// extension occurs as often as it was listed, and no other entry occurs.
pub proof fn lemma_audio_tracks_counts(entries: Seq<TrackView>)
    ensures
        audio_tracks(entries).to_multiset() == entries.to_multiset().filter(
            |entry: TrackView| has_audio_extension(entry.name),
        ),
    decreases entries.len(),
{
    broadcast use vstd::multiset::group_multiset_axioms;

    let pred = |entry: TrackView| has_audio_extension(entry.name);
    if entries.len() == 0 {
        reveal(Seq::filter);
        assert(entries.filter(pred) =~= entries);
        entries.to_multiset_ensures();
        assert(entries.to_multiset() =~= entries.to_multiset().filter(pred));
    } else {
        let rest = entries.drop_last();
        let last = entries.last();
        assert(entries =~= rest.push(last));
        lemma_audio_tracks_counts(rest);
        rest.lemma_filter_push(last, pred);
        vstd::seq_lib::to_multiset_build(rest, last);
        if pred(last) {
            vstd::seq_lib::to_multiset_build(rest.filter(pred), last);
        }
        assert(rest.push(last).filter(pred).to_multiset() =~= rest.push(last).to_multiset().filter(
            pred,
        ));
    }
}

/// A queue built from a directory holds exactly the entries that carry the
/// audio extension: a track is in it if and only if it was listed and
/// carries the extension.
pub proof fn lemma_audio_tracks_exact(entries: Seq<TrackView>, track: TrackView)
    ensures
        audio_tracks(entries).contains(track) <==> entries.contains(track) && has_audio_extension(
            track.name,
        ),
{
    broadcast use vstd::multiset::group_multiset_axioms;

    let pred = |entry: TrackView| has_audio_extension(entry.name);
    lemma_audio_tracks_counts(entries);
    vstd::seq_lib::to_multiset_contains(entries, track);
    vstd::seq_lib::to_multiset_contains(audio_tracks(entries), track);
    assert(entries.to_multiset().filter(pred).count(track) == if pred(track) {
        entries.to_multiset().count(track)
    } else {
        0
    });
}

/// The order in which a directory lists its entries does not change which
/// tracks are admitted, nor how often.
pub proof fn lemma_listing_order_is_irrelevant(first: Seq<TrackView>, second: Seq<TrackView>)
    requires
        first.to_multiset() == second.to_multiset(),
    ensures
        audio_tracks(first).to_multiset() == audio_tracks(second).to_multiset(),
{
    lemma_audio_tracks_counts(first);
    lemma_audio_tracks_counts(second);
}

} // verus!
