//! Tracks and the file-name rule that admits them to a queue.

use vstd::prelude::*;
use vstd::string::StrSliceExecFns;
use crate::text::{chars_of, same_text};

verus! {

/// Index of the last `.` in `name`, or -1 where it has none.
pub open spec fn last_dot(name: Seq<char>) -> int
    decreases name.len(),
{
    if name.len() == 0 {
        -1
    } else if name.last() == '.' {
        name.len() - 1
    } else {
        last_dot(name.drop_last())
    }
}

/// The extension of a file name: what follows its last `.`. A name without
/// a `.`, or whose only `.` is its first character, has none.
pub open spec fn extension_of(name: Seq<char>) -> Option<Seq<char>> {
    if last_dot(name) <= 0 {
        None
    } else {
        Some(name.subrange(last_dot(name) + 1, name.len() as int))
    }
}

/// The extension that marks a file as playable.
pub open spec fn audio_extension() -> Seq<char> {
    "mp3"@
}

/// Whether a file of this name is admitted to a queue built from a directory.
/// The comparison is case-sensitive.
pub open spec fn has_audio_extension(name: Seq<char>) -> bool {
    extension_of(name) == Some(audio_extension())
}

/// `last_dot` finds a `.`, and no `.` follows it.
pub proof fn lemma_last_dot(name: Seq<char>)
    ensures
        -1 <= last_dot(name) < name.len(),
        last_dot(name) >= 0 ==> name[last_dot(name)] == '.',
        forall|k: int| last_dot(name) < k < name.len() ==> name[k] != '.',
    decreases name.len(),
{
    if name.len() > 0 && name.last() != '.' {
        let rest = name.drop_last();
        lemma_last_dot(rest);
        assert forall|k: int| last_dot(name) < k < name.len() implies name[k] != '.' by {
            if k < rest.len() {
                assert(rest[k] == name[k]);
            }
        }
    }
}

/// A `.` that no `.` follows is the one that `last_dot` finds.
pub proof fn lemma_last_dot_unique(name: Seq<char>, dot: int)
    requires
        0 <= dot < name.len(),
        name[dot] == '.',
        forall|k: int| dot < k < name.len() ==> name[k] != '.',
    ensures
        last_dot(name) == dot,
    decreases name.len(),
{
    if dot < name.len() - 1 {
        let rest = name.drop_last();
        assert(name.last() == name[name.len() - 1]);
        assert forall|k: int| dot < k < rest.len() implies rest[k] != '.' by {
            assert(rest[k] == name[k]);
        }
        lemma_last_dot_unique(rest, dot);
    }
}

/// A file name carries the audio extension exactly when it ends in `.mp3`
/// and has at least one character before that.
pub proof fn lemma_audio_extension_is_suffix(name: Seq<char>)
    ensures
        has_audio_extension(name) <==> name.len() > 4 && name.subrange(
            name.len() - 4,
            name.len() as int,
        ) == ".mp3"@,
{
    reveal_strlit("mp3");
    reveal_strlit(".mp3");
    lemma_last_dot(name);
    let n = name.len() as int;
    if has_audio_extension(name) {
        let dot = last_dot(name);
        let ext = name.subrange(dot + 1, n);
        assert(ext == "mp3"@);
        assert(ext.len() == 3);
        assert(name[dot + 1] == ext[0] && name[dot + 2] == ext[1] && name[dot + 3] == ext[2]);
        assert(name.subrange(n - 4, n) =~= ".mp3"@);
    }
    if n > 4 && name.subrange(n - 4, n) == ".mp3"@ {
        let tail = name.subrange(n - 4, n);
        assert(name[n - 4] == tail[0] && name[n - 3] == tail[1] && name[n - 2] == tail[2] && name[n
            - 1] == tail[3]);
        lemma_last_dot_unique(name, n - 4);
        assert(name.subrange(n - 3, n) =~= "mp3"@);
    }
}

/// The extension of a file name.
pub fn extension(name: &str) -> (ext: Option<String>)
    ensures
        match ext {
            Some(text) => extension_of(name@) == Some(text@),
            None => extension_of(name@) is None,
        },
{
    let chars = chars_of(name);
    let mut end: usize = chars.len();
    assert(chars@.take(end as int) =~= chars@);
    while end > 0 && chars[end - 1] != '.'
        invariant
            chars@ == name@,
            end <= chars.len(),
            last_dot(chars@) == last_dot(chars@.take(end as int)),
        decreases end,
    {
        assert(chars@.take(end as int).drop_last() =~= chars@.take(end - 1));
        end = end - 1;
    }
    // `end` is one past the last dot, or 0 where there is none.
    if end <= 1 {
        None
    } else {
        Some(name.substring_char(end, chars.len()).to_owned())
    }
}

/// One playable item: where it lies and the name it is announced by.
#[derive(Debug, PartialEq, Eq)]
pub struct Track {
    /// The path that identifies the file.
    pub path: String,
    /// The file name, without its directory.
    pub name: String,
}

/// The mathematical content of a [`Track`].
pub struct TrackView {
    pub path: Seq<char>,
    pub name: Seq<char>,
}

impl View for Track {
    type V = TrackView;

    open spec fn view(&self) -> TrackView {
        TrackView { path: self.path@, name: self.name@ }
    }
}

impl Clone for Track {
    fn clone(&self) -> (copy: Track)
        ensures
            copy == *self,
    {
        Track { path: self.path.clone(), name: self.name.clone() }
    }
}

/// The views of a sequence of tracks.
pub open spec fn track_views(tracks: Seq<Track>) -> Seq<TrackView> {
    tracks.map_values(|track: Track| track@)
}

impl Track {
    /// A track from its path and its file name.
    pub fn new(path: String, name: String) -> (track: Track)
        ensures
            track@ == (TrackView { path: path@, name: name@ }),
    {
        Track { path, name }
    }

    /// Whether the track's file name carries the audio extension.
    pub fn is_audio(&self) -> (audio: bool)
        ensures
            audio == has_audio_extension(self@.name),
    {
        match extension(self.name.as_str()) {
            Some(text) => same_text(text.as_str(), "mp3"),
            None => false,
        }
    }
}

} // verus!
