//! The session: the state of one run of the player, and the state machine
//! that answers each input line with an action for the audio engine and
//! the lines to print.

use vstd::prelude::*;
use vstd::string::StringExecFns;
use crate::command::{
    help_lines, help_text, lemma_alias_equivalence, request_of, tokens_of, verb_aliases, Command,
    Request, RequestView, Verb,
};
use crate::error::{error_text, PlayerError};
use crate::queue::{
    accepted_tracks, advanced, current_track, is_built_from, lemma_accepted_len, queue_inv,
    refused_tracks, Advance, Queue, QueueView, TrackSource,
};
use crate::text::texts;
use crate::track::{track_views, Track, TrackView};
use crate::volume::{lowered, mute_toggled, raised, step_or_default, volume_line, Volume};

verus! {

/// Where a session stands.
#[derive(Clone, Copy, Debug, PartialEq, Eq, Structural)]
pub enum Phase {
    /// The queue is built; the engine has not been started.
    Initializing,
    Playing,
    Paused,
    /// The exit command was given. No later line has any effect.
    Exited,
}

/// What the audio engine reports of itself before a line is answered.
#[derive(Clone, Copy, Debug)]
pub struct EngineStatus {
    pub volume: Volume,
    pub paused: bool,
    /// The number of tracks that the engine still holds, the playing one
    /// included.
    pub queued: usize,
}

/// The mathematical content of an [`EngineStatus`].
pub struct StatusView {
    pub volume: int,
    pub paused: bool,
    pub queued: nat,
}

impl View for EngineStatus {
    type V = StatusView;

    open spec fn view(&self) -> StatusView {
        StatusView { volume: self.volume@, paused: self.paused, queued: self.queued as nat }
    }
}

/// What the caller is to do with the audio engine.
#[derive(Clone, Copy, Debug, PartialEq, Eq)]
pub enum Action {
    Nothing,
    Resume,
    Pause,
    SetVolume(Volume),
    SkipCurrent,
    /// Leave the loop and release the engine.
    Exit,
}

/// The mathematical content of an [`Action`].
pub enum ActionView {
    Nothing,
    Resume,
    Pause,
    SetVolume(int),
    SkipCurrent,
    Exit,
}

impl View for Action {
    type V = ActionView;

    open spec fn view(&self) -> ActionView {
        match *self {
            Action::Nothing => ActionView::Nothing,
            Action::Resume => ActionView::Resume,
            Action::Pause => ActionView::Pause,
            Action::SetVolume(level) => ActionView::SetVolume(level@),
            Action::SkipCurrent => ActionView::SkipCurrent,
            Action::Exit => ActionView::Exit,
        }
    }
}

/// The answer to one event: the action for the engine, the lines to print,
/// and the failure that the lines report, if any.
#[derive(Debug)]
pub struct Outcome {
    pub action: Action,
    pub lines: Vec<String>,
    pub error: Option<PlayerError>,
}

/// The mathematical content of an [`Outcome`].
pub struct OutcomeView {
    pub action: ActionView,
    pub lines: Seq<Seq<char>>,
    pub error: Option<PlayerError>,
}

impl View for Outcome {
    type V = OutcomeView;

    open spec fn view(&self) -> OutcomeView {
        OutcomeView { action: self.action@, lines: texts(self.lines@), error: self.error }
    }
}

/// The mathematical content of a [`Session`].
pub struct SessionView {
    pub queue: QueueView,
    /// The name of the track that was announced last; empty before any was.
    pub currently_playing: Seq<char>,
    pub shuffle: bool,
    pub phase: Phase,
}

/// An answer that prints nothing.
pub open spec fn quiet(action: ActionView) -> OutcomeView {
    OutcomeView { action, lines: Seq::empty(), error: None }
}

/// An answer that prints `lines`.
pub open spec fn said(action: ActionView, lines: Seq<Seq<char>>) -> OutcomeView {
    OutcomeView { action, lines, error: None }
}

/// The answer to a line that cannot be carried out: the failure is
/// reported in one line and the engine is left alone.
pub open spec fn failed(error: PlayerError) -> OutcomeView {
    OutcomeView { action: ActionView::Nothing, lines: seq![error_text(error)], error: Some(error) }
}

/// The line that announces a track.
pub open spec fn announcement(name: Seq<char>) -> Seq<char> {
    "Playing: "@ + name
}

/// The line that reports a track which the engine refused.
pub open spec fn refusal(track: TrackView) -> Seq<char> {
    error_text(PlayerError::UnsupportedFormat) + ": "@ + track.name
}

/// The lines that report the refused tracks, in their order.
pub open spec fn refusals(refused: Seq<TrackView>) -> Seq<Seq<char>> {
    refused.map_values(|track: TrackView| refusal(track))
}

/// The line that confirms the shuffle flag.
pub open spec fn shuffle_line(enabled: bool) -> Seq<char> {
    if enabled {
        "shuffle enabled"@
    } else {
        "shuffle disabled"@
    }
}

/// The step of a raise or a lower. A line without an argument takes the
/// default step (`Some(None)`); one whose argument was read as a number
/// takes that number; one whose argument is no number has no step (`None`).
pub open spec fn step_given(argument: Option<Seq<char>>, amount: Option<i64>) -> Option<
    Option<i64>,
> {
    match argument {
        None => Some(None),
        Some(_) => match amount {
            Some(percent) => Some(Some(percent)),
            None => None,
        },
    }
}

/// The answer that sets the level and reports it.
pub open spec fn level_set(level: int) -> OutcomeView {
    said(ActionView::SetVolume(level), seq![volume_line(level)])
}

/// A session after its start, and the answer of the start. The refused
/// tracks leave the queue and are reported; the first track that is left is
/// announced; the engine is to play. A session that was started before is
/// left as it is.
pub open spec fn started(s: SessionView, accepted: Seq<bool>) -> (SessionView, OutcomeView) {
    if !(s.phase is Initializing) {
        (s, quiet(ActionView::Nothing))
    } else {
        let tracks = accepted_tracks(s.queue.tracks, accepted);
        let refused = refused_tracks(s.queue.tracks, accepted);
        let queue = QueueView { tracks, mode: s.queue.mode, position: 0 };
        let error = if refused.len() > 0 {
            Some(PlayerError::UnsupportedFormat)
        } else {
            None
        };
        if tracks.len() > 0 {
            (
                SessionView {
                    queue,
                    currently_playing: tracks[0].name,
                    shuffle: s.shuffle,
                    phase: Phase::Playing,
                },
                OutcomeView {
                    action: ActionView::Resume,
                    lines: refusals(refused).push(announcement(tracks[0].name)),
                    error,
                },
            )
        } else {
            (
                SessionView {
                    queue,
                    currently_playing: s.currently_playing,
                    shuffle: s.shuffle,
                    phase: Phase::Playing,
                },
                OutcomeView { action: ActionView::Resume, lines: refusals(refused), error },
            )
        }
    }
}

/// A session after a request to advance, and the answer to it. A looping
/// queue refuses; an engine that holds nothing has nothing to skip. Else
/// the engine is to skip, and the track that comes next is announced unless
/// it bears the name that was announced last.
pub open spec fn advance_step(s: SessionView, queued: nat) -> (SessionView, OutcomeView) {
    let (result, position) = advanced(s.queue, queued);
    let queue = QueueView { tracks: s.queue.tracks, mode: s.queue.mode, position };
    match result {
        Advance::Refused => (s, said(ActionView::Nothing, seq!["You can't skip"@])),
        Advance::NothingQueued => (s, said(ActionView::Nothing, seq!["Nothing to skip"@])),
        Advance::Moved => match current_track(queue) {
            Some(track) => if track.name != s.currently_playing {
                (
                    SessionView {
                        queue,
                        currently_playing: track.name,
                        shuffle: s.shuffle,
                        phase: s.phase,
                    },
                    said(ActionView::SkipCurrent, seq![announcement(track.name)]),
                )
            } else {
                (
                    SessionView {
                        queue,
                        currently_playing: s.currently_playing,
                        shuffle: s.shuffle,
                        phase: s.phase,
                    },
                    quiet(ActionView::SkipCurrent),
                )
            },
            None => (
                SessionView {
                    queue,
                    currently_playing: s.currently_playing,
                    shuffle: s.shuffle,
                    phase: s.phase,
                },
                quiet(ActionView::SkipCurrent),
            ),
        },
    }
}

/// A session after one command, and the answer to it.
pub open spec fn verb_step(
    s: SessionView,
    verb: Verb,
    argument: Option<Seq<char>>,
    amount: Option<i64>,
    e: StatusView,
) -> (SessionView, OutcomeView) {
    match verb {
        Verb::Play => if e.paused {
            (
                SessionView {
                    queue: s.queue,
                    currently_playing: s.currently_playing,
                    shuffle: s.shuffle,
                    phase: Phase::Playing,
                },
                quiet(ActionView::Resume),
            )
        } else {
            (
                SessionView {
                    queue: s.queue,
                    currently_playing: s.currently_playing,
                    shuffle: s.shuffle,
                    phase: Phase::Paused,
                },
                quiet(ActionView::Pause),
            )
        },
        Verb::Mute => (s, level_set(mute_toggled(e.volume))),
        Verb::Next => advance_step(s, e.queued),
        Verb::Volume => (s, said(ActionView::Nothing, seq![volume_line(e.volume)])),
        Verb::Raise => match step_given(argument, amount) {
            Some(step) => (s, level_set(raised(e.volume, step_or_default(step)))),
            None => (s, failed(PlayerError::InvalidArgument)),
        },
        Verb::Lower => match step_given(argument, amount) {
            Some(step) => (s, level_set(lowered(e.volume, step_or_default(step)))),
            None => (s, failed(PlayerError::InvalidArgument)),
        },
        Verb::Shuffle => (
            SessionView {
                queue: s.queue,
                currently_playing: s.currently_playing,
                shuffle: !s.shuffle,
                phase: s.phase,
            },
            said(ActionView::Nothing, seq![shuffle_line(!s.shuffle)]),
        ),
        Verb::Exit => (
            SessionView {
                queue: s.queue,
                currently_playing: s.currently_playing,
                shuffle: s.shuffle,
                phase: Phase::Exited,
            },
            quiet(ActionView::Exit),
        ),
    }
}

/// The state machine: a session after one request, and the answer to it.
/// `amount` is the request's argument read as a number of percent, where it
/// is one; `e` is what the engine reported before the request. A session
/// that has not started, or has exited, is left as it is.
pub open spec fn step(s: SessionView, r: RequestView, amount: Option<i64>, e: StatusView) -> (
    SessionView,
    OutcomeView,
) {
    if !(s.phase is Playing || s.phase is Paused) {
        (s, quiet(ActionView::Nothing))
    } else {
        match r.command {
            Command::Help(topic) => (s, said(ActionView::Nothing, help_text(topic))),
            Command::Do(verb) => verb_step(s, verb, r.argument, amount, e),
            Command::Unknown => (s, failed(PlayerError::UnknownCommand)),
        }
    }
}

/// One run of the player.
#[derive(Debug)]
pub struct Session {
    queue: Queue,
    currently_playing: String,
    shuffle: bool,
    phase: Phase,
}

impl View for Session {
    type V = SessionView;

    closed spec fn view(&self) -> SessionView {
        SessionView {
            queue: self.queue@,
            currently_playing: self.currently_playing@,
            shuffle: self.shuffle,
            phase: self.phase,
        }
    }
}

impl Clone for Session {
    fn clone(&self) -> (copy: Session)
        ensures
            copy@ == self@,
    {
        Session {
            queue: self.queue.clone(),
            currently_playing: self.currently_playing.clone(),
            shuffle: self.shuffle,
            phase: self.phase,
        }
    }
}

/// An answer that prints nothing.
fn quiet_outcome(action: Action) -> (outcome: Outcome)
    ensures
        outcome@ == quiet(action@),
{
    let lines: Vec<String> = Vec::new();
    assert(texts(lines@) =~= Seq::<Seq<char>>::empty());
    Outcome { action, lines, error: None }
}

/// An answer of one line.
fn one_line(action: Action, line: String) -> (outcome: Outcome)
    ensures
        outcome@ == said(action@, seq![line@]),
{
    let lines: Vec<String> = vec![line];
    assert(texts(lines@) =~= seq![line@]);
    Outcome { action, lines, error: None }
}

/// The answer to a line that cannot be carried out.
fn failure(error: PlayerError) -> (outcome: Outcome)
    ensures
        outcome@ == failed(error),
{
    let lines: Vec<String> = vec![String::from_str(error.message())];
    assert(texts(lines@) =~= seq![error_text(error)]);
    Outcome { action: Action::Nothing, lines, error: Some(error) }
}

/// The answer that sets the level and reports it.
fn set_level(level: Volume) -> (outcome: Outcome)
    ensures
        outcome@ == level_set(level@),
{
    one_line(Action::SetVolume(level), level.report())
}

/// The line that announces a track.
fn announce(name: &str) -> (line: String)
    ensures
        line@ == announcement(name@),
{
    let mut line = String::from_str("Playing: ");
    line.append(name);
    line
}

impl Session {
    /// A session for `source`, not yet started. The shuffle flag is set, so
    /// the tracks of a directory are shuffled.
    pub fn new(source: TrackSource) -> (session: Session)
        ensures
            session@.phase is Initializing,
            session@.shuffle,
            session@.currently_playing == Seq::<char>::empty(),
            is_built_from(session@.queue, source, true),
            queue_inv(session@.queue),
    {
        let queue = Queue::build(source, true);
        Session {
            queue,
            currently_playing: String::new(),
            shuffle: true,
            phase: Phase::Initializing,
        }
    }

    /// Starts the session once the caller has handed the tracks of the queue
    /// to the engine. `accepted[i]` tells whether the engine took track `i`.
    pub fn start(&mut self, accepted: &Vec<bool>) -> (outcome: Outcome)
        ensures
            (final(self)@, outcome@) == started(old(self)@, accepted@),
    {
        match self.phase {
            Phase::Initializing => {},
            _ => {
                return quiet_outcome(Action::Nothing);
            },
        }
        let refused = self.queue.keep_accepted(accepted);
        let mut lines: Vec<String> = Vec::new();
        let ghost gone = track_views(refused@);
        assert(refusals(gone.take(0)) =~= texts(lines@));
        let mut i: usize = 0;
        while i < refused.len()
            invariant
                i <= refused.len(),
                gone == track_views(refused@),
                texts(lines@) == refusals(gone.take(i as int)),
            decreases refused.len() - i,
        {
            let mut line = String::from_str(PlayerError::UnsupportedFormat.message());
            line.append(": ");
            line.append(refused[i].name.as_str());
            let ghost earlier = lines@;
            lines.push(line);
            proof {
                assert(line@ == refusal(gone[i as int]));
                assert(texts(lines@) =~= texts(earlier).push(line@));
                assert(gone.take(i + 1) =~= gone.take(i as int).push(gone[i as int]));
                assert(refusals(gone.take(i + 1)) =~= refusals(gone.take(i as int)).push(
                    refusal(gone[i as int]),
                ));
            }
            i = i + 1;
        }
        assert(gone.take(refused@.len() as int) =~= gone);
        let error = if refused.len() > 0 {
            Some(PlayerError::UnsupportedFormat)
        } else {
            None
        };
        if self.queue.len() > 0 {
            let tracks = self.queue.tracks();
            let name = tracks[0].name.clone();
            assert(name@ == self.queue@.tracks[0].name);
            let line = announce(name.as_str());
            let ghost earlier = lines@;
            lines.push(line);
            assert(texts(lines@) =~= texts(earlier).push(line@));
            self.currently_playing = name;
        }
        self.phase = Phase::Playing;
        Outcome { action: Action::Resume, lines, error }
    }
    /// Answers one request. `amount` is the request's argument read as a
    /// number of percent, or `None` where it is no number; `status` is what
    /// the engine reported before the request. Failures are caught here:
    /// they are reported in the answer's lines and leave the session as it
    /// was.
    pub fn apply(&mut self, request: &Request, amount: Option<i64>, status: EngineStatus) -> (outcome:
        Outcome)
        ensures
            (final(self)@, outcome@) == step(old(self)@, request@, amount, status@),
    {
        match self.phase {
            Phase::Playing | Phase::Paused => {},
            _ => {
                return quiet_outcome(Action::Nothing);
            },
        }
        match request.command {
            Command::Help(topic) => {
                let lines = help_lines(topic);
                Outcome { action: Action::Nothing, lines, error: None }
            },
            Command::Unknown => failure(PlayerError::UnknownCommand),
            Command::Do(verb) => match verb {
                Verb::Play => {
                    if status.paused {
                        self.phase = Phase::Playing;
                        quiet_outcome(Action::Resume)
                    } else {
                        self.phase = Phase::Paused;
                        quiet_outcome(Action::Pause)
                    }
                },
                Verb::Mute => set_level(status.volume.toggle_mute()),
                Verb::Next => self.advance(status.queued),
                Verb::Volume => one_line(Action::Nothing, status.volume.report()),
                Verb::Raise => match read_step(&request.argument, amount) {
                    Some(step) => set_level(status.volume.raise(step)),
                    None => failure(PlayerError::InvalidArgument),
                },
                Verb::Lower => match read_step(&request.argument, amount) {
                    Some(step) => set_level(status.volume.lower(step)),
                    None => failure(PlayerError::InvalidArgument),
                },
                Verb::Shuffle => {
                    self.shuffle = !self.shuffle;
                    let line = if self.shuffle {
                        String::from_str("shuffle enabled")
                    } else {
                        String::from_str("shuffle disabled")
                    };
                    one_line(Action::Nothing, line)
                },
                Verb::Exit => {
                    self.phase = Phase::Exited;
                    quiet_outcome(Action::Exit)
                },
            },
        }
    }

    /// Answers a request to advance while the engine holds `queued` tracks.
    fn advance(&mut self, queued: usize) -> (outcome: Outcome)
        ensures
            (final(self)@, outcome@) == advance_step(old(self)@, queued as nat),
    {
        match self.queue.advance(queued) {
            Advance::Refused => one_line(Action::Nothing, String::from_str("You can't skip")),
            Advance::NothingQueued => one_line(
                Action::Nothing,
                String::from_str("Nothing to skip"),
            ),
            Advance::Moved => {
                let name: Option<String> = match self.queue.current() {
                    Some(track) => Some(track.name.clone()),
                    None => None,
                };
                match name {
                    Some(name) => {
                        if name == self.currently_playing {
                            quiet_outcome(Action::SkipCurrent)
                        } else {
                            let line = announce(name.as_str());
                            self.currently_playing = name;
                            one_line(Action::SkipCurrent, line)
                        }
                    },
                    None => quiet_outcome(Action::SkipCurrent),
                }
            },
        }
    }

    /// The queue of the session.
    pub fn queue(&self) -> (queue: &Queue)
        ensures
            queue@ == self@.queue,
    {
        &self.queue
    }

    /// The name of the track that was announced last; empty before any was.
    pub fn currently_playing(&self) -> (name: &str)
        ensures
            name@ == self@.currently_playing,
    {
        self.currently_playing.as_str()
    }

    /// Whether the shuffle flag is set.
    pub fn shuffle(&self) -> (shuffle: bool)
        ensures
            shuffle == self@.shuffle,
    {
        self.shuffle
    }

    /// Where the session stands.
    pub fn phase(&self) -> (phase: Phase)
        ensures
            phase == self@.phase,
    {
        self.phase
    }
}

/// The step of a raise or a lower, from the argument and what it was read as.
fn read_step(argument: &Option<String>, amount: Option<i64>) -> (step: Option<Option<i64>>)
    ensures
        step == step_given(
            match *argument {
                Some(text) => Some(text@),
                None => None,
            },
            amount,
        ),
{
    match argument {
        None => Some(None),
        Some(_) => match amount {
            Some(percent) => Some(Some(percent)),
            None => None,
        },
    }
}

/// A line that names no command is answered with one line of complaint and
/// changes nothing: the session stays as it was and the engine is left alone.
pub proof fn lemma_unknown_changes_nothing(
    s: SessionView,
    r: RequestView,
    amount: Option<i64>,
    e: StatusView,
)
    requires
        r.command is Unknown,
        s.phase is Playing || s.phase is Paused,
    ensures
        step(s, r, amount, e).0 == s,
        step(s, r, amount, e).1 == failed(PlayerError::UnknownCommand),
        step(s, r, amount, e).1.action is Nothing,
{
}

/// A failure never touches the session or the engine.
pub proof fn lemma_failure_changes_nothing(
    s: SessionView,
    r: RequestView,
    amount: Option<i64>,
    e: StatusView,
)
    requires
        step(s, r, amount, e).1.error is Some,
    ensures
        step(s, r, amount, e).0 == s,
        step(s, r, amount, e).1.action is Nothing,
        !(step(s, r, amount, e).1.error == Some(PlayerError::Io)),
{
}

/// Alias equivalence: two lines whose first tokens are names of the same
/// command, and whose other tokens agree, take a session to the same state
/// and get the same answer.
pub proof fn lemma_alias_same_step(
    s: SessionView,
    line_a: Seq<char>,
    line_b: Seq<char>,
    verb: Verb,
    amount: Option<i64>,
    e: StatusView,
)
    requires
        verb_aliases(verb).contains(tokens_of(line_a)[0]),
        verb_aliases(verb).contains(tokens_of(line_b)[0]),
        tokens_of(line_a).skip(1) == tokens_of(line_b).skip(1),
    ensures
        step(s, request_of(line_a), amount, e) == step(s, request_of(line_b), amount, e),
        step(s, request_of(line_a), amount, e) == if s.phase is Playing || s.phase is Paused {
            verb_step(s, verb, request_of(line_a).argument, amount, e)
        } else {
            (s, quiet(ActionView::Nothing))
        },
{
    lemma_alias_equivalence(line_a, line_b, verb);
}

/// The play command toggles: it resumes a paused engine and pauses a
/// playing one, whatever the session held before.
pub proof fn lemma_play_toggles(s: SessionView, argument: Option<Seq<char>>, amount: Option<i64>, e: StatusView)
    ensures
        e.paused ==> verb_step(s, Verb::Play, argument, amount, e).1 == quiet(ActionView::Resume)
            && verb_step(s, Verb::Play, argument, amount, e).0.phase is Playing,
        !e.paused ==> verb_step(s, Verb::Play, argument, amount, e).1 == quiet(ActionView::Pause)
            && verb_step(s, Verb::Play, argument, amount, e).0.phase is Paused,
{
}

/// No request changes the tracks of the queue or its mode; the position
/// stays within the queue; a level that the engine is told to take lies
/// on the scale; and a session that has exited stays so.
pub proof fn lemma_step_keeps_session_sound(
    s: SessionView,
    r: RequestView,
    amount: Option<i64>,
    e: StatusView,
)
    requires
        queue_inv(s.queue),
    ensures
        queue_inv(step(s, r, amount, e).0.queue),
        step(s, r, amount, e).0.queue.tracks == s.queue.tracks,
        step(s, r, amount, e).0.queue.mode == s.queue.mode,
        step(s, r, amount, e).1.action matches ActionView::SetVolume(level) ==> 0 <= level <= 100,
        s.phase is Exited ==> step(s, r, amount, e).0 == s,
        !(step(s, r, amount, e).0.phase is Initializing) || s.phase is Initializing,
{
}

/// The moves of the state machine: a session starts once, then plays or is
/// paused until it exits, and stays exited.
pub open spec fn may_follow(before: Phase, after: Phase) -> bool {
    match before {
        Phase::Initializing => after is Initializing || after is Playing,
        Phase::Playing => after is Playing || after is Paused || after is Exited,
        Phase::Paused => after is Playing || after is Paused || after is Exited,
        Phase::Exited => after is Exited,
    }
}

/// Every start and every request moves the session along the state machine.
/// Only the exit command ends it, and nothing but the start begins it.
pub proof fn lemma_phases_follow_the_machine(
    s: SessionView,
    r: RequestView,
    amount: Option<i64>,
    e: StatusView,
    accepted: Seq<bool>,
)
    ensures
        may_follow(s.phase, step(s, r, amount, e).0.phase),
        may_follow(s.phase, started(s, accepted).0.phase),
        s.phase is Initializing ==> started(s, accepted).0.phase is Playing && step(
            s,
            r,
            amount,
            e,
        ).0.phase is Initializing,
        step(s, r, amount, e).0.phase is Exited && !(s.phase is Exited) ==> r.command
            == Command::Do(Verb::Exit) && step(s, r, amount, e).1.action is Exit,
{
}

/// The start keeps the queue sound, keeps only tracks that it held, and
/// asks the engine to play.
pub proof fn lemma_start_keeps_session_sound(s: SessionView, accepted: Seq<bool>)
    requires
        queue_inv(s.queue),
    ensures
        queue_inv(started(s, accepted).0.queue),
        started(s, accepted).0.queue.mode == s.queue.mode,
        started(s, accepted).0.queue.tracks.len() <= s.queue.tracks.len(),
        started(s, accepted).0.shuffle == s.shuffle,
        s.phase is Initializing ==> started(s, accepted).1.action is Resume,
{
    lemma_accepted_len(s.queue.tracks, accepted);
}

} // verus!
