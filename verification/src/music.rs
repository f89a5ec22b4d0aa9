use std::collections::VecDeque;
use vstd::prelude::*;
use crate::rng::{lehmer_next, Rng};

verus! {

/// How notes are articulated.
#[derive(Clone, Copy, PartialEq, Eq, Debug, Structural)]
pub enum MusicStyle {
    Foreground,
    Background,
    Normal,
    Legato,
    Staccato,
}

/// One element of a piece of ANSI music. A note's frequency is carried as
/// the bit pattern of its `f32` value; the timing never looks at it.
#[derive(Clone, Copy, PartialEq, Eq, Debug, Structural)]
pub enum MusicAction {
    SetStyle(MusicStyle),
    /// frequency bits, note length (1 = whole note, 4 = quarter, ...), dotted
    PlayNote(u32, u32, bool),
    /// rest length
    Pause(u32),
}

/// What the player does for one action.
#[derive(Clone, Copy, PartialEq, Eq, Debug, Structural)]
pub enum SoundCommand {
    /// Nothing to play (a style change).
    Nothing,
    /// Sound the frequency for `play_ms`, then stay silent for `pause_ms`.
    Tone { freq_bits: u32, play_ms: u64, pause_ms: u64 },
    /// Stay silent.
    Rest { ms: u64 },
}

/// Full length of a note in ms: 300 000 / length, or 420 000 / length when dotted.
pub open spec fn note_length_ms(length: u32, dotted: bool) -> u64 {
    ((if dotted { 420_000int } else { 300_000int }) / (length as int)) as u64
}

/// The silent tail of a note of `duration` ms in a style.
pub open spec fn pause_ms(style: MusicStyle, duration: u64) -> u64 {
    match style {
        MusicStyle::Legato => 0,
        MusicStyle::Staccato => duration / 4,
        _ => duration / 8,
    }
}

/// Length of a rest in ms: 500 000 / length.
pub open spec fn rest_ms(length: u32) -> u64 {
    (500_000int / (length as int)) as u64
}

/// The command for `action` in `style`.
pub open spec fn spec_command(style: MusicStyle, action: MusicAction) -> SoundCommand {
    match action {
        MusicAction::SetStyle(_) => SoundCommand::Nothing,
        MusicAction::PlayNote(f, length, dotted) => {
            let d = note_length_ms(length, dotted);
            let p = pause_ms(style, d);
            SoundCommand::Tone { freq_bits: f, play_ms: (d - p) as u64, pause_ms: p }
        },
        MusicAction::Pause(length) => SoundCommand::Rest { ms: rest_ms(length) },
    }
}

/// The style after `action`.
pub open spec fn spec_next_style(style: MusicStyle, action: MusicAction) -> MusicStyle {
    match action {
        MusicAction::SetStyle(s) => s,
        _ => style,
    }
}

/// No note or rest has length 0.
pub open spec fn valid_action(action: MusicAction) -> bool {
    match action {
        MusicAction::PlayNote(_, length, _) => length != 0,
        MusicAction::Pause(length) => length != 0,
        _ => true,
    }
}

/// No note or rest of `action` has length 0.
pub fn is_playable(action: &MusicAction) -> (res: bool)
    ensures
        res == valid_action(*action),
{
    match action {
        MusicAction::PlayNote(_, length, _) => *length != 0,
        MusicAction::Pause(length) => *length != 0,
        _ => true,
    }
}

/// Plays ANSI music action by action, remembering the current style.
pub struct MusicPlayer {
    cur_style: MusicStyle,
}

impl MusicPlayer {
    pub closed spec fn style(&self) -> MusicStyle {
        self.cur_style
    }

    /// A player in the normal style.
    pub fn new() -> (res: Self)
        ensures
            res.style() == MusicStyle::Normal,
    {
        MusicPlayer { cur_style: MusicStyle::Normal }
    }

    /// The command for one action; a style change takes effect for the
    /// following notes. A note's sound and silence add up to its full length.
    pub fn step(&mut self, action: MusicAction) -> (cmd: SoundCommand)
        requires
            valid_action(action),
        ensures
            cmd == spec_command(old(self).style(), action),
            final(self).style() == spec_next_style(old(self).style(), action),
            cmd matches SoundCommand::Tone { freq_bits, play_ms, pause_ms } ==> play_ms + pause_ms == note_length_ms(
                action->PlayNote_1,
                action->PlayNote_2,
            ),
    {
        match action {
            MusicAction::SetStyle(style) => {
                self.cur_style = style;
                SoundCommand::Nothing
            },
            MusicAction::PlayNote(f, length, dotted) => {
                let base: u64 = if dotted { 420_000 } else { 300_000 };
                let mut duration: u64 = base / (length as u64);
                let pause_length: u64 = match self.cur_style {
                    MusicStyle::Legato => 0,
                    MusicStyle::Staccato => duration / 4,
                    _ => duration / 8,
                };
                duration = duration - pause_length;
                SoundCommand::Tone { freq_bits: f, play_ms: duration, pause_ms: pause_length }
            },
            MusicAction::Pause(length) => {
                let duration: u32 = 2 * 250_000 / length;
                SoundCommand::Rest { ms: duration as u64 }
            },
        }
    }
}

/// The styles in force before each action of `actions`, starting normal.
pub open spec fn style_before(actions: Seq<MusicAction>, i: int) -> MusicStyle
    decreases i,
{
    if i <= 0 {
        MusicStyle::Normal
    } else {
        spec_next_style(style_before(actions, i - 1), actions[i - 1])
    }
}

/// The commands for a whole piece, played from the start.
pub fn schedule(actions: &Vec<MusicAction>) -> (cmds: Vec<SoundCommand>)
    requires
        forall|i: int| 0 <= i < actions@.len() ==> valid_action(#[trigger] actions@[i]),
    ensures
        cmds@.len() == actions@.len(),
        forall|i: int| 0 <= i < actions@.len() ==> #[trigger] cmds@[i] == spec_command(style_before(actions@, i), actions@[i]),
{
    let mut player = MusicPlayer::new();
    let mut cmds: Vec<SoundCommand> = Vec::new();
    let mut i: usize = 0;
    while i < actions.len()
        invariant
            i <= actions@.len(),
            cmds@.len() == i,
            player.style() == style_before(actions@, i as int),
            forall|k: int| 0 <= k < actions@.len() ==> valid_action(#[trigger] actions@[k]),
            forall|k: int| 0 <= k < i ==> #[trigger] cmds@[k] == spec_command(style_before(actions@, k), actions@[k]),
        decreases actions@.len() - i,
    {
        let a = actions[i];
        let c = player.step(a);
        cmds.push(c);
        i = i + 1;
    }
    cmds
}

/// A message to or from the sound thread, carrying pieces of type `M`.
pub enum SoundData<M> {
    PlayMusic(M),
    Beep,
    Clear,
    StartPlay,
    StopPlay,
}

/// A queued sound.
#[derive(PartialEq, Eq, Debug)]
pub enum QueuedSound<M> {
    Music(M),
    Beep,
}

/// The sound thread's queue of pieces and beeps, played in arrival order.
pub struct SoundQueue<M> {
    music: VecDeque<QueuedSound<M>>,
}

impl<M> SoundQueue<M> {
    pub closed spec fn queued(&self) -> Seq<QueuedSound<M>> {
        self.music@
    }

    pub fn new() -> (res: Self)
        ensures
            res.queued() == Seq::<QueuedSound<M>>::empty(),
    {
        SoundQueue { music: VecDeque::new() }
    }

    pub fn is_empty(&self) -> (res: bool)
        ensures
            res == (self.queued().len() == 0),
    {
        self.music.len() == 0
    }

    /// Handles one received message; returns whether it cleared the queue.
    /// Music and beeps are queued at the back, `Clear` empties the queue,
    /// the other messages change nothing.
    pub fn receive(&mut self, data: SoundData<M>) -> (cleared: bool)
        ensures
            match data {
                SoundData::PlayMusic(m) => !cleared && final(self).queued() == old(self).queued().push(QueuedSound::Music(m)),
                SoundData::Beep => !cleared && final(self).queued() == old(self).queued().push(QueuedSound::Beep),
                SoundData::Clear => cleared && final(self).queued() == Seq::<QueuedSound<M>>::empty(),
                _ => !cleared && final(self).queued() == old(self).queued(),
            },
    {
        match data {
            SoundData::PlayMusic(m) => {
                self.music.push_back(QueuedSound::Music(m));
                false
            },
            SoundData::Beep => {
                self.music.push_back(QueuedSound::Beep);
                false
            },
            SoundData::Clear => {
                self.music.clear();
                true
            },
            _ => false,
        }
    }

    /// The next sound to play, the oldest first.
    pub fn next_sound(&mut self) -> (res: Option<QueuedSound<M>>)
        ensures
            old(self).queued().len() == 0 ==> res is None && final(self).queued() == old(self).queued(),
            old(self).queued().len() > 0 ==> res == Some(old(self).queued()[0]) && final(self).queued() == old(self).queued().skip(1),
    {
        let r = self.music.pop_front();
        proof {
            if old(self).queued().len() > 0 {
                assert(old(self).queued().subrange(1, old(self).queued().len() as int) =~= old(self).queued().skip(1));
            }
        }
        r
    }
}

/// How often the sound thread may be restarted before it is given up.
pub const MAX_RESTARTS: usize = 3;

/// The ui side of the sound thread: whether music plays, which of the six
/// stop buttons is live, and how often the thread was restarted.
pub struct SoundThreadState {
    is_playing: bool,
    stop_button: u32,
    rng: Rng,
    restart_count: usize,
}

impl SoundThreadState {
    pub closed spec fn playing(&self) -> bool {
        self.is_playing
    }

    pub closed spec fn button(&self) -> u32 {
        self.stop_button
    }

    pub closed spec fn restarts(&self) -> nat {
        self.restart_count as nat
    }

    pub closed spec fn rng_state(&self) -> i32 {
        self.rng.state()
    }

    /// Not playing, no restarts, the stop button drawn from `rng`.
    pub fn new(rng: Rng) -> (res: Self)
        ensures
            !res.playing(),
            res.restarts() == 0,
            res.rng_state() == lehmer_next(rng.state()),
            res.button() == (res.rng_state() as int) % 6,
            res.button() < 6,
    {
        let mut rng = rng;
        let stop_button = rng.gen_range(0..6);
        SoundThreadState { is_playing: false, stop_button, rng, restart_count: 0 }
    }

    /// The live stop button (0..6).
    pub fn stop_button(&self) -> (res: u32)
        ensures
            res == self.button(),
    {
        self.stop_button
    }

    pub fn is_playing(&self) -> (res: bool)
        ensures
            res == self.playing(),
    {
        self.is_playing
    }

    /// Handles a message from the sound thread.
    pub fn receive<M>(&mut self, data: SoundData<M>)
        ensures
            final(self).playing() == (match data {
                SoundData::StartPlay => true,
                SoundData::StopPlay => false,
                _ => old(self).playing(),
            }),
            final(self).restarts() == old(self).restarts(),
            final(self).button() == old(self).button(),
            final(self).rng_state() == old(self).rng_state(),
    {
        match data {
            SoundData::StartPlay => self.is_playing = true,
            SoundData::StopPlay => self.is_playing = false,
            _ => {},
        }
    }

    /// After more than five seconds another stop button becomes live;
    /// returns whether it changed the cycle.
    pub fn update_stop_button(&mut self, elapsed_secs: u64) -> (new_cycle: bool)
        ensures
            new_cycle == (elapsed_secs > 5),
            new_cycle ==> final(self).rng_state() == lehmer_next(old(self).rng_state()) && final(self).button() == (final(self).rng_state() as int) % 6,
            !new_cycle ==> final(self).rng_state() == old(self).rng_state() && final(self).button() == old(self).button(),
            final(self).button() < 6 || !new_cycle,
            final(self).playing() == old(self).playing(),
            final(self).restarts() == old(self).restarts(),
    {
        if elapsed_secs > 5 {
            self.stop_button = self.rng.gen_range(0..6);
            true
        } else {
            false
        }
    }

    /// The thread was restarted too often and is given up.
    pub fn no_thread_running(&self) -> (res: bool)
        ensures
            res == (self.restarts() > 3),
    {
        self.restart_count > MAX_RESTARTS
    }

    /// Counts a restart of the sound thread; returns `false` (and counts
    /// nothing) once it was given up.
    pub fn restart_background_thread(&mut self) -> (restarted: bool)
        ensures
            restarted == (old(self).restarts() <= 3),
            final(self).restarts() == (if restarted { old(self).restarts() + 1 } else { old(self).restarts() }),
            final(self).playing() == old(self).playing(),
            final(self).button() == old(self).button(),
            final(self).rng_state() == old(self).rng_state(),
    {
        if self.no_thread_running() {
            return false;
        }
        self.restart_count = self.restart_count + 1;
        true
    }
}

/// How a note is articulated in each style: its full length is
/// 300 000 ms / length (420 000 when dotted); legato plays all of it,
/// staccato keeps the last quarter silent, and every other style (normal,
/// foreground, background) keeps the last eighth silent, exactly as the
/// normal style does.
pub proof fn lemma_note_articulation(style: MusicStyle, f: u32, length: u32, dotted: bool)
    requires
        length != 0,
    ensures
        ({
            let d: int = (if dotted { 420_000int } else { 300_000int }) / (length as int);
            let cmd = spec_command(style, MusicAction::PlayNote(f, length, dotted));
            &&& cmd is Tone
            &&& cmd->freq_bits == f
            &&& cmd->play_ms + cmd->pause_ms == d
            &&& style == MusicStyle::Legato ==> cmd->pause_ms == 0 && cmd->play_ms == d
            &&& style == MusicStyle::Staccato ==> cmd->pause_ms == d / 4
            &&& style != MusicStyle::Legato && style != MusicStyle::Staccato ==> cmd->pause_ms == d / 8
                && cmd == spec_command(MusicStyle::Normal, MusicAction::PlayNote(f, length, dotted))
        }),
{
    let d: int = (if dotted { 420_000int } else { 300_000int }) / (length as int);
    assert(0 <= d <= 420_000) by (nonlinear_arith)
        requires
            d == (if dotted { 420_000int } else { 300_000int }) / (length as int),
            length >= 1,
    ;
}

/// Rests and style changes: a rest of length `l` is 500 000 ms / `l` of
/// silence in every style; a style change plays nothing and sets the style
/// of the following notes, while notes and rests keep the style.
pub proof fn lemma_rests_and_styles(style: MusicStyle, action: MusicAction)
    requires
        valid_action(action),
    ensures
        action matches MusicAction::Pause(l) ==> spec_command(style, action) == (SoundCommand::Rest { ms: (500_000int / (l as int)) as u64 }),
        action matches MusicAction::SetStyle(s) ==> spec_command(style, action) == SoundCommand::Nothing && spec_next_style(style, action) == s,
        !(action is SetStyle) ==> spec_next_style(style, action) == style,
{
}

} // verus!
