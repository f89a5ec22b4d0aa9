use icy_term::music::{
    schedule, MusicAction, MusicPlayer, MusicStyle, QueuedSound, SoundCommand, SoundData, SoundQueue,
    SoundThreadState,
};
use icy_term::rng::Rng;

const A4: u32 = 0x43DC_0000; // 440.0f32

#[test]
fn normal_note_timing() {
    let mut p = MusicPlayer::new();
    // quarter note: 75_000 ms total, 1/8 silent
    assert_eq!(
        p.step(MusicAction::PlayNote(A4, 4, false)),
        SoundCommand::Tone { freq_bits: A4, play_ms: 65_625, pause_ms: 9_375 }
    );
    // dotted quarter: 105_000
    assert_eq!(
        p.step(MusicAction::PlayNote(A4, 4, true)),
        SoundCommand::Tone { freq_bits: A4, play_ms: 91_875, pause_ms: 13_125 }
    );
}

#[test]
fn legato_and_staccato() {
    let mut p = MusicPlayer::new();
    assert_eq!(p.step(MusicAction::SetStyle(MusicStyle::Legato)), SoundCommand::Nothing);
    assert_eq!(
        p.step(MusicAction::PlayNote(A4, 8, false)),
        SoundCommand::Tone { freq_bits: A4, play_ms: 37_500, pause_ms: 0 }
    );
    assert_eq!(p.step(MusicAction::SetStyle(MusicStyle::Staccato)), SoundCommand::Nothing);
    assert_eq!(
        p.step(MusicAction::PlayNote(A4, 8, false)),
        SoundCommand::Tone { freq_bits: A4, play_ms: 28_125, pause_ms: 9_375 }
    );
}

#[test]
fn rests() {
    let mut p = MusicPlayer::new();
    assert_eq!(p.step(MusicAction::Pause(4)), SoundCommand::Rest { ms: 125_000 });
    assert_eq!(p.step(MusicAction::Pause(3)), SoundCommand::Rest { ms: 166_666 });
}

#[test]
fn schedule_keeps_styles() {
    let actions = vec![
        MusicAction::PlayNote(A4, 2, false),
        MusicAction::SetStyle(MusicStyle::Legato),
        MusicAction::PlayNote(A4, 2, false),
        MusicAction::Pause(2),
    ];
    let cmds = schedule(&actions);
    assert_eq!(
        cmds,
        vec![
            SoundCommand::Tone { freq_bits: A4, play_ms: 131_250, pause_ms: 18_750 },
            SoundCommand::Nothing,
            SoundCommand::Tone { freq_bits: A4, play_ms: 150_000, pause_ms: 0 },
            SoundCommand::Rest { ms: 250_000 },
        ]
    );
}

#[test]
fn sound_queue_order_and_clear() {
    let mut q: SoundQueue<&str> = SoundQueue::new();
    assert!(q.is_empty());
    assert!(!q.receive(SoundData::PlayMusic("a")));
    assert!(!q.receive(SoundData::Beep));
    assert!(!q.receive(SoundData::StartPlay));
    assert!(!q.receive(SoundData::PlayMusic("b")));
    assert_eq!(q.next_sound(), Some(QueuedSound::Music("a")));
    assert!(q.receive(SoundData::Clear));
    assert!(q.is_empty());
    assert_eq!(q.next_sound(), None);
    q.receive(SoundData::Beep);
    assert_eq!(q.next_sound(), Some(QueuedSound::Beep));
}

#[test]
fn sound_thread_state() {
    let mut s = SoundThreadState::new(Rng::with_seed(42));
    assert_eq!(s.stop_button(), 0);
    assert!(!s.is_playing());
    s.receive::<()>(SoundData::StartPlay);
    assert!(s.is_playing());
    s.receive::<()>(SoundData::Beep);
    assert!(s.is_playing());
    s.receive::<()>(SoundData::StopPlay);
    assert!(!s.is_playing());
    assert!(!s.update_stop_button(5));
    assert_eq!(s.stop_button(), 0);
    assert!(s.update_stop_button(6));
    assert!(s.stop_button() < 6);
}

#[test]
fn sound_thread_restarts_are_limited() {
    let mut s = SoundThreadState::new(Rng::with_seed(1));
    for _ in 0..4 {
        assert!(!s.no_thread_running());
        assert!(s.restart_background_thread());
    }
    assert!(s.no_thread_running());
    assert!(!s.restart_background_thread());
}
