use pmdhost::control::CmdKind;
use pmdhost::player::{
    command_reply, command_steps, song_change_steps, status_reply, DryRun, Player, PlayerAction,
    PlayerInput, Step,
};

fn song_change() -> Vec<Step> {
    vec![
        Step::FlushReset,
        Step::IntselToB,
        Step::ResetTimers,
        Step::Pmd { ah: 1, al: 0 },
        Step::FlushDrain,
        Step::LoadSong,
        Step::Pmd { ah: 0, al: 0 },
        Step::FlushDrain,
        Step::ArmBoard,
        Step::FirstEvent,
    ]
}

#[test]
fn song_change_order() {
    assert_eq!(song_change_steps(), song_change());
}

#[test]
fn command_plans() {
    let mut play = song_change();
    play.push(Step::SetPlaying(true));
    assert_eq!(command_steps(&CmdKind::Play("a.M".to_string())), play);
    assert_eq!(
        command_steps(&CmdKind::Stop),
        vec![Step::FlushReset, Step::Pmd { ah: 1, al: 0 }, Step::FlushDrain, Step::SetPlaying(false)]
    );
    assert_eq!(command_steps(&CmdKind::Fade(3)), vec![Step::Pmd { ah: 2, al: 3 }]);
    assert_eq!(command_steps(&CmdKind::Status), vec![Step::GetStatus, Step::Measure]);
    assert!(command_steps(&CmdKind::Quit).is_empty());
}

#[test]
fn replies() {
    assert_eq!(command_reply(&CmdKind::Play("x".to_string()), true, 0, 0, 0), None);
    assert_eq!(command_reply(&CmdKind::Stop, false, 0, 0, 0), Some("stopped".to_string()));
    assert_eq!(command_reply(&CmdKind::Quit, true, 0, 0, 0), Some("bye".to_string()));
    assert_eq!(
        command_reply(&CmdKind::Fade(12), true, 0, 0, 0),
        Some("fade 12 (バッファ分だけ遅れて効きます)".to_string())
    );
    assert_eq!(
        command_reply(&CmdKind::Status, true, 0x8A, 3, 1234),
        Some("playing=true ST1=8A loop=3 measure=1234".to_string())
    );
}

#[test]
fn status_text_matches_format() {
    for (p, s1, s2, m) in [(false, 0u8, 0u8, 0u16), (true, 0xFF, 255, 65535), (true, 0x0A, 10, 100)] {
        assert_eq!(status_reply(p, s1, s2, m), format!("playing={p} ST1={s1:02X} loop={s2} measure={m}"));
    }
}

#[test]
fn idle_player_sleeps() {
    let mut p = Player::new(450);
    assert_eq!(p.step(PlayerInput::Round), PlayerAction::Sleep(10));
    assert_eq!(p, Player::new(450));
}

#[test]
fn back_pressure_every_eight_ticks() {
    let mut p = Player { playing: true, tick: 0, queue_high: 450 };
    assert_eq!(p.step(PlayerInput::Round), PlayerAction::AskQueue);
    assert_eq!(p.step(PlayerInput::QueueSize(Some(451))), PlayerAction::Sleep(1));
    assert_eq!(p.tick, 0);
    assert_eq!(p.step(PlayerInput::Round), PlayerAction::AskQueue);
    assert_eq!(p.step(PlayerInput::QueueSize(Some(450))), PlayerAction::NextEvent);
    assert_eq!(p.step(PlayerInput::Event(true)), PlayerAction::RunTick);
    assert_eq!(p.step(PlayerInput::BatchSent(true)), PlayerAction::Done);
    assert_eq!(p.tick, 1);
    assert_eq!(p.step(PlayerInput::Round), PlayerAction::NextEvent);
    assert_eq!(p.step(PlayerInput::Event(false)), PlayerAction::Sleep(1));
    // A failed query does not hold playback back.
    let mut q = Player { playing: true, tick: 16, queue_high: 450 };
    q.step(PlayerInput::Round);
    assert_eq!(q.step(PlayerInput::QueueSize(None)), PlayerAction::NextEvent);
}

#[test]
fn send_error_stops_playback() {
    let mut p = Player { playing: true, tick: 5, queue_high: 450 };
    assert_eq!(p.step(PlayerInput::BatchSent(false)), PlayerAction::Done);
    assert_eq!(p, Player { playing: false, tick: 6, queue_high: 450 });
    assert_eq!(p.step(PlayerInput::Round), PlayerAction::Sleep(10));
}

#[test]
fn dry_run_cadence() {
    let mut d = DryRun::new(3, true);
    assert!(d.status_due());
    // Tick 0 always shows the status.
    assert!(d.show_status(0));
    assert!(!d.show_status(0) || d.tick % 20000 == 0);
    assert!(d.show_status(2));
    assert_eq!(d.last_st2, 2);
    assert!(!d.finish_tick());
    assert!(!d.status_due());
    assert!(!d.finish_tick());
    assert!(d.finish_tick());
    assert_eq!(d.tick, 3);
    let d = DryRun::new(10, false);
    assert!(!d.status_due());
}
