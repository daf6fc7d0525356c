use pmdhost::control::{
    is_whitespace, parse_command, prompt_action, resolve_play_path, tcp_action, CmdKind,
    PlayPathError, PlayTarget, PromptAction, TcpAction,
};

fn play(p: &str) -> Option<CmdKind> {
    Some(CmdKind::Play(p.to_string()))
}

#[test]
fn parse_play() {
    assert_eq!(parse_command("play song.M"), play("song.M"));
    assert_eq!(parse_command("  P   my song.M  \n"), play("my song.M"));
    assert_eq!(parse_command("PLAY"), play(""));
    assert_eq!(parse_command("Play\tC:\\music\\a.M"), play("C:\\music\\a.M"));
}

#[test]
fn parse_simple_commands() {
    assert_eq!(parse_command("stop"), Some(CmdKind::Stop));
    assert_eq!(parse_command("S"), Some(CmdKind::Stop));
    assert_eq!(parse_command("status"), Some(CmdKind::Status));
    assert_eq!(parse_command(" st "), Some(CmdKind::Status));
    assert_eq!(parse_command("quit"), Some(CmdKind::Quit));
    assert_eq!(parse_command("EXIT"), Some(CmdKind::Quit));
    assert_eq!(parse_command("q\r\n"), Some(CmdKind::Quit));
    assert_eq!(parse_command("\u{3000}stop\u{a0}"), Some(CmdKind::Stop));
}

#[test]
fn parse_fade() {
    assert_eq!(parse_command("fade 3"), Some(CmdKind::Fade(3)));
    assert_eq!(parse_command("f +7"), Some(CmdKind::Fade(7)));
    assert_eq!(parse_command("fade 007"), Some(CmdKind::Fade(7)));
    assert_eq!(parse_command("fade 255"), Some(CmdKind::Fade(255)));
    assert_eq!(parse_command("fade 256"), None);
    assert_eq!(parse_command("fade 99999999999"), None);
    assert_eq!(parse_command("fade -1"), None);
    assert_eq!(parse_command("fade +"), None);
    assert_eq!(parse_command("fade"), None);
    assert_eq!(parse_command("fade 1 2"), None);
    assert_eq!(parse_command("fade x"), None);
}

#[test]
fn parse_rejects_other_lines() {
    assert_eq!(parse_command(""), None);
    assert_eq!(parse_command(" \t\n"), None);
    assert_eq!(parse_command("hello"), None);
    assert_eq!(parse_command("plays x"), None);
    assert_eq!(parse_command("ｐlay x"), None);
}

#[test]
fn whitespace_is_unicode_white_space() {
    for c in [' ', '\t', '\n', '\r', '\u{b}', '\u{c}', '\u{85}', '\u{a0}', '\u{1680}', '\u{2000}', '\u{200a}', '\u{2028}', '\u{2029}', '\u{202f}', '\u{205f}', '\u{3000}'] {
        assert!(is_whitespace(c), "{:?}", c);
        assert_eq!(is_whitespace(c), c.is_whitespace());
    }
    for c in ['a', '\u{200b}', '\u{180e}', '\u{feff}', '_', '\u{1}'] {
        assert!(!is_whitespace(c));
        assert_eq!(is_whitespace(c), c.is_whitespace());
    }
}

#[test]
fn prompt_rules() {
    assert_eq!(prompt_action("stop"), PromptAction::Run(CmdKind::Stop));
    assert_eq!(prompt_action("quit"), PromptAction::Run(CmdKind::Quit));
    assert_eq!(prompt_action("bogus"), PromptAction::Help);
    assert_eq!(prompt_action("fade"), PromptAction::Help);
    assert_eq!(prompt_action("   \n"), PromptAction::Ignore);
}

#[test]
fn tcp_rules() {
    assert_eq!(tcp_action("\r\n"), TcpAction::Skip);
    assert_eq!(tcp_action("quit\r\n"), TcpAction::Close);
    assert_eq!(tcp_action("status\r\n"), TcpAction::Run(CmdKind::Status));
    assert_eq!(tcp_action("dance"), TcpAction::Unknown);
}

fn comps(parts: &[&str]) -> Vec<String> {
    parts.iter().map(|s| s.to_string()).collect()
}

#[test]
fn local_play_takes_any_path() {
    assert_eq!(
        resolve_play_path("../x.M", false, false, None),
        Ok(PlayTarget::Local("../x.M".to_string()))
    );
}

#[test]
fn remote_play_needs_music_dir() {
    assert_eq!(
        resolve_play_path("x.M", true, false, None),
        Err(PlayPathError::RemoteDisabled)
    );
}

#[test]
fn remote_play_inside_music_dir() {
    let joined = comps(&["/", "music", "x.M"]);
    let dir = comps(&["/", "music"]);
    assert_eq!(
        resolve_play_path("x.M", true, true, Some((joined.clone(), dir))),
        Ok(PlayTarget::Remote(joined))
    );
}

#[test]
fn remote_play_outside_music_dir() {
    let joined = comps(&["/", "etc", "passwd"]);
    let dir = comps(&["/", "music"]);
    assert_eq!(
        resolve_play_path("../etc/passwd", true, true, Some((joined, dir))),
        Err(PlayPathError::OutsideMusicDir)
    );
    // Component-wise: /musicx is not inside /music.
    assert_eq!(
        resolve_play_path("x", true, true, Some((comps(&["/", "musicx"]), comps(&["/", "music"])))),
        Err(PlayPathError::OutsideMusicDir)
    );
    assert_eq!(
        resolve_play_path("missing.M", true, true, None),
        Err(PlayPathError::OutsideMusicDir)
    );
}

#[test]
fn surrounding_space_is_ignored() {
    for line in ["  fade 12\t", "\u{2003}p x.M\u{3000}", " \n", "status"] {
        assert_eq!(parse_command(line), parse_command(line.trim()));
    }
}
