use iterm_player::catalog::{match_station, match_theme, next_station, Station, Theme};
use iterm_player::control::{handle_control_request, reply_message, Reply};
use iterm_player::player::{ControlCommand, Key, KeyResult, Outcome, Playback, Player};

const HELP: &str = "Commands: /play [station], /next, /color [name], /volume [0-10], /stop, /quit";

fn run(p: &mut Player, line: &str) -> Outcome {
    p.input = line.to_string();
    p.execute_command()
}

fn quiet() -> Outcome {
    Outcome { playback: Playback::Unchanged, idle_title: false }
}

#[test]
fn starts_idle() {
    let p = Player::new();
    assert_eq!(p.status, format!("Not playing\nVolume: 5/10\n\n{HELP}"));
    assert_eq!(p.volume_step, 5);
    assert_eq!(p.theme, Theme::at(0));
    assert_eq!(p.current_station, None);
    assert_eq!(p.spectrum, vec![0; 48]);
    assert!(p.dirty);
}

#[test]
fn play_starts_a_station() {
    let mut p = Player::new();
    let out = run(&mut p, "/play nts2");
    assert_eq!(out, Outcome { playback: Playback::Started(Station::at(1)), idle_title: true });
    assert_eq!(p.current_station, Some(Station::at(1)));
    assert_eq!(
        p.status,
        format!(
            "Playing: NTS 2\nVolume: 5/10\nStream: https://stream-relay-geo.ntslive.net/stream2?client=direct\n{HELP}"
        )
    );
    assert_eq!(p.input, "");
}

#[test]
fn play_by_label_and_prefix() {
    let mut p = Player::new();
    run(&mut p, "/play NTS 2");
    assert_eq!(p.current_station, Some(Station::at(1)));
    run(&mut p, "/play world");
    assert_eq!(p.current_station, Some(Station::at(2)));
    run(&mut p, "  /play FIP  ");
    assert_eq!(p.current_station, Some(Station::at(3)));
    run(&mut p, "/play nts1");
    assert_eq!(p.current_station, Some(Station::at(0)));
}

#[test]
fn unknown_station_lists_keys() {
    let mut p = Player::new();
    p.dirty = false;
    let out = run(&mut p, "/play xyz");
    assert_eq!(out, quiet());
    assert_eq!(p.status, "Unknown station: xyz\nAvailable: nts1, nts2, worldwide, fip");
    assert!(!p.dirty);
}

#[test]
fn usage_messages() {
    let mut p = Player::new();
    run(&mut p, "/play");
    assert_eq!(p.status, "Usage: /play [station]\nAvailable: nts1, nts2, worldwide, fip");
    run(&mut p, "/volume");
    assert_eq!(p.status, "Usage: /volume [0-10]\nCurrent: 5/10");
    run(&mut p, "/color");
    assert_eq!(
        p.status,
        "Usage: /color [name]\nAvailable: cyan, red, yellow, green, blue, pink, magenta, white, grey, dark-grey, orange, brown"
    );
    run(&mut p, "hello");
    assert_eq!(p.status, HELP);
}

#[test]
fn volume_command() {
    let mut p = Player::new();
    let out = run(&mut p, "/volume 3");
    assert_eq!(out, Outcome { playback: Playback::Unchanged, idle_title: true });
    assert_eq!(p.volume_step, 3);
    assert_eq!(p.status, format!("Not playing\nVolume: 3/10\n\n{HELP}"));
    run(&mut p, "/volume +10");
    assert_eq!(p.volume_step, 10);
    run(&mut p, "/volume 0");
    assert_eq!(p.volume_step, 0);
}

#[test]
fn invalid_volume() {
    let mut p = Player::new();
    run(&mut p, "/volume 11");
    assert_eq!(p.status, "Invalid volume: 11\nUsage: /volume [0-10]");
    assert_eq!(p.volume_step, 5);
    run(&mut p, "/volume loud");
    assert_eq!(p.status, "Invalid volume: loud\nUsage: /volume [0-10]");
}

#[test]
fn set_volume_clamps() {
    let mut p = Player::new();
    p.set_volume(200);
    assert_eq!(p.volume_step, 10);
}

#[test]
fn color_command() {
    let mut p = Player::new();
    run(&mut p, "/color RED");
    assert_eq!(p.theme, Theme::at(1));
    run(&mut p, "/color dark");
    assert_eq!(p.theme, Theme::at(9));
    run(&mut p, "/color gr");
    assert_eq!(p.theme, Theme::at(3));
    run(&mut p, "/color /color grey");
    assert_eq!(p.theme, Theme::at(8));
    run(&mut p, "/color zz");
    assert_eq!(
        p.status,
        "Unknown color: zz\nAvailable: cyan, red, yellow, green, blue, pink, magenta, white, grey, dark-grey, orange, brown"
    );
    assert_eq!(p.theme, Theme::at(8));
}

#[test]
fn stop_next_and_quit() {
    let mut p = Player::new();
    assert_eq!(run(&mut p, "/next").playback, Playback::Started(Station::at(0)));
    assert_eq!(run(&mut p, "/next").playback, Playback::Started(Station::at(1)));
    p.apply_spectrum(vec![40, 50]);
    let out = run(&mut p, "/stop");
    assert_eq!(out, Outcome { playback: Playback::Stopped, idle_title: true });
    assert_eq!(p.current_station, None);
    assert_eq!(p.spectrum, vec![0, 0]);
    assert_eq!(run(&mut p, "/q").playback, Playback::Quit);
    assert_eq!(run(&mut p, "/quit").playback, Playback::Quit);
    assert_eq!(run(&mut p, "   "), quiet());
}

#[test]
fn next_station_wraps_round() {
    assert_eq!(next_station(None), Station::at(0));
    assert_eq!(next_station(Some(Station::at(3))), Station::at(0));
    let mut s = Station::at(2);
    for _ in 0..4 {
        s = next_station(Some(s));
    }
    assert_eq!(s, Station::at(2));
}

#[test]
fn station_and_theme_lookup() {
    let q = |s: &str| s.chars().collect::<Vec<char>>();
    assert_eq!(match_station(&q("fip")), Some(Station::at(3)));
    assert_eq!(match_station(&q("nts")), Some(Station::at(0)));
    assert_eq!(match_station(&q("worldwide fm")), Some(Station::at(2)));
    assert_eq!(match_station(&q("bbc")), None);
    assert_eq!(match_theme(&q("brown")), Some(Theme::at(11)));
    assert_eq!(match_theme(&q("p")), Some(Theme::at(5)));
    assert_eq!(match_theme(&q("black")), None);
    assert_eq!(Station::at(2).label(), "Worldwide FM");
    assert_eq!(Theme::at(10).name(), "orange");
}

#[test]
fn tab_completes_commands_and_arguments() {
    let mut p = Player::new();
    for (typed, expected) in [
        ("/pl", "/play "),
        ("/vol", "/volume "),
        ("/st", "/stop"),
        ("/play n", "/play nts"),
        ("/play f", "/play fip"),
        ("/color gr", "/color gre"),
        ("/color dark", "/color dark-grey"),
        ("/zzz", "/zzz"),
        ("/", "/"),
    ] {
        p.input = typed.to_string();
        p.autocomplete_input();
        assert_eq!(p.input, expected, "completing {typed:?}");
    }
}

#[test]
fn keys_edit_the_command_line() {
    let mut p = Player::new();
    assert_eq!(p.handle_key(Key::Char { ch: 'q', control: false }), KeyResult::Exit);
    assert_eq!(p.handle_key(Key::Char { ch: 'c', control: true }), KeyResult::Exit);
    p.handle_key(Key::Char { ch: '/', control: false });
    p.handle_key(Key::Char { ch: 'q', control: false });
    assert_eq!(p.input, "/q");
    p.handle_key(Key::Backspace);
    assert_eq!(p.input, "/");
    p.handle_key(Key::Esc);
    assert_eq!(p.input, "");
    p.handle_key(Key::Backspace);
    assert_eq!(p.input, "");
    for ch in "/pl".chars() {
        p.handle_key(Key::Char { ch, control: false });
    }
    p.handle_key(Key::Tab);
    assert_eq!(p.input, "/play ");
    for ch in "fip".chars() {
        p.handle_key(Key::Char { ch, control: false });
    }
    assert_eq!(
        p.handle_key(Key::Enter),
        KeyResult::Continue(Outcome { playback: Playback::Started(Station::at(3)), idle_title: true })
    );
    assert_eq!(p.input, "");
}

#[test]
fn stream_updates_reach_the_status() {
    let mut p = Player::new();
    run(&mut p, "/play fip");
    p.apply_now_playing("Song — Artist".to_string());
    p.apply_bitrate(128_900);
    p.apply_fps(60);
    assert_eq!(p.current_bitrate, Some(128));
    assert_eq!(
        p.status,
        format!(
            "Playing: FIP\nNow: Song — Artist\nVolume: 5/10\nStream: https://icecast.radiofrance.fr/fip-hifi.aac?id=radiofrance\nFPS: 60\nBitrate: 128 kbps\n{HELP}"
        )
    );
    p.dirty = false;
    p.apply_bitrate(128_000);
    assert!(!p.dirty);
    p.apply_fps(60);
    assert!(!p.dirty);
}

#[test]
fn redraw_and_title() {
    let mut p = Player::new();
    assert!(p.redraw_due(16));
    assert!(!p.redraw_due(15));
    p.frame_drawn();
    assert!(!p.redraw_due(100));
    assert_eq!(p.tab_title(), None);
    run(&mut p, "/play nts1");
    assert_eq!(p.tab_title(), Some("▁▁▁▁▁▁ NTS 1".to_string()));
    p.apply_now_playing("Show".to_string());
    assert_eq!(p.tab_title(), Some("▁▁▁▁▁▁ NTS 1 — Show".to_string()));
}

#[test]
fn widget_state_reports_the_player() {
    let mut p = Player::new();
    let w = p.widget_state(42);
    assert!(!w.running);
    assert_eq!(w.station_key, None);
    assert_eq!(w.color, "cyan");
    assert_eq!(w.volume, 5);
    assert_eq!(w.pid, 42);
    run(&mut p, "/play worldwide");
    run(&mut p, "/color pink");
    let w = p.widget_state(7);
    assert!(w.running);
    assert_eq!(w.station_key.as_deref(), Some("worldwide"));
    assert_eq!(w.station_label.as_deref(), Some("Worldwide FM"));
    assert_eq!(w.color, "pink");
}

#[test]
fn control_commands() {
    let mut p = Player::new();
    let out = p.execute_control_command(ControlCommand::Play("nts2".to_string()));
    assert_eq!(out.playback, Playback::Started(Station::at(1)));
    assert_eq!(
        p.execute_control_command(ControlCommand::Play("bbc".to_string())),
        quiet()
    );
    assert_eq!(p.current_station, Some(Station::at(1)));
    p.execute_control_command(ControlCommand::Color("yel".to_string()));
    assert_eq!(p.theme, Theme::at(2));
    p.execute_control_command(ControlCommand::Volume(7));
    assert_eq!(p.volume_step, 7);
    assert_eq!(p.execute_control_command(ControlCommand::Next).playback, Playback::Started(Station::at(2)));
    assert_eq!(p.execute_control_command(ControlCommand::Stop).playback, Playback::Stopped);
    assert_eq!(p.current_station, None);
}

#[test]
fn control_requests() {
    let r = handle_control_request("status\n");
    assert_eq!(r.reply, Reply::Status);
    assert!(r.command.is_none());
    let r = handle_control_request("stop");
    assert_eq!(r.reply, Reply::Accepted);
    assert!(matches!(r.command, Some(ControlCommand::Stop)));
    let r = handle_control_request("next\n");
    assert!(matches!(r.command, Some(ControlCommand::Next)));
    let r = handle_control_request("play  NTS1 \n");
    match r.command {
        Some(ControlCommand::Play(q)) => assert_eq!(q, "nts1"),
        _ => panic!("expected a play command"),
    }
    let r = handle_control_request("color Red");
    match r.command {
        Some(ControlCommand::Color(q)) => assert_eq!(q, "red"),
        _ => panic!("expected a colour command"),
    }
    let r = handle_control_request("volume 4");
    assert!(matches!(r.command, Some(ControlCommand::Volume(4))));
    let r = handle_control_request("volume 11");
    assert_eq!(r.reply, Reply::InvalidVolume);
    assert!(r.command.is_none());
    let r = handle_control_request("dance");
    assert_eq!(r.reply, Reply::UnknownCommand);
    assert_eq!(reply_message(Reply::Accepted), "{\"ok\":true}");
    assert_eq!(reply_message(Reply::InvalidVolume), "{\"ok\":false,\"error\":\"invalid volume\"}");
    assert_eq!(reply_message(Reply::UnknownCommand), "{\"ok\":false,\"error\":\"unknown command\"}");
    assert_eq!(reply_message(Reply::Status), "{\"running\":false}");
}
