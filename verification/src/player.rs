use vstd::prelude::*;

use crate::catalog::{
    find_station, find_theme, joined, match_station, match_theme, next_index, next_station,
    push_station_keys, push_theme_names, station_key, station_label, station_keys,
    station_stream, theme_name, theme_names, Station, Theme,
};
use crate::completion::{complete_from_candidates, completion, views};
use crate::spectrum::{spectrum_tab_animation, tab_animation};
use crate::text::{
    chars_equal, chars_from, chars_of, decimal, lowercase, parse_u8, parse_u8_chars, pop_char,
    push_char, push_chars, push_decimal, starts_with, strip_all_prefixes,
    strip_all_prefixes_chars, to_lowercase, trim, trim_chars, trim_end, trim_start,
    trim_start_chars,
};

verus! {

/// How many bars the spectrum analyser reports.
pub const SPECTRUM_BARS: usize = 48;

/// The volume step the player starts at.
pub const DEFAULT_VOLUME_STEP: u8 = 5;

/// The loudest volume step.
pub const MAX_VOLUME_STEP: u8 = 10;

/// What the front end sees and edits of a running player: the command line,
/// the status panel, the track that plays, the spectrum bars, the accent
/// colour, the station, the volume step, whether a redraw is due, and the
/// stream's bit rate and the measured frame rate shown in the status panel.
pub struct Player {
    pub input: String,
    pub status: String,
    pub now_playing: String,
    pub spectrum: Vec<u16>,
    pub theme: Theme,
    pub current_station: Option<Station>,
    pub volume_step: u8,
    pub dirty: bool,
    pub current_bitrate: Option<u32>,
    pub current_fps: u32,
}

/// The player's state as plain values.
pub struct PlayerView {
    pub input: Seq<char>,
    pub status: Seq<char>,
    pub now_playing: Seq<char>,
    pub spectrum: Seq<u16>,
    pub theme: Theme,
    pub station: Option<Station>,
    pub volume: u8,
    pub dirty: bool,
    pub bitrate: Option<u32>,
    pub fps: u32,
}

impl View for Player {
    type V = PlayerView;

    open spec fn view(&self) -> PlayerView {
        PlayerView {
            input: self.input@,
            status: self.status@,
            now_playing: self.now_playing@,
            spectrum: self.spectrum@,
            theme: self.theme,
            station: self.current_station,
            volume: self.volume_step,
            dirty: self.dirty,
            bitrate: self.current_bitrate,
            fps: self.current_fps,
        }
    }
}

impl PlayerView {
    /// The colour and station are the catalogue's and the volume step is at
    /// most ten.
    pub open spec fn wf(self) -> bool {
        &&& self.theme.wf()
        &&& self.station matches Some(s) ==> s.wf()
        &&& self.volume <= MAX_VOLUME_STEP
    }
}

// ---------------------------------------------------------------------------
// Status texts
// ---------------------------------------------------------------------------

/// The line that lists the commands.
pub open spec fn commands_help() -> Seq<char> {
    "Commands: /play [station], /next, /color [name], /volume [0-10], /stop, /quit"@
}

/// The status panel while nothing plays.
pub open spec fn idle_status(volume: u8) -> Seq<char> {
    "Not playing\nVolume: "@ + decimal(volume as nat) + "/10\n\n"@ + commands_help()
}

/// The status panel while station `st` plays: the station, the track when one
/// is known, the volume, the stream, the frame rate when it has been measured,
/// the bit rate when the stream reported one, and the commands, one per line.
pub open spec fn playing_status(
    st: int,
    now_playing: Seq<char>,
    volume: u8,
    fps: u32,
    bitrate: Option<u32>,
) -> Seq<char> {
    "Playing: "@ + station_label(st) + (if now_playing.len() > 0 {
        "\nNow: "@ + now_playing
    } else {
        Seq::empty()
    }) + "\nVolume: "@ + decimal(volume as nat) + "/10"@ + "\nStream: "@ + station_stream(st) + (
    if fps > 0 {
        "\nFPS: "@ + decimal(fps as nat)
    } else {
        Seq::empty()
    }) + (match bitrate {
        Some(k) => "\nBitrate: "@ + decimal(k as nat) + " kbps"@,
        None => Seq::empty(),
    }) + "\n"@ + commands_help()
}

fn push_str(s: &mut String, t: &str)
    ensures
        final(s)@ == old(s)@ + t@,
{
    s.append(t);
}

fn idle_status_text(volume: u8) -> (s: String)
    ensures
        s@ == idle_status(volume),
{
    let mut s = String::new();
    push_str(&mut s, "Not playing\nVolume: ");
    push_decimal(&mut s, volume as u32);
    push_str(&mut s, "/10\n\n");
    push_str(&mut s, "Commands: /play [station], /next, /color [name], /volume [0-10], /stop, /quit");
    assert(s@ =~= idle_status(volume));
    s
}

fn playing_status_text(
    station: Station,
    now_playing: &String,
    volume: u8,
    fps: u32,
    bitrate: Option<u32>,
) -> (s: String)
    requires
        station.wf(),
    ensures
        s@ == playing_status(station.index as int, now_playing@, volume, fps, bitrate),
{
    let mut s = String::new();
    push_str(&mut s, "Playing: ");
    push_str(&mut s, station.label());
    let ghost a = s@;
    if now_playing.as_str().unicode_len() > 0 {
        push_str(&mut s, "\nNow: ");
        push_str(&mut s, now_playing.as_str());
    }
    let ghost b = s@;
    push_str(&mut s, "\nVolume: ");
    push_decimal(&mut s, volume as u32);
    push_str(&mut s, "/10");
    push_str(&mut s, "\nStream: ");
    push_str(&mut s, station.stream());
    let ghost c = s@;
    if fps > 0 {
        push_str(&mut s, "\nFPS: ");
        push_decimal(&mut s, fps);
    }
    let ghost d = s@;
    match bitrate {
        Some(kbps) => {
            push_str(&mut s, "\nBitrate: ");
            push_decimal(&mut s, kbps);
            push_str(&mut s, " kbps");
        },
        None => {},
    }
    push_str(&mut s, "\n");
    push_str(&mut s, "Commands: /play [station], /next, /color [name], /volume [0-10], /stop, /quit");
    assert(s@ =~= playing_status(station.index as int, now_playing@, volume, fps, bitrate));
    s
}


// ---------------------------------------------------------------------------
// State changes, as functions of the state
// ---------------------------------------------------------------------------

/// `count` empty spectrum bars.
pub open spec fn silent_bars(count: nat) -> Seq<u16> {
    Seq::new(count, |i: int| 0u16)
}

/// The state right after start-up.
pub open spec fn initial_view() -> PlayerView {
    PlayerView {
        input: Seq::empty(),
        status: idle_status(DEFAULT_VOLUME_STEP),
        now_playing: Seq::empty(),
        spectrum: silent_bars(SPECTRUM_BARS as nat),
        theme: Theme { index: 0 },
        station: None,
        volume: DEFAULT_VOLUME_STEP,
        dirty: true,
        bitrate: None,
        fps: 0,
    }
}

/// The idle status shown, and a redraw due.
pub open spec fn with_idle_status(p: PlayerView) -> PlayerView {
    PlayerView { status: idle_status(p.volume), dirty: true, ..p }
}

/// The status of station `st` shown, and a redraw due.
pub open spec fn with_playing_status(p: PlayerView, st: Station) -> PlayerView {
    PlayerView {
        status: playing_status(st.index as int, p.now_playing, p.volume, p.fps, p.bitrate),
        dirty: true,
        ..p
    }
}

/// The status panel redrawn for whatever plays (or does not).
pub open spec fn status_refreshed(p: PlayerView) -> PlayerView {
    match p.station {
        Some(st) => with_playing_status(p, st),
        None => with_idle_status(p),
    }
}

/// Playback stopped: no station, no track, silent bars, no bit rate, the
/// idle status.
pub open spec fn stopped(p: PlayerView) -> PlayerView {
    with_idle_status(
        PlayerView {
            station: None,
            now_playing: Seq::empty(),
            spectrum: silent_bars(p.spectrum.len()),
            bitrate: None,
            ..p
        },
    )
}

/// Playback of `st` started from scratch.
pub open spec fn started(p: PlayerView, st: Station) -> PlayerView {
    let q = stopped(p);
    with_playing_status(PlayerView { station: Some(st), ..q }, st)
}

/// The volume step set to `step`, at most ten.
pub open spec fn with_volume(p: PlayerView, step: u8) -> PlayerView {
    let v: u8 = if step < MAX_VOLUME_STEP {
        step
    } else {
        MAX_VOLUME_STEP
    };
    status_refreshed(PlayerView { volume: v, ..p })
}

/// What happens to playback after a command.
#[derive(Clone, Copy, Debug, PartialEq, Eq, Structural)]
pub enum Playback {
    /// Playback goes on as it was.
    Unchanged,
    /// The running stream is stopped.
    Stopped,
    /// The running stream, if any, is stopped and this station is started.
    Started(Station),
    /// Playback is stopped and the program ends.
    Quit,
}

/// What a command asks of the front end besides the state change: what to do
/// with the stream, and whether the terminal tab gets the idle title.
#[derive(Clone, Copy, Debug, PartialEq, Eq, Structural)]
pub struct Outcome {
    pub playback: Playback,
    pub idle_title: bool,
}

/// Nothing for the front end to do.
pub open spec fn quiet() -> Outcome {
    Outcome { playback: Playback::Unchanged, idle_title: false }
}

/// The outcome of refreshing the status: the idle title goes up when nothing
/// plays.
pub open spec fn refresh_outcome(p: PlayerView) -> Outcome {
    Outcome { playback: Playback::Unchanged, idle_title: p.station is None }
}

impl Player {
    /// The player as it starts: nothing plays, volume step five, the first
    /// colour, silent bars, an empty command line and the idle status.
    pub fn new() -> (p: Player)
        ensures
            p@ == initial_view(),
            p@.wf(),
    {
        let mut spectrum: Vec<u16> = Vec::new();
        let mut i: usize = 0;
        while i < SPECTRUM_BARS
            invariant
                i <= SPECTRUM_BARS,
                spectrum@ == silent_bars(i as nat),
            decreases SPECTRUM_BARS - i,
        {
            spectrum.push(0);
            i = i + 1;
            assert(spectrum@ =~= silent_bars(i as nat));
        }
        let p = Player {
            input: String::new(),
            status: idle_status_text(DEFAULT_VOLUME_STEP),
            now_playing: String::new(),
            spectrum,
            theme: Theme::at(0),
            current_station: None,
            volume_step: DEFAULT_VOLUME_STEP,
            dirty: true,
            current_bitrate: None,
            current_fps: 0,
        };
        assert(p@ =~= initial_view());
        p
    }

    /// Shows the idle status.
    pub fn set_idle_status(&mut self)
        ensures
            final(self)@ == with_idle_status(old(self)@),
    {
        self.status = idle_status_text(self.volume_step);
        self.dirty = true;
    }

    /// Shows the status of `station`.
    pub fn set_playing_status(&mut self, station: Station)
        requires
            station.wf(),
        ensures
            final(self)@ == with_playing_status(old(self)@, station),
    {
        self.status = playing_status_text(
            station,
            &self.now_playing,
            self.volume_step,
            self.current_fps,
            self.current_bitrate,
        );
        self.dirty = true;
    }

    /// Redraws the status for whatever plays; says whether the idle title is due.
    pub fn refresh_status(&mut self) -> (idle: bool)
        requires
            old(self)@.wf(),
        ensures
            final(self)@ == status_refreshed(old(self)@),
            idle == (old(self)@.station is None),
    {
        match self.current_station {
            Some(st) => {
                self.set_playing_status(st);
                false
            },
            None => {
                self.set_idle_status();
                true
            },
        }
    }

    fn silence_spectrum(&mut self)
        ensures
            final(self)@ == (PlayerView { spectrum: silent_bars(old(self)@.spectrum.len()), ..old(self)@ }),
    {
        let n = self.spectrum.len();
        let mut bars: Vec<u16> = Vec::new();
        let mut i: usize = 0;
        while i < n
            invariant
                i <= n,
                bars@ == silent_bars(i as nat),
            decreases n - i,
        {
            bars.push(0);
            i = i + 1;
            assert(bars@ =~= silent_bars(i as nat));
        }
        self.spectrum = bars;
    }

    /// Forgets the station, the track, the bars and the bit rate, and shows
    /// the idle status.  The front end stops the stream.
    pub fn stop_playback(&mut self)
        ensures
            final(self)@ == stopped(old(self)@),
    {
        self.current_station = None;
        self.current_bitrate = None;
        self.now_playing = String::new();
        self.silence_spectrum();
        self.set_idle_status();
        assert(self@ =~= stopped(old(self)@));
    }

    /// Stops whatever plays and starts `station` with a blank track, silent
    /// bars and no bit rate.  The front end starts the stream.
    pub fn start_playback(&mut self, station: Station)
        requires
            station.wf(),
        ensures
            final(self)@ == started(old(self)@, station),
    {
        self.stop_playback();
        self.current_station = Some(station);
        self.set_playing_status(station);
        assert(self@ =~= started(old(self)@, station));
    }

    /// Sets the volume step, at most ten, and redraws the status; says whether
    /// the idle title is due.
    pub fn set_volume(&mut self, step: u8) -> (idle: bool)
        requires
            old(self)@.wf(),
        ensures
            final(self)@ == with_volume(old(self)@, step),
            final(self)@.wf(),
            idle == (old(self)@.station is None),
    {
        self.volume_step = if step < MAX_VOLUME_STEP {
            step
        } else {
            MAX_VOLUME_STEP
        };
        self.refresh_status()
    }
}


/// Setting the volume keeps the step between 0 and 10: a step up to 10 is
/// taken as it is, a larger one becomes 10, and the status shows it.
pub proof fn volume_stays_in_range(p: PlayerView, step: u8)
    requires
        p.wf(),
    ensures
        with_volume(p, step).wf(),
        step <= MAX_VOLUME_STEP ==> with_volume(p, step).volume == step,
        step > MAX_VOLUME_STEP ==> with_volume(p, step).volume == MAX_VOLUME_STEP,
        with_volume(p, step).station is None ==> with_volume(p, step).status == idle_status(
            with_volume(p, step).volume,
        ),
{
}

/// After stopping, nothing plays, no track or bit rate is shown, the bars are
/// silent and the idle status is up; starting a station after that plays it.
pub proof fn stop_then_start(p: PlayerView, st: Station)
    requires
        p.wf(),
        st.wf(),
    ensures
        stopped(p).station is None,
        stopped(p).now_playing.len() == 0,
        stopped(p).bitrate is None,
        forall|i: int| 0 <= i < stopped(p).spectrum.len() ==> #[trigger] stopped(p).spectrum[i] == 0,
        stopped(p).status == idle_status(p.volume),
        started(p, st).station == Some(st),
        started(p, st).status == playing_status(st.index as int, Seq::empty(), p.volume, p.fps, None),
        started(p, st).wf(),
        started(stopped(p), st) == started(p, st),
{
    assert(stopped(stopped(p)) =~= stopped(p));
}

// ---------------------------------------------------------------------------
// The command line
// ---------------------------------------------------------------------------

/// A command line, read.
pub enum CommandView {
    /// Nothing but whitespace.
    Empty,
    /// `/quit` or `/q`.
    Quit,
    /// `/stop`.
    Stop,
    /// `/next`.
    Next,
    /// `/color` alone: show the colour names.
    ColorUsage,
    /// `/volume` alone: show the volume step.
    VolumeUsage,
    /// `/play` alone: show the station keys.
    PlayUsage,
    /// `/color <name>`, with the name lower-cased.
    Color(Seq<char>),
    /// `/play <station>`, with the station lower-cased.
    Play(Seq<char>),
    /// `/volume <step>`, with the step as typed.
    Volume(Seq<char>),
    /// Anything else.
    Unknown,
}

/// What follows a command word: every leading copy of `word` removed, then
/// the whitespace around the rest.
pub open spec fn argument(line: Seq<char>, word: Seq<char>) -> Seq<char> {
    trim(strip_all_prefixes(line, word))
}

/// How the (already trimmed) command line `line` reads.
pub open spec fn command_of(line: Seq<char>) -> CommandView {
    if line.len() == 0 {
        CommandView::Empty
    } else if line == "/quit"@ || line == "/q"@ {
        CommandView::Quit
    } else if line == "/stop"@ {
        CommandView::Stop
    } else if line == "/next"@ {
        CommandView::Next
    } else if line == "/color"@ {
        CommandView::ColorUsage
    } else if line == "/volume"@ {
        CommandView::VolumeUsage
    } else if line == "/play"@ {
        CommandView::PlayUsage
    } else if "/color "@.is_prefix_of(line) {
        CommandView::Color(lowercase(argument(line, "/color "@)))
    } else if "/play "@.is_prefix_of(line) {
        CommandView::Play(lowercase(argument(line, "/play "@)))
    } else if "/volume "@.is_prefix_of(line) {
        CommandView::Volume(argument(line, "/volume "@))
    } else {
        CommandView::Unknown
    }
}

/// The status shown by `/color` alone.
pub open spec fn color_usage() -> Seq<char> {
    "Usage: /color [name]\nAvailable: "@ + joined(theme_names(), ", "@)
}

/// The status shown by `/volume` alone.
pub open spec fn volume_usage(volume: u8) -> Seq<char> {
    "Usage: /volume [0-10]\nCurrent: "@ + decimal(volume as nat) + "/10"@
}

/// The status shown by `/play` alone.
pub open spec fn play_usage() -> Seq<char> {
    "Usage: /play [station]\nAvailable: "@ + joined(station_keys(), ", "@)
}

/// The status shown for a colour name that matches none.
pub open spec fn unknown_color(query: Seq<char>) -> Seq<char> {
    "Unknown color: "@ + query + "\nAvailable: "@ + joined(theme_names(), ", "@)
}

/// The status shown for a station that matches none.
pub open spec fn unknown_station(query: Seq<char>) -> Seq<char> {
    "Unknown station: "@ + query + "\nAvailable: "@ + joined(station_keys(), ", "@)
}

/// The status shown for a volume step that is not a number from 0 to 10.
pub open spec fn invalid_volume(query: Seq<char>) -> Seq<char> {
    "Invalid volume: "@ + query + "\nUsage: /volume [0-10]"@
}

/// A message in the status panel, with a redraw due.
pub open spec fn with_message(p: PlayerView, msg: Seq<char>) -> PlayerView {
    PlayerView { status: msg, dirty: true, ..p }
}

/// The state and outcome after running the command `cmd` on `p`, whose
/// command line has already been cleared.
pub open spec fn after_command(p: PlayerView, cmd: CommandView) -> (PlayerView, Outcome) {
    match cmd {
        CommandView::Empty => (p, quiet()),
        CommandView::Quit => (
            stopped(p),
            Outcome { playback: Playback::Quit, idle_title: true },
        ),
        CommandView::Stop => (
            stopped(p),
            Outcome { playback: Playback::Stopped, idle_title: true },
        ),
        CommandView::Next => {
            let st = Station { index: next_index(p.station) as usize };
            (started(p, st), Outcome { playback: Playback::Started(st), idle_title: true })
        },
        CommandView::ColorUsage => (with_message(p, color_usage()), quiet()),
        CommandView::VolumeUsage => (with_message(p, volume_usage(p.volume)), quiet()),
        CommandView::PlayUsage => (with_message(p, play_usage()), quiet()),
        CommandView::Color(q) => match find_theme(q) {
            Some(t) => {
                let p1 = PlayerView { theme: t, ..p };
                (status_refreshed(p1), refresh_outcome(p1))
            },
            None => (with_message(p, unknown_color(q)), quiet()),
        },
        CommandView::Play(q) => match find_station(q) {
            Some(st) => (
                started(p, st),
                Outcome { playback: Playback::Started(st), idle_title: true },
            ),
            None => (PlayerView { status: unknown_station(q), ..p }, quiet()),
        },
        CommandView::Volume(q) => match parse_u8(q) {
            Some(n) => if n <= MAX_VOLUME_STEP {
                (with_volume(p, n), refresh_outcome(p))
            } else {
                (with_message(p, invalid_volume(q)), quiet())
            },
            None => (with_message(p, invalid_volume(q)), quiet()),
        },
        CommandView::Unknown => (with_message(p, commands_help()), quiet()),
    }
}

/// The state and outcome after pressing Enter: the command line is cleared
/// and its trimmed text is run as a command.
pub open spec fn after_enter(p: PlayerView) -> (PlayerView, Outcome) {
    after_command(PlayerView { input: Seq::empty(), ..p }, command_of(trim(p.input)))
}

/// Pressing Enter always empties the command line and keeps the state
/// well formed, whatever the command.
pub proof fn enter_clears_command_line(p: PlayerView)
    requires
        p.wf(),
    ensures
        after_enter(p).0.input.len() == 0,
        after_enter(p).0.wf(),
{
    match command_of(trim(p.input)) {
        CommandView::Color(q) => crate::catalog::theme_search_finds_catalogue_theme(q, 0),
        CommandView::Play(q) => crate::catalog::station_search_finds_catalogue_station(q, 0),
        _ => {},
    }
}

/// `/volume n` for a step from 0 to 10 written in decimal sets exactly that
/// step.
pub proof fn volume_command_sets_step(p: PlayerView, n: u8)
    requires
        p.wf(),
        n <= MAX_VOLUME_STEP,
    ensures
        after_command(p, CommandView::Volume(decimal(n as nat))).0.volume == n,
        after_command(p, CommandView::Volume(decimal(n as nat))).1.playback == Playback::Unchanged,
{
    crate::text::parse_reads_back_decimal(n);
}

/// Enter on `/next` starts the station after the one that plays, wrapping
/// round over all the stations (the first one when nothing plays), so that
/// pressing it once per station visits every station once.
pub proof fn next_command_starts_following_station(p: PlayerView)
    requires
        p.wf(),
        p.input == "/next"@,
    ensures
        ({
            let want = match p.station {
                Some(s) => if s.index + 1 < crate::catalog::STATION_COUNT {
                    s.index + 1
                } else {
                    0
                },
                None => 0,
            };
            &&& after_enter(p).1 == Outcome {
                playback: Playback::Started(Station { index: want as usize }),
                idle_title: true,
            }
            &&& after_enter(p).0.station == Some(Station { index: want as usize })
            &&& after_enter(p).0.input.len() == 0
        }),
{
    reveal_strlit("/next");
    reveal_strlit("/quit");
    reveal_strlit("/q");
    reveal_strlit("/stop");
    let line = p.input;
    assert(trim_start(line) == line);
    assert(trim_end(line) == line);
    assert(trim(line) == line);
    assert(line[1] != "/quit"@[1]);
    assert(line.len() != "/q"@.len());
    assert(line[1] != "/stop"@[1]);
    assert(command_of(line) == CommandView::Next);
}

fn literal_is(line: &[char], lit: &str) -> (r: bool)
    ensures
        r == (line@ == lit@),
{
    chars_equal(line, &chars_of(lit))
}

fn literal_prefix(line: &[char], lit: &str) -> (r: bool)
    ensures
        r == lit@.is_prefix_of(line@),
{
    starts_with(line, &chars_of(lit))
}

fn argument_of(line: &[char], word: &str) -> (r: Vec<char>)
    ensures
        r@ == argument(line@, word@),
{
    trim_chars(&strip_all_prefixes_chars(line, &chars_of(word)))
}

impl Player {
    fn show(&mut self, msg: String)
        ensures
            final(self)@ == with_message(old(self)@, msg@),
    {
        self.status = msg;
        self.dirty = true;
    }

    /// Runs the command on the command line, as the Enter key does, and
    /// clears the line.
    pub fn execute_command(&mut self) -> (out: Outcome)
        requires
            old(self)@.wf(),
        ensures
            (final(self)@, out) == after_enter(old(self)@),
            final(self)@.wf(),
    {
        let line = trim_chars(&chars_of(self.input.as_str()));
        self.input = String::new();
        let ghost p = self@;
        let ghost cmd = command_of(line@);
        assert(p == PlayerView { input: Seq::empty(), ..old(self)@ });
        if line.len() == 0 {
            return Outcome { playback: Playback::Unchanged, idle_title: false };
        }
        if literal_is(&line, "/quit") || literal_is(&line, "/q") {
            self.stop_playback();
            return Outcome { playback: Playback::Quit, idle_title: true };
        }
        if literal_is(&line, "/stop") {
            self.stop_playback();
            return Outcome { playback: Playback::Stopped, idle_title: true };
        }
        if literal_is(&line, "/next") {
            let st = next_station(self.current_station);
            self.start_playback(st);
            return Outcome { playback: Playback::Started(st), idle_title: true };
        }
        if literal_is(&line, "/color") {
            let mut msg = String::new();
            push_str(&mut msg, "Usage: /color [name]\nAvailable: ");
            push_theme_names(&mut msg);
            self.show(msg);
            return Outcome { playback: Playback::Unchanged, idle_title: false };
        }
        if literal_is(&line, "/volume") {
            let mut msg = String::new();
            push_str(&mut msg, "Usage: /volume [0-10]\nCurrent: ");
            push_decimal(&mut msg, self.volume_step as u32);
            push_str(&mut msg, "/10");
            assert(msg@ =~= volume_usage(self.volume_step));
            self.show(msg);
            return Outcome { playback: Playback::Unchanged, idle_title: false };
        }
        if literal_is(&line, "/play") {
            let mut msg = String::new();
            push_str(&mut msg, "Usage: /play [station]\nAvailable: ");
            push_station_keys(&mut msg);
            self.show(msg);
            return Outcome { playback: Playback::Unchanged, idle_title: false };
        }
        if literal_prefix(&line, "/color ") {
            let query = to_lowercase(&argument_of(&line, "/color "));
            match match_theme(&query) {
                Some(theme) => {
                    self.theme = theme;
                    let idle = self.refresh_status();
                    return Outcome { playback: Playback::Unchanged, idle_title: idle };
                },
                None => {
                    let mut msg = String::new();
                    push_str(&mut msg, "Unknown color: ");
                    push_chars(&mut msg, &query);
                    push_str(&mut msg, "\nAvailable: ");
                    push_theme_names(&mut msg);
                    assert(msg@ =~= unknown_color(query@));
                    self.show(msg);
                    return Outcome { playback: Playback::Unchanged, idle_title: false };
                },
            }
        }
        if literal_prefix(&line, "/play ") {
            let query = to_lowercase(&argument_of(&line, "/play "));
            match match_station(&query) {
                Some(st) => {
                    self.start_playback(st);
                    return Outcome { playback: Playback::Started(st), idle_title: true };
                },
                None => {
                    let mut msg = String::new();
                    push_str(&mut msg, "Unknown station: ");
                    push_chars(&mut msg, &query);
                    push_str(&mut msg, "\nAvailable: ");
                    push_station_keys(&mut msg);
                    assert(msg@ =~= unknown_station(query@));
                    self.status = msg;
                    return Outcome { playback: Playback::Unchanged, idle_title: false };
                },
            }
        }
        if literal_prefix(&line, "/volume ") {
            let query = argument_of(&line, "/volume ");
            match parse_u8_chars(&query) {
                Some(step) if step <= MAX_VOLUME_STEP => {
                    let idle = self.set_volume(step);
                    return Outcome { playback: Playback::Unchanged, idle_title: idle };
                },
                _ => {
                    let mut msg = String::new();
                    push_str(&mut msg, "Invalid volume: ");
                    push_chars(&mut msg, &query);
                    push_str(&mut msg, "\nUsage: /volume [0-10]");
                    assert(msg@ =~= invalid_volume(query@));
                    self.show(msg);
                    return Outcome { playback: Playback::Unchanged, idle_title: false };
                },
            }
        }
        let mut msg = String::new();
        push_str(
            &mut msg,
            "Commands: /play [station], /next, /color [name], /volume [0-10], /stop, /quit",
        );
        self.show(msg);
        Outcome { playback: Playback::Unchanged, idle_title: false }
    }
}


// ---------------------------------------------------------------------------
// Tab completion
// ---------------------------------------------------------------------------

/// The command words that Tab completes.
pub open spec fn command_words() -> Seq<Seq<char>> {
    seq!["/play"@, "/next"@, "/stop"@, "/color"@, "/volume"@, "/quit"@, "/q"@]
}

/// `t` with the first `n` characters dropped.
pub open spec fn drop_prefix(t: Seq<char>, n: int) -> Seq<char> {
    t.subrange(n, t.len() as int)
}

/// The command line after a Tab press: after `/color ` the colour name is
/// completed, after `/play ` the station key, and otherwise the command word,
/// with a space after `/play` and `/volume`; a query that no candidate
/// starts with leaves the line as it was.
pub open spec fn autocompleted(input: Seq<char>) -> Seq<char> {
    let t = trim_start(input);
    if "/color "@.is_prefix_of(t) {
        match completion(theme_names(), lowercase(trim(drop_prefix(t, "/color "@.len() as int)))) {
            Some(c) => "/color "@ + c,
            None => input,
        }
    } else if "/play "@.is_prefix_of(t) {
        match completion(station_keys(), lowercase(trim(drop_prefix(t, "/play "@.len() as int)))) {
            Some(c) => "/play "@ + c,
            None => input,
        }
    } else {
        match completion(command_words(), lowercase(t)) {
            Some(c) => if c == "/play"@ || c == "/volume"@ {
                c.push(' ')
            } else {
                c
            },
            None => input,
        }
    }
}

/// Tab after `/color ` never loses what was typed: when no colour name starts
/// with the typed (lower-cased, trimmed) name the line stays exactly as it
/// was, and otherwise it becomes `/color ` and a completion that extends the
/// typed name and is a prefix of every colour name that starts with it.
pub proof fn tab_on_color_name(input: Seq<char>)
    requires
        "/color "@.is_prefix_of(trim_start(input)),
    ensures
        ({
            let q = lowercase(trim(drop_prefix(trim_start(input), "/color "@.len() as int)));
            &&& (forall|i: int| 0 <= i < crate::catalog::THEME_COUNT ==> !q.is_prefix_of(
                #[trigger] theme_name(i),
            )) ==> autocompleted(input) == input
            &&& (exists|i: int| 0 <= i < crate::catalog::THEME_COUNT && q.is_prefix_of(
                #[trigger] theme_name(i),
            )) ==> exists|c: Seq<char>|
                {
                    &&& autocompleted(input) == "/color "@ + c
                    &&& q.is_prefix_of(c)
                    &&& forall|i: int|
                        0 <= i < crate::catalog::THEME_COUNT && q.is_prefix_of(
                            #[trigger] theme_name(i),
                        ) ==> c.is_prefix_of(theme_name(i))
                }
        }),
{
    let q = lowercase(trim(drop_prefix(trim_start(input), "/color "@.len() as int)));
    crate::completion::completion_extends_query(theme_names(), q);
    assert forall|i: int| 0 <= i < crate::catalog::THEME_COUNT implies theme_names()[i] == theme_name(i) by {}
    if exists|i: int| 0 <= i < crate::catalog::THEME_COUNT && q.is_prefix_of(#[trigger] theme_name(i)) {
        let i = choose|i: int| 0 <= i < crate::catalog::THEME_COUNT && q.is_prefix_of(#[trigger] theme_name(i));
        assert(q.is_prefix_of(theme_names()[i]));
        let c = completion(theme_names(), q)->Some_0;
        assert(autocompleted(input) == "/color "@ + c);
    } else {
        assert forall|i: int| 0 <= i < theme_names().len() implies !q.is_prefix_of(#[trigger] theme_names()[i]) by {
            assert(theme_names()[i] == theme_name(i));
        }
    }
}

/// Tab after `/play ` never loses what was typed: when no station key starts
/// with the typed (lower-cased, trimmed) text the line stays exactly as it
/// was, and otherwise it becomes `/play ` and a completion that extends the
/// typed text and is a prefix of every station key that starts with it.
pub proof fn tab_on_station_key(input: Seq<char>)
    requires
        !"/color "@.is_prefix_of(trim_start(input)),
        "/play "@.is_prefix_of(trim_start(input)),
    ensures
        ({
            let q = lowercase(trim(drop_prefix(trim_start(input), "/play "@.len() as int)));
            &&& (forall|i: int| 0 <= i < crate::catalog::STATION_COUNT ==> !q.is_prefix_of(
                #[trigger] station_key(i),
            )) ==> autocompleted(input) == input
            &&& (exists|i: int| 0 <= i < crate::catalog::STATION_COUNT && q.is_prefix_of(
                #[trigger] station_key(i),
            )) ==> exists|c: Seq<char>|
                {
                    &&& autocompleted(input) == "/play "@ + c
                    &&& q.is_prefix_of(c)
                    &&& forall|i: int|
                        0 <= i < crate::catalog::STATION_COUNT && q.is_prefix_of(
                            #[trigger] station_key(i),
                        ) ==> c.is_prefix_of(station_key(i))
                }
        }),
{
    let q = lowercase(trim(drop_prefix(trim_start(input), "/play "@.len() as int)));
    crate::completion::completion_extends_query(station_keys(), q);
    if exists|i: int| 0 <= i < crate::catalog::STATION_COUNT && q.is_prefix_of(#[trigger] station_key(i)) {
        let i = choose|i: int| 0 <= i < crate::catalog::STATION_COUNT && q.is_prefix_of(#[trigger] station_key(i));
        assert(q.is_prefix_of(station_keys()[i]));
        let c = completion(station_keys(), q)->Some_0;
        assert(autocompleted(input) == "/play "@ + c);
        assert forall|j: int|
            0 <= j < crate::catalog::STATION_COUNT && q.is_prefix_of(#[trigger] station_key(j)) implies c.is_prefix_of(station_key(j)) by {
            assert(station_keys()[j] == station_key(j));
        }
    } else {
        assert forall|i: int| 0 <= i < station_keys().len() implies !q.is_prefix_of(#[trigger] station_keys()[i]) by {
            assert(station_keys()[i] == station_key(i));
        }
    }
}

/// Tab on a command word that no command starts with leaves the line exactly
/// as it was.
pub proof fn tab_on_unknown_command(input: Seq<char>)
    requires
        !"/color "@.is_prefix_of(trim_start(input)),
        !"/play "@.is_prefix_of(trim_start(input)),
        forall|i: int| 0 <= i < command_words().len() ==> !lowercase(trim_start(input)).is_prefix_of(
            #[trigger] command_words()[i],
        ),
    ensures
        autocompleted(input) == input,
{
    crate::completion::completion_extends_query(command_words(), lowercase(trim_start(input)));
}

fn theme_name_list() -> (v: Vec<&'static str>)
    ensures
        views(v@) == theme_names(),
{
    let mut v: Vec<&'static str> = Vec::new();
    let mut i: usize = 0;
    while i < crate::catalog::THEME_COUNT
        invariant
            i <= crate::catalog::THEME_COUNT,
            views(v@) == theme_names().subrange(0, i as int),
        decreases crate::catalog::THEME_COUNT - i,
    {
        let ghost before = v@;
        let item = Theme::at(i).name();
        v.push(item);
        assert(views(before).len() == before.len());
        assert(v@ == before.push(item));
        assert(views(v@) =~= theme_names().subrange(0, i + 1)) by {
            assert forall|j: int| 0 <= j <= i implies #[trigger] views(v@)[j] == theme_names()[j] by {
                if j < i {
                    assert(v@[j] == before[j]);
                    assert(views(before)[j] == theme_names().subrange(0, i as int)[j]);
                }
            }
        }
        i = i + 1;
    }
    assert(views(v@) =~= theme_names());
    v
}

fn station_key_list() -> (v: Vec<&'static str>)
    ensures
        views(v@) == station_keys(),
{
    let mut v: Vec<&'static str> = Vec::new();
    let mut i: usize = 0;
    while i < crate::catalog::STATION_COUNT
        invariant
            i <= crate::catalog::STATION_COUNT,
            views(v@) == station_keys().subrange(0, i as int),
        decreases crate::catalog::STATION_COUNT - i,
    {
        let ghost before = v@;
        let item = Station::at(i).key();
        v.push(item);
        assert(views(before).len() == before.len());
        assert(v@ == before.push(item));
        assert(views(v@) =~= station_keys().subrange(0, i + 1)) by {
            assert forall|j: int| 0 <= j <= i implies #[trigger] views(v@)[j] == station_keys()[j] by {
                if j < i {
                    assert(v@[j] == before[j]);
                    assert(views(before)[j] == station_keys().subrange(0, i as int)[j]);
                }
            }
        }
        i = i + 1;
    }
    assert(views(v@) =~= station_keys());
    v
}

fn command_word_list() -> (v: Vec<&'static str>)
    ensures
        views(v@) == command_words(),
{
    let v = vec!["/play", "/next", "/stop", "/color", "/volume", "/quit", "/q"];
    assert(views(v@) =~= command_words());
    v
}

impl Player {
    /// Completes the command line, as the Tab key does.
    pub fn autocomplete_input(&mut self)
        ensures
            final(self)@ == (PlayerView { input: autocompleted(old(self)@.input), ..old(self)@ }),
    {
        let trimmed = trim_start_chars(&chars_of(self.input.as_str()));
        let color_word = chars_of("/color ");
        if starts_with(&trimmed, &color_word) {
            let query = to_lowercase(&trim_chars(&chars_from(&trimmed, color_word.len())));
            match complete_from_candidates(&query, &theme_name_list()) {
                Some(c) => {
                    let mut line = String::new();
                    push_str(&mut line, "/color ");
                    push_chars(&mut line, &c);
                    self.input = line;
                },
                None => {},
            }
            return;
        }
        let play_word = chars_of("/play ");
        if starts_with(&trimmed, &play_word) {
            let query = to_lowercase(&trim_chars(&chars_from(&trimmed, play_word.len())));
            match complete_from_candidates(&query, &station_key_list()) {
                Some(c) => {
                    let mut line = String::new();
                    push_str(&mut line, "/play ");
                    push_chars(&mut line, &c);
                    self.input = line;
                },
                None => {},
            }
            return;
        }
        let query = to_lowercase(&trimmed);
        match complete_from_candidates(&query, &command_word_list()) {
            Some(c) => {
                let mut line = String::new();
                push_chars(&mut line, &c);
                if literal_is(&c, "/play") || literal_is(&c, "/volume") {
                    push_char(&mut line, ' ');
                }
                self.input = line;
            },
            None => {},
        }
    }
}

// ---------------------------------------------------------------------------
// Keys
// ---------------------------------------------------------------------------

/// A key press, as the front end reports it.
#[derive(Clone, Copy, Debug, PartialEq, Eq, Structural)]
pub enum Key {
    /// A character key, with whether Control was held.
    Char { ch: char, control: bool },
    Tab,
    Enter,
    Backspace,
    Esc,
    /// Any other key.
    Other,
}

/// What a key press asks of the front end.
#[derive(Clone, Copy, Debug, PartialEq, Eq, Structural)]
pub enum KeyResult {
    /// Leave the main loop (Control-C, or `q` on an empty command line).
    Exit,
    /// Carry on, doing what the outcome says.
    Continue(Outcome),
}

/// The state and result after a key press.
pub open spec fn after_key(p: PlayerView, key: Key) -> (PlayerView, KeyResult) {
    match key {
        Key::Char { ch, control } => if ch == 'c' && control {
            (p, KeyResult::Exit)
        } else if ch == 'q' && p.input.len() == 0 {
            (p, KeyResult::Exit)
        } else {
            (PlayerView { input: p.input.push(ch), dirty: true, ..p }, KeyResult::Continue(quiet()))
        },
        Key::Tab => (
            PlayerView { input: autocompleted(p.input), dirty: true, ..p },
            KeyResult::Continue(quiet()),
        ),
        Key::Enter => {
            let (q, out) = after_enter(p);
            (PlayerView { dirty: true, ..q }, KeyResult::Continue(out))
        },
        Key::Backspace => (
            PlayerView {
                input: if p.input.len() > 0 {
                    p.input.drop_last()
                } else {
                    p.input
                },
                dirty: true,
                ..p
            },
            KeyResult::Continue(quiet()),
        ),
        Key::Esc => (
            PlayerView { input: Seq::empty(), dirty: true, ..p },
            KeyResult::Continue(quiet()),
        ),
        Key::Other => (p, KeyResult::Continue(quiet())),
    }
}

impl Player {
    /// Handles one key press on the command line.
    pub fn handle_key(&mut self, key: Key) -> (r: KeyResult)
        requires
            old(self)@.wf(),
        ensures
            (final(self)@, r) == after_key(old(self)@, key),
            final(self)@.wf(),
    {
        match key {
            Key::Char { ch, control } => {
                if ch == 'c' && control {
                    return KeyResult::Exit;
                }
                if ch == 'q' && self.input.as_str().unicode_len() == 0 {
                    return KeyResult::Exit;
                }
                push_char(&mut self.input, ch);
                self.dirty = true;
                KeyResult::Continue(Outcome { playback: Playback::Unchanged, idle_title: false })
            },
            Key::Tab => {
                self.autocomplete_input();
                self.dirty = true;
                KeyResult::Continue(Outcome { playback: Playback::Unchanged, idle_title: false })
            },
            Key::Enter => {
                let out = self.execute_command();
                self.dirty = true;
                KeyResult::Continue(out)
            },
            Key::Backspace => {
                let _ = pop_char(&mut self.input);
                self.dirty = true;
                KeyResult::Continue(Outcome { playback: Playback::Unchanged, idle_title: false })
            },
            Key::Esc => {
                self.input = String::new();
                self.dirty = true;
                KeyResult::Continue(Outcome { playback: Playback::Unchanged, idle_title: false })
            },
            Key::Other => KeyResult::Continue(
                Outcome { playback: Playback::Unchanged, idle_title: false },
            ),
        }
    }
}


// ---------------------------------------------------------------------------
// Updates from the stream and the metadata poller
// ---------------------------------------------------------------------------

/// The status redrawn if a station plays, and a redraw due either way.
pub open spec fn playing_refreshed(p: PlayerView) -> PlayerView {
    match p.station {
        Some(st) => with_playing_status(p, st),
        None => PlayerView { dirty: true, ..p },
    }
}

/// The state after the metadata poller reports the track `text`.
pub open spec fn after_now_playing(p: PlayerView, text: Seq<char>) -> PlayerView {
    playing_refreshed(PlayerView { now_playing: text, ..p })
}

/// The state after the stream reports `bps` bits per second: the bit rate is
/// shown in whole kilobits per second, and nothing changes when that figure
/// is the one already shown.
pub open spec fn after_bitrate(p: PlayerView, bps: u32) -> PlayerView {
    let kbps = (bps / 1000) as u32;
    if p.bitrate == Some(kbps) {
        p
    } else {
        playing_refreshed(PlayerView { bitrate: Some(kbps), ..p })
    }
}

/// The state after the front end measures `fps` frames per second; nothing
/// changes when that figure is the one already shown.
pub open spec fn after_fps(p: PlayerView, fps: u32) -> PlayerView {
    if p.fps == fps {
        p
    } else {
        playing_refreshed(PlayerView { fps, ..p })
    }
}

/// A bit-rate report always shows the newest figure: after a report of `bps`
/// bits per second the bit rate shown is `bps / 1000` kilobits whatever was
/// shown before, a new figure is shown in the status of a playing station,
/// nothing else changes, and the state stays as it was only when that figure
/// was already shown.
pub proof fn bitrate_report_shows_newest(p: PlayerView, bps: u32)
    ensures
        ({
            let q = after_bitrate(p, bps);
            let kbps = (bps / 1000) as u32;
            &&& q.bitrate == Some(kbps)
            &&& q.station == p.station && q.theme == p.theme && q.volume == p.volume
            &&& q.now_playing == p.now_playing && q.input == p.input && q.fps == p.fps
            &&& q.spectrum == p.spectrum
            &&& p.bitrate != Some(kbps) ==> (p.station matches Some(st) ==> q.status
                == playing_status(st.index as int, p.now_playing, p.volume, p.fps, Some(kbps)))
            &&& (q == p <==> p.bitrate == Some(kbps))
        }),
{
}

/// A frame-rate measurement always shows the newest figure, a new one in the
/// status of a playing station too, and changes nothing else; the state stays as it was
/// only when that figure was already shown.
pub proof fn fps_report_shows_newest(p: PlayerView, fps: u32)
    ensures
        ({
            let q = after_fps(p, fps);
            &&& q.fps == fps
            &&& q.station == p.station && q.theme == p.theme && q.volume == p.volume
            &&& q.now_playing == p.now_playing && q.input == p.input && q.bitrate == p.bitrate
            &&& q.spectrum == p.spectrum
            &&& p.fps != fps ==> (p.station matches Some(st) ==> q.status == playing_status(
                st.index as int,
                p.now_playing,
                p.volume,
                fps,
                p.bitrate,
            ))
            &&& (q == p <==> p.fps == fps)
        }),
{
}

/// A track report always shows the newest track, in the status of a playing
/// station too, and changes nothing else shown.
pub proof fn track_report_shows_newest(p: PlayerView, text: Seq<char>)
    ensures
        ({
            let q = after_now_playing(p, text);
            &&& q.now_playing == text
            &&& q.station == p.station && q.theme == p.theme && q.volume == p.volume
            &&& q.bitrate == p.bitrate && q.input == p.input && q.fps == p.fps
            &&& q.dirty
            &&& (p.station matches Some(st) ==> q.status == playing_status(
                st.index as int,
                text,
                p.volume,
                p.fps,
                p.bitrate,
            ))
        }),
{
}

impl Player {
    /// Takes the latest track reported by the metadata poller.
    pub fn apply_now_playing(&mut self, text: String)
        requires
            old(self)@.wf(),
        ensures
            final(self)@ == after_now_playing(old(self)@, text@),
    {
        self.now_playing = text;
        match self.current_station {
            Some(st) => self.set_playing_status(st),
            None => {},
        }
        self.dirty = true;
    }

    /// Takes the latest spectrum reported by the analyser.
    pub fn apply_spectrum(&mut self, bars: Vec<u16>)
        ensures
            final(self)@ == (PlayerView { spectrum: bars@, dirty: true, ..old(self)@ }),
    {
        self.spectrum = bars;
        self.dirty = true;
    }

    /// Takes the latest bit rate, in bits per second, reported by the stream.
    pub fn apply_bitrate(&mut self, bps: u32)
        requires
            old(self)@.wf(),
        ensures
            final(self)@ == after_bitrate(old(self)@, bps),
    {
        let kbps = bps / 1000;
        if self.current_bitrate != Some(kbps) {
            self.current_bitrate = Some(kbps);
            match self.current_station {
                Some(st) => self.set_playing_status(st),
                None => {},
            }
            self.dirty = true;
        }
    }

    /// Takes the frame rate the front end measured over the last second.
    pub fn apply_fps(&mut self, fps: u32)
        requires
            old(self)@.wf(),
        ensures
            final(self)@ == after_fps(old(self)@, fps),
    {
        if self.current_fps != fps {
            self.current_fps = fps;
            match self.current_station {
                Some(st) => self.set_playing_status(st),
                None => {},
            }
            self.dirty = true;
        }
    }
}

// ---------------------------------------------------------------------------
// Commands from the control socket
// ---------------------------------------------------------------------------

/// A command received on the control socket.
pub enum ControlCommand {
    /// Play the station that the (lower-cased) query picks.
    Play(String),
    /// Stop playback.
    Stop,
    /// Play the next station.
    Next,
    /// Use the colour that the (lower-cased) query picks.
    Color(String),
    /// Set the volume step.
    Volume(u8),
}

/// The state and outcome after a control command.  A query that picks no
/// station or colour changes nothing.
pub open spec fn after_control(p: PlayerView, cmd: ControlCommand) -> (PlayerView, Outcome) {
    match cmd {
        ControlCommand::Play(q) => match find_station(q@) {
            Some(st) => (
                started(p, st),
                Outcome { playback: Playback::Started(st), idle_title: true },
            ),
            None => (p, quiet()),
        },
        ControlCommand::Stop => (
            stopped(p),
            Outcome { playback: Playback::Stopped, idle_title: true },
        ),
        ControlCommand::Next => {
            let st = Station { index: next_index(p.station) as usize };
            (started(p, st), Outcome { playback: Playback::Started(st), idle_title: true })
        },
        ControlCommand::Color(q) => match find_theme(q@) {
            Some(t) => {
                let p1 = PlayerView { theme: t, ..p };
                (status_refreshed(p1), refresh_outcome(p1))
            },
            None => (p, quiet()),
        },
        ControlCommand::Volume(step) => (with_volume(p, step), refresh_outcome(p)),
    }
}

/// `next` on the control socket starts the station after the one that
/// plays, wrapping round over all the stations (the first one when nothing
/// plays).
pub proof fn control_next_starts_following_station(p: PlayerView)
    requires
        p.wf(),
    ensures
        ({
            let want = match p.station {
                Some(s) => if s.index + 1 < crate::catalog::STATION_COUNT {
                    s.index + 1
                } else {
                    0
                },
                None => 0,
            };
            &&& after_control(p, ControlCommand::Next).1 == Outcome {
                playback: Playback::Started(Station { index: want as usize }),
                idle_title: true,
            }
            &&& after_control(p, ControlCommand::Next).0.station == Some(
                Station { index: want as usize },
            )
        }),
{
}

impl Player {
    /// Carries out a command received on the control socket.
    pub fn execute_control_command(&mut self, command: ControlCommand) -> (out: Outcome)
        requires
            old(self)@.wf(),
        ensures
            (final(self)@, out) == after_control(old(self)@, command),
            final(self)@.wf(),
    {
        match command {
            ControlCommand::Play(query) => {
                match match_station(&chars_of(query.as_str())) {
                    Some(st) => {
                        self.start_playback(st);
                        Outcome { playback: Playback::Started(st), idle_title: true }
                    },
                    None => Outcome { playback: Playback::Unchanged, idle_title: false },
                }
            },
            ControlCommand::Stop => {
                self.stop_playback();
                Outcome { playback: Playback::Stopped, idle_title: true }
            },
            ControlCommand::Next => {
                let st = next_station(self.current_station);
                self.start_playback(st);
                Outcome { playback: Playback::Started(st), idle_title: true }
            },
            ControlCommand::Color(query) => {
                match match_theme(&chars_of(query.as_str())) {
                    Some(theme) => {
                        self.theme = theme;
                        let idle = self.refresh_status();
                        Outcome { playback: Playback::Unchanged, idle_title: idle }
                    },
                    None => Outcome { playback: Playback::Unchanged, idle_title: false },
                }
            },
            ControlCommand::Volume(step) => {
                let idle = self.set_volume(step);
                Outcome { playback: Playback::Unchanged, idle_title: idle }
            },
        }
    }
}

/// How long the front end waits between redraws, in milliseconds: a
/// sixtieth of a second, rounded down.
pub const FRAME_MILLIS: u64 = 16;

impl Player {
    /// A redraw is due when something changed and a frame's time has passed
    /// since the last one.
    pub fn redraw_due(&self, elapsed_millis: u64) -> (due: bool)
        ensures
            due == (self.dirty && elapsed_millis >= FRAME_MILLIS),
    {
        self.dirty && elapsed_millis >= FRAME_MILLIS
    }

    /// Notes that the screen now shows the current state.
    pub fn frame_drawn(&mut self)
        ensures
            final(self)@ == (PlayerView { dirty: false, ..old(self)@ }),
    {
        self.dirty = false;
    }
}

// ---------------------------------------------------------------------------
// What the front end shows elsewhere
// ---------------------------------------------------------------------------

/// The terminal tab title while station `st` plays: the spectrum animation,
/// the station, and the track when one is known.
pub open spec fn playing_title(spectrum: Seq<u16>, st: int, now_playing: Seq<char>) -> Seq<char> {
    tab_animation(spectrum) + " "@ + station_label(st) + if now_playing.len() > 0 {
        " — "@ + now_playing
    } else {
        Seq::empty()
    }
}

/// What the widget and the status file report about the player.
pub struct WidgetState {
    pub running: bool,
    pub station_key: Option<String>,
    pub station_label: Option<String>,
    pub color: String,
    pub volume: u8,
    pub pid: u32,
}

impl Player {
    /// The tab title to show after a redraw, when a station plays.
    pub fn tab_title(&self) -> (t: Option<String>)
        requires
            self@.wf(),
            self.spectrum@.len() > 0 ==> (self.spectrum@.len() - 1) * 5 <= usize::MAX,
        ensures
            match self.current_station {
                Some(st) => t matches Some(s) && s@ == playing_title(
                    self.spectrum@,
                    st.index as int,
                    self.now_playing@,
                ),
                None => t is None,
            },
    {
        match self.current_station {
            Some(st) => {
                let mut title = spectrum_tab_animation(self.spectrum.as_slice());
                push_str(&mut title, " ");
                push_str(&mut title, st.label());
                if self.now_playing.as_str().unicode_len() > 0 {
                    push_str(&mut title, " — ");
                    push_str(&mut title, self.now_playing.as_str());
                }
                assert(title@ =~= playing_title(
                    self.spectrum@,
                    st.index as int,
                    self.now_playing@,
                ));
                Some(title)
            },
            None => None,
        }
    }

    /// What the widget is told: whether a station plays, its key and name,
    /// the colour, the volume step, and the process id `pid`.
    pub fn widget_state(&self, pid: u32) -> (w: WidgetState)
        requires
            self@.wf(),
        ensures
            w.running == (self.current_station is Some),
            match self.current_station {
                Some(st) => {
                    &&& w.station_key matches Some(k) && k@ == station_key(st.index as int)
                    &&& w.station_label matches Some(l) && l@ == station_label(st.index as int)
                },
                None => w.station_key is None && w.station_label is None,
            },
            w.color@ == theme_name(self.theme.index as int),
            w.volume == self.volume_step,
            w.pid == pid,
    {
        let (key, label) = match self.current_station {
            Some(st) => (Some(String::from_str(st.key())), Some(String::from_str(st.label()))),
            None => (None, None),
        };
        WidgetState {
            running: self.current_station.is_some(),
            station_key: key,
            station_label: label,
            color: String::from_str(self.theme.name()),
            volume: self.volume_step,
            pid,
        }
    }
}

} // verus!
