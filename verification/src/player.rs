//! The player's decisions: the order of operations for a change of song and
//! for each control command, the replies to the commands, and the playback
//! loop with its back pressure on the driver's queue.
//!
//! The caller performs each step (on the emulator, the host and the pipe) and
//! feeds back what came of it; everything decided from those results is here.

use vstd::prelude::*;
use vstd::string::*;
use crate::control::{CmdKind, CmdModel, all_digits, digits_value, parse_u8};

verus! {

/// One operation of a command, performed by the caller in order.
#[derive(Clone, Copy, PartialEq, Eq, Structural, Debug)]
pub enum Step {
    /// Send FLUSH: the driver drops its queue, the board its buffers, order
    /// queue and pending timers.
    FlushReset,
    /// Aim the following writes at buffer B (music) again.
    IntselToB,
    /// Fresh OPNA model and SSG shadow, board disarmed.
    ResetTimers,
    /// Call PMD (INT 60h) with these AH and AL, DX = 0.
    Pmd { ah: u8, al: u8 },
    /// End the current batch and force a drain.
    FlushDrain,
    /// Ask PMD where song data goes (GET_MUSDAT_ADR, AH = 06h) and copy the
    /// song there.
    LoadSong,
    /// Forward writes to 0x27 as they are from now on.
    ArmBoard,
    /// Take the next timer event; when one is due, run the timer handler and
    /// end its batch with a forced drain, which starts the board's timers.
    FirstEvent,
    /// Read PMD's status word (GET_STATUS, AH = 0Ah).
    GetStatus,
    /// Read the measure counter (GET_SYOUSETU, AH = 05h).
    Measure,
    /// Record whether a song is playing.
    SetPlaying(bool),
}

/// PMD function MUSIC_START.
pub const PMD_MUSIC_START: u8 = 0x00;
/// PMD function MUSIC_STOP: key off every channel.
pub const PMD_MUSIC_STOP: u8 = 0x01;
/// PMD function FADEOUT (AL = speed).
pub const PMD_FADEOUT: u8 = 0x02;

/// A change of song: drop what the board and the driver still hold, aim
/// initialisation writes at buffer B, reset the timer model (so MUSIC_START's
/// write to 0x27 is masked again and the first event gives a clean Load edge),
/// stop the old song and apply its key-offs, load and start the new song,
/// apply its initialisation, arm the board and start its timers with the
/// first event.
pub open spec fn song_change() -> Seq<Step> {
    seq![
        Step::FlushReset,
        Step::IntselToB,
        Step::ResetTimers,
        Step::Pmd { ah: PMD_MUSIC_STOP, al: 0 },
        Step::FlushDrain,
        Step::LoadSong,
        Step::Pmd { ah: PMD_MUSIC_START, al: 0 },
        Step::FlushDrain,
        Step::ArmBoard,
        Step::FirstEvent,
    ]
}

/// The steps of a command. `play` (once its song is read) changes the song and
/// marks it playing; `stop` drops the queued music at once, keys every channel
/// off, applies that at once and marks nothing playing; `fade n` asks PMD to
/// fade at speed n; `status` reads the status word and the measure counter;
/// `quit` does nothing here.
pub open spec fn command_plan(kind: CmdModel) -> Seq<Step> {
    match kind {
        CmdModel::Play(_) => song_change().push(Step::SetPlaying(true)),
        CmdModel::Stop => seq![
            Step::FlushReset,
            Step::Pmd { ah: PMD_MUSIC_STOP, al: 0 },
            Step::FlushDrain,
            Step::SetPlaying(false),
        ],
        CmdModel::Fade(n) => seq![Step::Pmd { ah: PMD_FADEOUT, al: n }],
        CmdModel::Status => seq![Step::GetStatus, Step::Measure],
        CmdModel::Quit => seq![],
    }
}

/// The steps of a change of song (see [`song_change`]).
pub fn song_change_steps() -> (s: Vec<Step>)
    ensures
        s@ == song_change(),
{
    let s = vec![
        Step::FlushReset,
        Step::IntselToB,
        Step::ResetTimers,
        Step::Pmd { ah: PMD_MUSIC_STOP, al: 0 },
        Step::FlushDrain,
        Step::LoadSong,
        Step::Pmd { ah: PMD_MUSIC_START, al: 0 },
        Step::FlushDrain,
        Step::ArmBoard,
        Step::FirstEvent,
    ];
    assert(s@ == song_change());
    s
}

/// The steps of a command (see [`command_plan`]).
pub fn command_steps(kind: &CmdKind) -> (s: Vec<Step>)
    ensures
        s@ == command_plan(kind.model()),
{
    match kind {
        CmdKind::Play(_) => {
            let mut s = song_change_steps();
            s.push(Step::SetPlaying(true));
            s
        },
        CmdKind::Stop => {
            let s = vec![
                Step::FlushReset,
                Step::Pmd { ah: PMD_MUSIC_STOP, al: 0 },
                Step::FlushDrain,
                Step::SetPlaying(false),
            ];
            assert(s@ == command_plan(kind.model()));
            s
        },
        CmdKind::Fade(n) => {
            let s = vec![Step::Pmd { ah: PMD_FADEOUT, al: *n }];
            assert(s@ == command_plan(kind.model()));
            s
        },
        CmdKind::Status => {
            let s = vec![Step::GetStatus, Step::Measure];
            assert(s@ == command_plan(kind.model()));
            s
        },
        CmdKind::Quit => {
            let s = Vec::new();
            assert(s@ == command_plan(kind.model()));
            s
        },
    }
}

/// The digit for `d` (0-15): `0`-`9`, then upper-case `A`-`F`.
pub open spec fn digit_char(d: int) -> char {
    if d < 10 {
        (0x30 + d) as char
    } else {
        (0x41 + d - 10) as char
    }
}

/// `n` in decimal, without leading zeros.
pub open spec fn dec_text(n: nat) -> Seq<char>
    decreases n,
{
    if n < 10 {
        seq![digit_char(n as int)]
    } else {
        dec_text(n / 10).push(digit_char((n % 10) as int))
    }
}

/// `b` as two upper-case hex digits.
pub open spec fn hex2_text(b: u8) -> Seq<char> {
    seq![digit_char((b / 16) as int), digit_char((b % 16) as int)]
}

pub open spec fn bool_text(b: bool) -> Seq<char> {
    if b {
        "true"@
    } else {
        "false"@
    }
}

/// The answer to `status`: whether a song plays, ST1 in hex, the loop count
/// (ST2) and the measure counter in decimal.
pub open spec fn status_text(playing: bool, st1: u8, st2: u8, measure: u16) -> Seq<char> {
    "playing="@ + bool_text(playing) + " ST1="@ + hex2_text(st1) + " loop="@ + dec_text(
        st2 as nat,
    ) + " measure="@ + dec_text(measure as nat)
}

/// The answer to `fade n`, which takes effect only after the queued music.
pub open spec fn fade_text(n: u8) -> Seq<char> {
    "fade "@ + dec_text(n as nat) + " (バッファ分だけ遅れて効きます)"@
}

/// The answer to a command once its steps are done (`playing` as it then
/// stands, and for `status` what the steps read). `play` answers with the file
/// it read, so it has none here.
pub open spec fn reply_text(kind: CmdModel, playing: bool, st1: u8, st2: u8, measure: u16) -> Option<
    Seq<char>,
> {
    match kind {
        CmdModel::Play(_) => None,
        CmdModel::Stop => Some("stopped"@),
        CmdModel::Fade(n) => Some(fade_text(n)),
        CmdModel::Status => Some(status_text(playing, st1, st2, measure)),
        CmdModel::Quit => Some("bye"@),
    }
}

fn digit_str(d: u32) -> (r: &'static str)
    requires
        d < 16,
    ensures
        r@ == seq![digit_char(d as int)],
{
    if d == 0 {
        proof {
            reveal_strlit("0");
        }
        "0"
    } else if d == 1 {
        proof {
            reveal_strlit("1");
        }
        "1"
    } else if d == 2 {
        proof {
            reveal_strlit("2");
        }
        "2"
    } else if d == 3 {
        proof {
            reveal_strlit("3");
        }
        "3"
    } else if d == 4 {
        proof {
            reveal_strlit("4");
        }
        "4"
    } else if d == 5 {
        proof {
            reveal_strlit("5");
        }
        "5"
    } else if d == 6 {
        proof {
            reveal_strlit("6");
        }
        "6"
    } else if d == 7 {
        proof {
            reveal_strlit("7");
        }
        "7"
    } else if d == 8 {
        proof {
            reveal_strlit("8");
        }
        "8"
    } else if d == 9 {
        proof {
            reveal_strlit("9");
        }
        "9"
    } else if d == 10 {
        proof {
            reveal_strlit("A");
        }
        "A"
    } else if d == 11 {
        proof {
            reveal_strlit("B");
        }
        "B"
    } else if d == 12 {
        proof {
            reveal_strlit("C");
        }
        "C"
    } else if d == 13 {
        proof {
            reveal_strlit("D");
        }
        "D"
    } else if d == 14 {
        proof {
            reveal_strlit("E");
        }
        "E"
    } else {
        proof {
            reveal_strlit("F");
        }
        "F"
    }
}

fn append_dec(s: &mut String, n: u32)
    ensures
        final(s)@ == old(s)@ + dec_text(n as nat),
    decreases n,
{
    if n >= 10 {
        append_dec(s, n / 10);
    }
    s.append(digit_str(n % 10));
    assert(final(s)@ =~= old(s)@ + dec_text(n as nat)) by {
        if n >= 10 {
            assert(old(s)@ + dec_text(n as nat) =~= old(s)@ + dec_text((n / 10) as nat) + seq![
                digit_char((n % 10) as int),
            ]);
        }
    }
}

/// The text of `status_text`.
pub fn status_reply(playing: bool, st1: u8, st2: u8, measure: u16) -> (r: String)
    ensures
        r@ == status_text(playing, st1, st2, measure),
{
    let mut s = String::new();
    s.append("playing=");
    if playing {
        s.append("true");
    } else {
        s.append("false");
    }
    s.append(" ST1=");
    s.append(digit_str(st1 as u32 / 16));
    s.append(digit_str(st1 as u32 % 16));
    s.append(" loop=");
    append_dec(&mut s, st2 as u32);
    s.append(" measure=");
    append_dec(&mut s, measure as u32);
    assert(s@ =~= status_text(playing, st1, st2, measure));
    s
}

/// The reply to a command (see [`reply_text`]).
pub fn command_reply(kind: &CmdKind, playing: bool, st1: u8, st2: u8, measure: u16) -> (r: Option<
    String,
>)
    ensures
        match r {
            Some(t) => reply_text(kind.model(), playing, st1, st2, measure) == Some(t@),
            None => reply_text(kind.model(), playing, st1, st2, measure) is None,
        },
{
    match kind {
        CmdKind::Play(_) => None,
        CmdKind::Stop => Some("stopped".to_owned()),
        CmdKind::Fade(n) => {
            let mut s = String::new();
            s.append("fade ");
            append_dec(&mut s, *n as u32);
            s.append(" (バッファ分だけ遅れて効きます)");
            assert(s@ =~= fade_text(*n));
            Some(s)
        },
        CmdKind::Status => Some(status_reply(playing, st1, st2, measure)),
        CmdKind::Quit => Some("bye".to_owned()),
    }
}

/// How often, in ticks, the loop asks the driver's queue length.
pub const QUEUE_CHECK_TICKS: u64 = 8;

/// The playback loop's state: whether a song plays, the ticks driven so far
/// and the queue length above which the loop holds back.
#[derive(Clone, Copy, PartialEq, Eq, Structural, Debug)]
pub struct Player {
    pub playing: bool,
    pub tick: u64,
    pub queue_high: u32,
}

/// What the caller tells the loop.
#[derive(Clone, Copy, PartialEq, Eq, Structural, Debug)]
pub enum PlayerInput {
    /// A round begins (after the pending commands were served).
    Round,
    /// The driver's queue length, or `None` when asking failed.
    QueueSize(Option<u32>),
    /// Whether a timer event was due.
    Event(bool),
    /// Whether the end of the tick's batch reached the driver.
    BatchSent(bool),
}

/// What the loop asks the caller to do next.
#[derive(Clone, Copy, PartialEq, Eq, Structural, Debug)]
pub enum PlayerAction {
    /// Wait this many milliseconds; the round is over.
    Sleep(u32),
    /// Ask the driver for its queue length.
    AskQueue,
    /// Take the next timer event.
    NextEvent,
    /// Run the timer handler for the event and end its batch.
    RunTick,
    /// The round is over.
    Done,
}

/// One decision of the playback loop. Idle: wait 10 ms. Playing: every
/// `QUEUE_CHECK_TICKS` ticks ask the driver's queue length first and, while it
/// is above `queue_high`, wait 1 ms and drive nothing (back pressure, so the
/// host does not run too far ahead); otherwise take the next event, drive one
/// tick when one is due, else wait 1 ms. After a tick the count goes up by one,
/// and a failed send stops playback.
pub open spec fn player_step(p: Player, input: PlayerInput) -> (Player, PlayerAction) {
    match input {
        PlayerInput::Round => if !p.playing {
            (p, PlayerAction::Sleep(10))
        } else if p.tick % QUEUE_CHECK_TICKS == 0 {
            (p, PlayerAction::AskQueue)
        } else {
            (p, PlayerAction::NextEvent)
        },
        PlayerInput::QueueSize(r) => match r {
            Some(q) => if q > p.queue_high {
                (p, PlayerAction::Sleep(1))
            } else {
                (p, PlayerAction::NextEvent)
            },
            None => (p, PlayerAction::NextEvent),
        },
        PlayerInput::Event(due) => if due {
            (p, PlayerAction::RunTick)
        } else {
            (p, PlayerAction::Sleep(1))
        },
        PlayerInput::BatchSent(ok) => (
            Player { playing: p.playing && ok, tick: (p.tick + 1) as u64, ..p },
            PlayerAction::Done,
        ),
    }
}

impl Player {
    /// Nothing playing, no tick driven yet.
    pub fn new(queue_high: u32) -> (p: Self)
        ensures
            p == (Player { playing: false, tick: 0, queue_high }),
    {
        Player { playing: false, tick: 0, queue_high }
    }

    /// Takes one input and returns the next action (see [`player_step`]).
    pub fn step(&mut self, input: PlayerInput) -> (a: PlayerAction)
        requires
            input is BatchSent ==> old(self).tick < u64::MAX,
        ensures
            (*final(self), a) == player_step(*old(self), input),
    {
        match input {
            PlayerInput::Round => {
                if !self.playing {
                    PlayerAction::Sleep(10)
                } else if self.tick % QUEUE_CHECK_TICKS == 0 {
                    PlayerAction::AskQueue
                } else {
                    PlayerAction::NextEvent
                }
            },
            PlayerInput::QueueSize(r) => match r {
                Some(q) => if q > self.queue_high {
                    PlayerAction::Sleep(1)
                } else {
                    PlayerAction::NextEvent
                },
                None => PlayerAction::NextEvent,
            },
            PlayerInput::Event(due) => if due {
                PlayerAction::RunTick
            } else {
                PlayerAction::Sleep(1)
            },
            PlayerInput::BatchSent(ok) => {
                self.playing = self.playing && ok;
                self.tick = self.tick + 1;
                PlayerAction::Done
            },
        }
    }
}

/// The dry run's loop: it drives `ticks` ticks with no board and, when asked
/// to, shows PMD's status every 100 ticks whenever the loop count changed, and
/// every 20000 ticks in any case.
#[derive(Clone, Copy, PartialEq, Eq, Structural, Debug)]
pub struct DryRun {
    pub tick: u64,
    pub ticks: u64,
    pub status_poll: bool,
    pub last_st2: u8,
}

impl DryRun {
    /// A dry run of `ticks` ticks, nothing driven yet.
    pub fn new(ticks: u64, status_poll: bool) -> (d: Self)
        ensures
            d == (DryRun { tick: 0, ticks, status_poll, last_st2: 0 }),
    {
        DryRun { tick: 0, ticks, status_poll, last_st2: 0 }
    }

    /// Whether this tick reads PMD's status.
    pub fn status_due(&self) -> (r: bool)
        ensures
            r == (self.status_poll && self.tick % 100 == 0),
    {
        self.status_poll && self.tick % 100 == 0
    }

    /// Given the loop count just read, whether to show the status line; when
    /// so, the count is remembered.
    pub fn show_status(&mut self, st2: u8) -> (r: bool)
        ensures
            r == (st2 != old(self).last_st2 || old(self).tick % 20000 == 0),
            *final(self) == (if r {
                DryRun { last_st2: st2, ..*old(self) }
            } else {
                *old(self)
            }),
    {
        let r = st2 != self.last_st2 || self.tick % 20000 == 0;
        if r {
            self.last_st2 = st2;
        }
        r
    }

    /// Counts the tick just driven; true when the dry run is complete.
    pub fn finish_tick(&mut self) -> (done: bool)
        requires
            old(self).tick < u64::MAX,
        ensures
            *final(self) == (DryRun { tick: (old(self).tick + 1) as u64, ..*old(self) }),
            done == (old(self).tick + 1 >= old(self).ticks),
    {
        self.tick = self.tick + 1;
        self.tick >= self.ticks
    }
}

/// Law: a round of a playing loop drives a tick only when the queue is not
/// deep. When the queue was asked and answered above `queue_high`, the round
/// ends waiting; when no song plays, the round ends waiting without asking
/// anything; a tick always ends the round and never starts playback.
pub proof fn law_back_pressure(p: Player, q: u32, ok: bool)
    requires
        p.tick < u64::MAX,
    ensures
        q > p.queue_high ==> player_step(p, PlayerInput::QueueSize(Some(q))) == (
            p,
            PlayerAction::Sleep(1),
        ),
        q <= p.queue_high ==> player_step(p, PlayerInput::QueueSize(Some(q))).1
            == PlayerAction::NextEvent,
        !p.playing ==> player_step(p, PlayerInput::Round).1 == PlayerAction::Sleep(10),
        p.playing ==> (player_step(p, PlayerInput::Round).1 == PlayerAction::AskQueue <==> p.tick
            % QUEUE_CHECK_TICKS == 0),
        player_step(p, PlayerInput::BatchSent(ok)).0.playing ==> p.playing,
        player_step(p, PlayerInput::BatchSent(ok)).0.tick == p.tick + 1,
{
}

/// Law: every command plan that ends playback leaves the board silent at
/// once: a stop drops the queued music before keying off, and applies the
/// key-offs with a forced drain; a change of song also resets the timer model
/// before MUSIC_START and arms the board only after it.
pub proof fn law_plans_flush_first(kind: CmdModel)
    ensures
        (kind is Stop) || (kind is Play) ==> command_plan(kind)[0] == Step::FlushReset,
        (kind is Stop) ==> command_plan(kind).last() == Step::SetPlaying(false)
            && command_plan(kind)[2] == Step::FlushDrain,
        (kind is Play) ==> command_plan(kind).last() == Step::SetPlaying(true)
            && command_plan(kind)[2] == Step::ResetTimers && command_plan(kind)[6] == (Step::Pmd {
            ah: PMD_MUSIC_START,
            al: 0,
        }) && command_plan(kind)[8] == Step::ArmBoard,
        (kind is Fade) || (kind is Status) || (kind is Quit) ==> !command_plan(kind).contains(
            Step::FlushReset,
        ),
{
    let quiet = (kind is Fade) || (kind is Status) || (kind is Quit);
    if quiet {
        assert forall|i: int| 0 <= i < command_plan(kind).len() implies command_plan(kind)[i]
            != Step::FlushReset by {}
    }
}

/// Law: the playback loop's whole decision table. Only the end of a tick
/// changes the state: the tick count goes up by one and playback stops when
/// the batch end failed to go out. A round does nothing while idle but wait
/// 10 ms; while playing it asks the queue length on every eighth tick (tick
/// divisible by 8) and otherwise goes straight to the next event. A queue
/// length above the limit means waiting 1 ms; one at or below it, or a failed
/// query, means going on. A due event runs a tick, none means waiting 1 ms.
pub proof fn law_loop_decisions(p: Player, input: PlayerInput)
    requires
        p.tick < u64::MAX,
    ensures
        !(input is BatchSent) ==> player_step(p, input).0 == p,
        input == PlayerInput::BatchSent(true) ==> player_step(p, input) == (
            Player { playing: p.playing, tick: (p.tick + 1) as u64, queue_high: p.queue_high },
            PlayerAction::Done,
        ),
        input == PlayerInput::BatchSent(false) ==> player_step(p, input) == (
            Player { playing: false, tick: (p.tick + 1) as u64, queue_high: p.queue_high },
            PlayerAction::Done,
        ),
        input == PlayerInput::Round && !p.playing ==> player_step(p, input).1
            == PlayerAction::Sleep(10),
        input == PlayerInput::Round && p.playing && p.tick % 8 == 0 ==> player_step(p, input).1
            == PlayerAction::AskQueue,
        input == PlayerInput::Round && p.playing && p.tick % 8 != 0 ==> player_step(p, input).1
            == PlayerAction::NextEvent,
        forall|q: u32|
            input == PlayerInput::QueueSize(Some(q)) ==> player_step(p, input).1 == (if q
                > p.queue_high {
                PlayerAction::Sleep(1)
            } else {
                PlayerAction::NextEvent
            }),
        input == PlayerInput::QueueSize(None) ==> player_step(p, input).1
            == PlayerAction::NextEvent,
        input == PlayerInput::Event(true) ==> player_step(p, input).1 == PlayerAction::RunTick,
        input == PlayerInput::Event(false) ==> player_step(p, input).1 == PlayerAction::Sleep(1),
{
}

/// Law: what each command does, step by step. `stop` drops the queue, calls
/// PMD function 01h (MUSIC_STOP), forces a drain and records that nothing
/// plays; `fade n` is the one call of PMD function 02h with AL = n; `status`
/// reads the status word and then the measure counter; `quit` has no step;
/// `play` is the change of song (flush, buffer B, timer reset, PMD 01h, drain,
/// load, PMD 00h (MUSIC_START), drain, arm, first event) and then records
/// that a song plays.
pub proof fn law_command_steps(kind: CmdModel)
    ensures
        (kind is Stop) ==> command_plan(kind) == seq![
            Step::FlushReset,
            Step::Pmd { ah: 0x01, al: 0 },
            Step::FlushDrain,
            Step::SetPlaying(false),
        ],
        forall|n: u8|
            kind == CmdModel::Fade(n) ==> command_plan(kind) == seq![Step::Pmd { ah: 0x02, al: n }],
        (kind is Status) ==> command_plan(kind) == seq![Step::GetStatus, Step::Measure],
        (kind is Quit) ==> command_plan(kind).len() == 0,
        (kind is Play) ==> command_plan(kind) == seq![
            Step::FlushReset,
            Step::IntselToB,
            Step::ResetTimers,
            Step::Pmd { ah: 0x01, al: 0 },
            Step::FlushDrain,
            Step::LoadSong,
            Step::Pmd { ah: 0x00, al: 0 },
            Step::FlushDrain,
            Step::ArmBoard,
            Step::FirstEvent,
            Step::SetPlaying(true),
        ],
{
    if kind is Play {
        assert(command_plan(kind) =~= seq![
            Step::FlushReset,
            Step::IntselToB,
            Step::ResetTimers,
            Step::Pmd { ah: 0x01, al: 0 },
            Step::FlushDrain,
            Step::LoadSong,
            Step::Pmd { ah: 0x00, al: 0 },
            Step::FlushDrain,
            Step::ArmBoard,
            Step::FirstEvent,
            Step::SetPlaying(true),
        ]);
    }
}

/// The value of an upper-case hex digit (`0`-`9`, `A`-`F`).
pub open spec fn hex_digit_value(c: char) -> int {
    if '0' <= c <= '9' {
        c as int - '0' as int
    } else {
        c as int - 'A' as int + 10
    }
}

/// Law: the decimal text of a number is a non-empty string of ASCII digits
/// without a leading zero (but for 0 itself) that reads back as the number;
/// for a byte, it is what `parse_u8` turns back into that byte, so a `fade n`
/// reply names the very speed a `fade` command with that text asks for.
pub proof fn law_decimal_text_reads_back(n: nat)
    ensures
        dec_text(n).len() >= 1,
        all_digits(dec_text(n)),
        digits_value(dec_text(n)) == n,
        dec_text(n)[0] == '0' ==> n == 0,
        n <= 255 ==> parse_u8(dec_text(n)) == Some(n as u8),
        n > 255 ==> parse_u8(dec_text(n)) is None,
        n <= 255 ==> parse_u8(seq!['+'] + dec_text(n)) == Some(n as u8),
    decreases n,
{
    if n >= 10 {
        law_decimal_text_reads_back(n / 10);
        let s = dec_text(n / 10);
        let t = dec_text(n);
        let d = (n % 10) as int;
        assert(t == s.push(digit_char(d)));
        assert(t.drop_last() =~= s);
        assert(digit_char(d) as int == 0x30 + d);
        assert forall|i: int| 0 <= i < t.len() implies '0' <= #[trigger] t[i] <= '9' by {
            if i < s.len() {
                assert(t[i] == s[i]);
            }
        }
        assert(t[0] == s[0]);
        assert('0' as int == 0x30);
        assert(digits_value(t) == digits_value(s) * 10 + (t.last() as int - '0' as int));
        assert(n == (n / 10) * 10 + d);
    } else {
        assert(digit_char(n as int) as int == 0x30 + n);
        assert(dec_text(n).drop_last() =~= Seq::<char>::empty());
        assert('0' as int == 0x30);
        assert(digits_value(dec_text(n)) == digits_value(dec_text(n).drop_last()) * 10 + (
        dec_text(n).last() as int - '0' as int));
    }
    assert(dec_text(n).len() > 0 && dec_text(n)[0] != '+');
    assert((seq!['+'] + dec_text(n)).drop_first() =~= dec_text(n));
}

/// Law: a byte's hex text is two upper-case hex digits, the high nibble first.
pub proof fn law_hex_text_reads_back(b: u8)
    ensures
        hex2_text(b).len() == 2,
        forall|i: int|
            0 <= i < 2 ==> ('0' <= #[trigger] hex2_text(b)[i] <= '9' || 'A' <= hex2_text(b)[i]
                <= 'F'),
        hex_digit_value(hex2_text(b)[0]) * 16 + hex_digit_value(hex2_text(b)[1]) == b,
{
    let hi = (b / 16) as int;
    let lo = (b % 16) as int;
    assert(hi < 10 ==> digit_char(hi) as int == 0x30 + hi);
    assert(hi >= 10 ==> digit_char(hi) as int == 0x41 + hi - 10);
    assert(lo < 10 ==> digit_char(lo) as int == 0x30 + lo);
    assert(lo >= 10 ==> digit_char(lo) as int == 0x41 + lo - 10);
}

} // verus!
