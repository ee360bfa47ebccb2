//! The player as a state machine: idle before playback, sounding while a
//! pitched tone lasts, silent during silence and in the pause after every
//! tone.

use crate::divider::{divider_for, Divider, DividerError};
use crate::sequencer::{play_tone, playable, song_playable, tone_trace, Command};
use crate::timer::{CountMode, Timer};
use crate::tone::Tone;
use vstd::prelude::*;

verus! {

/// Where the player stands.
#[derive(Clone, Copy, Debug, PartialEq, Eq, Structural)]
pub enum PlayerState {
    /// Nothing was played yet.
    Idle,
    /// The output is open and the timer runs at the frequency of this tone.
    Sounding(Tone),
    /// The output is closed: this tone is silence, or it is over.
    Silent(Tone),
}

impl PlayerState {
    /// The state after a command of `tone` was performed: opening the output
    /// starts the sound of the tone, closing it starts the silence of the
    /// tone, and nothing else changes the state.
    pub open spec fn after(self, tone: Tone, command: Command) -> PlayerState {
        match command {
            Command::Enable => PlayerState::Sounding(tone),
            Command::Disable => PlayerState::Silent(tone),
            _ => self,
        }
    }
}

/// The states that one tone takes the player through: a pitched tone sounds
/// and falls silent, silence is silent.
pub open spec fn tone_states(tone: Tone) -> Seq<PlayerState> {
    if tone@.note.is_silence() {
        seq![PlayerState::Silent(tone)]
    } else {
        seq![PlayerState::Sounding(tone), PlayerState::Silent(tone)]
    }
}

/// The states that a song takes the player through, from `Idle` on.
pub open spec fn song_states(song: Seq<Tone>) -> Seq<PlayerState>
    decreases song.len(),
{
    if song.len() == 0 {
        seq![PlayerState::Idle]
    } else {
        song_states(song.drop_last()) + tone_states(song.last())
    }
}

/// The timer after a command was performed on it.
pub open spec fn timer_after(timer: Timer, command: Command) -> Timer {
    match command {
        Command::Program(divider) => timer.programmed(divider),
        Command::Enable => timer.gated(true),
        Command::Disable => timer.gated(false),
        _ => timer,
    }
}

/// A player: its state, and the timer as the player has set it.
#[derive(Clone, Copy, Debug, PartialEq, Eq, Structural)]
pub struct Player {
    pub state: PlayerState,
    pub timer: Timer,
}

impl Player {
    /// The player after one command of `tone`.
    pub open spec fn performed(self, tone: Tone, command: Command) -> Player {
        Player { state: self.state.after(tone, command), timer: timer_after(self.timer, command) }
    }

    /// The player after some commands of `tone`, in order.
    pub open spec fn ran(self, tone: Tone, commands: Seq<Command>) -> Player
        decreases commands.len(),
    {
        if commands.len() == 0 {
            self
        } else {
            self.ran(tone, commands.drop_last()).performed(tone, commands.last())
        }
    }

    /// The player after a song.
    pub open spec fn played(self, input_clock_hz: nat, song: Seq<Tone>) -> Player
        decreases song.len(),
    {
        if song.len() == 0 {
            self
        } else {
            self.played(input_clock_hz, song.drop_last()).ran(
                song.last(),
                tone_trace(input_clock_hz, song.last()),
            )
        }
    }

    /// Whether the state and the timer agree: while a tone sounds the output
    /// is open and the timer runs with the divider of that tone, and
    /// otherwise the output is closed.
    pub open spec fn consistent(self, input_clock_hz: nat) -> bool {
        match self.state {
            PlayerState::Sounding(tone) => {
                &&& self.timer.output_enabled
                &&& self.timer.counting
                &&& self.timer.mode == CountMode::Up
                &&& !self.timer.one_shot
                &&& divider_for(input_clock_hz, tone@.frequency) is Ok
                &&& divider_for(input_clock_hz, tone@.frequency)->Ok_0 == self.timer.divider()
            },
            _ => !self.timer.output_enabled,
        }
    }

    /// An idle player with a stopped timer.
    pub fn new() -> (p: Player)
        ensures
            p.state == PlayerState::Idle,
            p.timer == Timer::new_spec(),
            p.consistent(0),
    {
        Player { state: PlayerState::Idle, timer: Timer::new() }
    }

    /// Takes note of one command of `tone` that was performed.
    pub fn perform(&mut self, tone: &Tone, command: Command)
        ensures
            *final(self) == old(self).performed(*tone, command),
    {
        match command {
            Command::Program(divider) => {
                self.timer.program_timer(divider.prescaler, divider.period);
            },
            Command::Enable => {
                self.timer.enable();
                self.state = PlayerState::Sounding(*tone);
            },
            Command::Disable => {
                self.timer.disable();
                self.state = PlayerState::Silent(*tone);
            },
            Command::Hold(_) => {},
            Command::Pause(_) => {},
        }
    }

    /// Plays one tone: hands out its commands and takes note of them all.
    /// Where the tone cannot be played the player is left as it was.
    pub fn play(&mut self, input_clock_hz: u64, tone: &Tone) -> (r: Result<
        Vec<Command>,
        DividerError,
    >)
        ensures
            playable(input_clock_hz as nat, *tone) ==> r is Ok && r->Ok_0@ == tone_trace(
                input_clock_hz as nat,
                *tone,
            ) && *final(self) == old(self).ran(*tone, tone_trace(input_clock_hz as nat, *tone)),
            !playable(input_clock_hz as nat, *tone) ==> r is Err && r->Err_0
                == DividerError::FrequencyTooLow && *final(self) == *old(self),
    {
        let commands: Vec<Command> = match play_tone(input_clock_hz, tone) {
            Ok(commands) => commands,
            Err(e) => {
                return Err(e);
            },
        };
        let mut i: usize = 0;
        while i < commands.len()
            invariant
                i <= commands.len(),
                *self == old(self).ran(*tone, commands@.take(i as int)),
            decreases commands.len() - i,
        {
            proof {
                assert(commands@.take(i + 1).drop_last() =~= commands@.take(i as int));
            }
            self.perform(tone, commands[i]);
            i = i + 1;
        }
        proof {
            assert(commands@.take(i as int) =~= commands@);
        }
        Ok(commands)
    }
}

/// The states that one tone takes the player through.
pub fn tone_transitions(tone: &Tone) -> (r: Vec<PlayerState>)
    ensures
        r@ == tone_states(*tone),
{
    let mut out: Vec<PlayerState> = Vec::new();
    if !tone.note().is_rest() {
        out.push(PlayerState::Sounding(*tone));
    }
    out.push(PlayerState::Silent(*tone));
    assert(out@ =~= tone_states(*tone));
    out
}

/// The states that a song takes the player through, from `Idle` on.
pub fn song_transitions(song: &[Tone]) -> (r: Vec<PlayerState>)
    ensures
        r@ == song_states(song@),
{
    let mut out: Vec<PlayerState> = Vec::new();
    out.push(PlayerState::Idle);
    let mut i: usize = 0;
    assert(out@ =~= song_states(song@.take(0)));
    while i < song.len()
        invariant
            i <= song.len(),
            out@ == song_states(song@.take(i as int)),
        decreases song.len() - i,
    {
        let tone: Tone = song[i];
        if !tone.note().is_rest() {
            out.push(PlayerState::Sounding(tone));
        }
        out.push(PlayerState::Silent(tone));
        proof {
            assert(song@.take(i + 1).drop_last() =~= song@.take(i as int));
            assert(song@.take(i + 1).last() == tone);
            assert(out@ =~= song_states(song@.take(i + 1)));
        }
        i = i + 1;
    }
    proof {
        assert(song@.take(i as int) =~= song@);
    }
    out
}

/// The state that one command of `tone` makes the player enter, if any.
pub open spec fn state_entered(tone: Tone, command: Command) -> Seq<PlayerState> {
    match command {
        Command::Enable => seq![PlayerState::Sounding(tone)],
        Command::Disable => seq![PlayerState::Silent(tone)],
        _ => Seq::empty(),
    }
}

/// The states that some commands of `tone` make the player enter, in
/// order.
pub open spec fn states_entered(tone: Tone, commands: Seq<Command>) -> Seq<PlayerState>
    decreases commands.len(),
{
    if commands.len() == 0 {
        Seq::empty()
    } else {
        states_entered(tone, commands.drop_last()) + state_entered(tone, commands.last())
    }
}

/// Performing one command more takes the player one step further.
pub proof fn lemma_ran_step(player: Player, tone: Tone, commands: Seq<Command>, done: int)
    requires
        0 <= done < commands.len(),
    ensures
        player.ran(tone, commands.take(done + 1)) == player.ran(
            tone,
            commands.take(done),
        ).performed(tone, commands[done]),
        states_entered(tone, commands.take(done + 1)) == states_entered(
            tone,
            commands.take(done),
        ) + state_entered(tone, commands[done]),
{
    assert(commands.take(done + 1).drop_last() =~= commands.take(done));
    assert(commands.take(done + 1).last() == commands[done]);
}

/// The commands of a tone take the player through the states of the tone
/// and no others.
pub proof fn lemma_tone_trace_enters_tone_states(input_clock_hz: nat, tone: Tone)
    ensures
        states_entered(tone, tone_trace(input_clock_hz, tone)) == tone_states(tone),
{
    let trace = tone_trace(input_clock_hz, tone);
    let start = Player { state: PlayerState::Idle, timer: Timer::new_spec() };
    assert(trace.take(trace.len() as int) =~= trace);
    assert(states_entered(tone, trace.take(0)) =~= Seq::<PlayerState>::empty());
    lemma_ran_step(start, tone, trace, 0);
    lemma_ran_step(start, tone, trace, 1);
    lemma_ran_step(start, tone, trace, 2);
    if !tone@.note.is_silence() {
        lemma_ran_step(start, tone, trace, 3);
        lemma_ran_step(start, tone, trace, 4);
    }
    assert(states_entered(tone, trace) =~= tone_states(tone));
}

/// After the commands of a tone the player is silent with the output
/// closed. The timer holds the divider of the tone if the tone is pitched,
/// and what it held before if the tone is silence.
pub proof fn lemma_tone_leaves_player_silent(player: Player, input_clock_hz: nat, tone: Tone)
    requires
        playable(input_clock_hz, tone),
    ensures
        player.ran(tone, tone_trace(input_clock_hz, tone)).state == PlayerState::Silent(tone),
        player.ran(tone, tone_trace(input_clock_hz, tone)).timer == if tone@.note.is_silence() {
            player.timer.gated(false)
        } else {
            player.timer.programmed(
                divider_for(input_clock_hz, tone@.frequency)->Ok_0,
            ).gated(false)
        },
{
    let trace = tone_trace(input_clock_hz, tone);
    assert(trace.take(trace.len() as int) =~= trace);
    lemma_ran_step(player, tone, trace, 0);
    lemma_ran_step(player, tone, trace, 1);
    lemma_ran_step(player, tone, trace, 2);
    if !tone@.note.is_silence() {
        lemma_ran_step(player, tone, trace, 3);
        lemma_ran_step(player, tone, trace, 4);
    }
}

/// State and timer agree all through a tone: if they agree before the
/// tone, and no tone is sounding then, they agree after each of its
/// commands.
pub proof fn lemma_tone_keeps_player_consistent(
    player: Player,
    input_clock_hz: nat,
    tone: Tone,
    done: int,
)
    requires
        playable(input_clock_hz, tone),
        player.consistent(input_clock_hz),
        !(player.state is Sounding),
        0 <= done <= tone_trace(input_clock_hz, tone).len(),
    ensures
        player.ran(tone, tone_trace(input_clock_hz, tone).take(done)).consistent(input_clock_hz),
{
    let trace = tone_trace(input_clock_hz, tone);
    lemma_ran_step(player, tone, trace, 0);
    lemma_ran_step(player, tone, trace, 1);
    lemma_ran_step(player, tone, trace, 2);
    if !tone@.note.is_silence() {
        lemma_ran_step(player, tone, trace, 3);
        lemma_ran_step(player, tone, trace, 4);
    }
}

/// State and timer agree after every tone of a song, and the player is
/// silent after its last tone.
pub proof fn lemma_song_keeps_player_consistent(
    player: Player,
    input_clock_hz: nat,
    song: Seq<Tone>,
)
    requires
        song_playable(input_clock_hz, song),
        player.consistent(input_clock_hz),
        !(player.state is Sounding),
    ensures
        player.played(input_clock_hz, song).consistent(input_clock_hz),
        !(player.played(input_clock_hz, song).state is Sounding),
        song.len() > 0 ==> player.played(input_clock_hz, song).state == PlayerState::Silent(
            song.last(),
        ),
    decreases song.len(),
{
    if song.len() > 0 {
        let head = song.drop_last();
        assert forall|i: int| 0 <= i < head.len() implies playable(
            input_clock_hz,
            #[trigger] head[i],
        ) by {
            assert(head[i] == song[i]);
        }
        assert(song.last() == song[song.len() - 1]);
        lemma_song_keeps_player_consistent(player, input_clock_hz, head);
        let before = player.played(input_clock_hz, head);
        let trace = tone_trace(input_clock_hz, song.last());
        lemma_tone_leaves_player_silent(before, input_clock_hz, song.last());
        lemma_tone_keeps_player_consistent(
            before,
            input_clock_hz,
            song.last(),
            trace.len() as int,
        );
        assert(trace.take(trace.len() as int) =~= trace);
    }
}

} // verus!
