use vstd::prelude::*;

verus! {

/// Commands from the user interface to the audio engine.
#[derive(Clone, Copy, Debug, PartialEq, Eq, Structural)]
pub enum UiCommand {
    Resume,
    Pause,
}

/// The play/pause button (or the space bar): flips the interface's playing
/// flag and returns the command that tells the audio engine.
pub fn play_or_stop(playing: &mut bool) -> (command: UiCommand)
    ensures
        command == (if *old(playing) { UiCommand::Pause } else { UiCommand::Resume }),
        *final(playing) == !*old(playing),
{
    let command = if *playing { UiCommand::Pause } else { UiCommand::Resume };
    *playing = !*playing;
    command
}

/// The audio engine applies a command to its own playing flag.
pub fn apply_ui_command(playing: &mut bool, command: UiCommand)
    ensures
        *final(playing) == (command == UiCommand::Resume),
{
    *playing = match command {
        UiCommand::Resume => true,
        UiCommand::Pause => false,
    };
}

/// The effect of a command on the engine's playing flag.
pub open spec fn playing_after(command: UiCommand) -> bool {
    command == UiCommand::Resume
}

/// The effect of a run of commands, applied in order, on the engine's
/// playing flag.
pub open spec fn playing_after_all(playing: bool, commands: Seq<UiCommand>) -> bool {
    if commands.len() == 0 {
        playing
    } else {
        playing_after(commands.last())
    }
}

/// The interface and the engine stay in step: when the interface toggles and
/// the engine applies the command it sent, both end with the same playing
/// flag, the interface's new one.
pub proof fn lemma_toggle_keeps_in_step(ui: bool)
    ensures
        playing_after(if ui { UiCommand::Pause } else { UiCommand::Resume }) == !ui,
{
}

/// The last of a nonempty run of commands decides the engine's flag, an
/// empty run leaves it alone, and applying two runs one after the other is
/// applying the run of all their commands.
pub proof fn lemma_last_command_wins(playing: bool, a: Seq<UiCommand>, b: Seq<UiCommand>)
    ensures
        a.len() > 0 ==> (playing_after_all(playing, a) <==> a[a.len() - 1] == UiCommand::Resume),
        a.len() == 0 ==> playing_after_all(playing, a) == playing,
        playing_after_all(playing_after_all(playing, a), b) == playing_after_all(playing, a + b),
        playing_after_all(playing, a.push(UiCommand::Resume)),
        !playing_after_all(playing, a.push(UiCommand::Pause)),
{
    if b.len() > 0 {
        assert((a + b).last() == b.last());
    } else {
        assert(a + b =~= a);
    }
}

/// A run of commands leaves the engine in the state the last one asks for.
pub fn apply_ui_commands(playing: &mut bool, commands: &Vec<UiCommand>)
    ensures
        *final(playing) == playing_after_all(*old(playing), commands@),
        commands@.len() == 0 ==> *final(playing) == *old(playing),
        commands@.len() > 0 ==> (*final(playing) <==> commands@[commands@.len() - 1]
            == UiCommand::Resume),
{
    let n: usize = commands.len();
    let mut i: usize = 0;
    while i < n
        invariant
            n == commands@.len(),
            i <= n,
            *playing == playing_after_all(*old(playing), commands@.take(i as int)),
        decreases n - i,
    {
        apply_ui_command(playing, commands[i]);
        proof {
            assert(commands@.take(i + 1).last() == commands@[i as int]);
        }
        i = i + 1;
    }
    proof {
        assert(commands@.take(n as int) =~= commands@);
    }
}

} // verus!
