//! The command lines of the external player and of the kill switch.
//!
//! Running them is the caller's part; which program is called with which
//! arguments is decided here.

use vstd::prelude::*;
use vstd::string::StringExecFns;

verus! {

/// A program and its arguments.
#[derive(Debug, PartialEq, Eq)]
pub struct PlayerCommand {
    pub program: String,
    pub args: Vec<String>,
}

/// The texts that a sequence of arguments stands for.
pub open spec fn arg_views(args: Seq<String>) -> Seq<Seq<char>> {
    Seq::new(args.len(), |i: int| args[i]@)
}

/// Where the sound `filepath` lies: below `base_path`, one slash between.
pub open spec fn sound_location(base_path: Seq<char>, filepath: Seq<char>) -> Seq<char> {
    base_path + "/"@ + filepath
}

/// The arguments that the player gets for a sound at `location`.
pub open spec fn player_args(location: Seq<char>) -> Seq<Seq<char>> {
    seq!["-really-quiet"@, "-nolirc"@, "-ao"@, "alsa"@, location]
}

/// The command that plays the sound `filepath` of the asset root
/// `base_path`: `mplayer`, quiet, without remote control, on ALSA.
pub fn player_command(base_path: &str, filepath: &str) -> (command: PlayerCommand)
    ensures
        command.program@ == "mplayer"@,
        arg_views(command.args@) == player_args(sound_location(base_path@, filepath@)),
{
    let mut location = base_path.to_owned();
    location.append("/");
    location.append(filepath);
    let mut args: Vec<String> = Vec::new();
    args.push("-really-quiet".to_owned());
    args.push("-nolirc".to_owned());
    args.push("-ao".to_owned());
    args.push("alsa".to_owned());
    args.push(location);
    assert(arg_views(args@) =~= player_args(sound_location(base_path@, filepath@)));
    PlayerCommand { program: "mplayer".to_owned(), args }
}

/// The command of the kill switch: `killall mplayer`.
pub fn stop_command() -> (command: PlayerCommand)
    ensures
        command.program@ == "killall"@,
        arg_views(command.args@) == seq!["mplayer"@],
{
    let mut args: Vec<String> = Vec::new();
    args.push("mplayer".to_owned());
    assert(arg_views(args@) =~= seq!["mplayer"@]);
    PlayerCommand { program: "killall".to_owned(), args }
}

} // verus!
