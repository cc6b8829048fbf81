//! What starting a game means: which program runs, with which arguments and
//! in which folder, or which shortcut the system opens. Spawning the process
//! and following it are the program's part.

use vstd::prelude::*;

use crate::browser::{parent_of, path_parent};
use crate::config::{covers_platform, emulator_args, with_rom, Config, Emulator};
use crate::error::Error;
use crate::library::{copy_strings, opt_text, Launch};
use crate::text::{owned, push_str};

verus! {

/// How a game is started.
pub enum LaunchCommand {
    /// Run `program` with `args` (in `cwd` when there is one); the process
    /// is followed as the game.
    Run { program: String, args: Vec<String>, cwd: Option<String> },
    /// Let the system open a shortcut; nothing is left to follow.
    Open { target: String },
}

/// The folder an executable runs in: the one configured, else the folder
/// that holds it (many games look for their data next to the executable),
/// else the current one.
pub open spec fn exe_folder(path: Seq<char>, working_dir: Option<Seq<char>>) -> Seq<char> {
    match working_dir {
        Some(w) => w,
        None => match path_parent(path) {
            Some(p) => p,
            None => "."@,
        },
    }
}

/// The emulator at `i` is the one a ROM opens with: the first with the id
/// asked for, or, when none is asked for, the first that covers the
/// platform.
pub open spec fn chosen_emulator(es: Seq<Emulator>, i: int, platform: Seq<char>, id: Option<Seq<char>>) -> bool {
    0 <= i < es.len() && match id {
        Some(x) => es[i].id@ == x && forall|k: int| 0 <= k < i ==> (#[trigger] es[k]).id@ != x,
        None => covers_platform(es[i], platform) && forall|k: int| 0 <= k < i ==> !covers_platform(
            #[trigger] es[k],
            platform,
        ),
    }
}

/// Some emulator can open the ROM.
pub open spec fn has_emulator(es: Seq<Emulator>, platform: Seq<char>, id: Option<Seq<char>>) -> bool {
    match id {
        Some(x) => exists|k: int| 0 <= k < es.len() && (#[trigger] es[k]).id@ == x,
        None => exists|k: int| 0 <= k < es.len() && covers_platform(#[trigger] es[k], platform),
    }
}

/// The command that starts a game. `available` tells whether the file the
/// entry points at exists (a shortcut is resolved by the system and needs
/// none). A missing file is `NotFound` with its path; a ROM with no
/// emulator for it is a `Config` error.
pub fn launch_command(launch: &Launch, config: &Config, available: bool) -> (r: Result<LaunchCommand, Error>)
    ensures
        match *launch {
            Launch::Executable { path, args, working_dir } => if !available {
                r matches Err(Error::NotFound(m)) && m@ == path@
            } else {
                r matches Ok(LaunchCommand::Run { program, args: a, cwd: Some(c) }) && program@ == path@ && a@
                    == args@ && c@ == exe_folder(path@, opt_text(working_dir))
            },
            Launch::Rom { path, platform, emulator_id } => if !available {
                r matches Err(Error::NotFound(m)) && m@ == path@
            } else if !has_emulator(config.emulators@, platform@, opt_text(emulator_id)) {
                r matches Err(Error::Config(m)) && m@ == "no hay emulador para "@ + platform@
            } else {
                r matches Ok(LaunchCommand::Run { program, args: a, cwd: None }) && exists|i: int|
                    chosen_emulator(config.emulators@, i, platform@, opt_text(emulator_id))
                        && program@ == config.emulators@[i].exe@ && a@.len()
                        == config.emulators@[i].args@.len() && forall|k: int|
                        0 <= k < a@.len() ==> (#[trigger] a@[k])@ == with_rom(
                            config.emulators@[i].args@[k]@,
                            path@,
                        )
            },
            Launch::Shortcut { target } => r matches Ok(LaunchCommand::Open { target: t }) && t@ == target@,
        },
{
    match launch {
        Launch::Executable { path, args, working_dir } => {
            if !available {
                return Err(Error::NotFound(owned(path.as_str())));
            }
            let cwd = match working_dir {
                Some(w) => owned(w.as_str()),
                None => match parent_of(path.as_str()) {
                    Some(p) => p,
                    None => owned("."),
                },
            };
            Ok(LaunchCommand::Run { program: owned(path.as_str()), args: copy_strings(args), cwd: Some(cwd) })
        },
        Launch::Rom { path, platform, emulator_id } => {
            if !available {
                return Err(Error::NotFound(owned(path.as_str())));
            }
            let emulator = match emulator_id {
                Some(id) => config.emulator_by_id(id.as_str()),
                None => config.emulator_for(platform.as_str()),
            };
            match emulator {
                Some(e) => {
                    proof {
                        match emulator_id {
                            Some(id) => {
                                let j = choose|j: int| 0 <= j < config.emulators@.len() && *e == config.emulators@[j]
                                    && e.id@ == id@ && forall|k: int| 0 <= k < j ==> (#[trigger] config.emulators@[k]).id@
                                    != id@;
                                assert(chosen_emulator(config.emulators@, j, platform@, opt_text(*emulator_id)));
                                assert(config.emulators@[j].id@ == id@);
                            },
                            None => {
                                let j = choose|j: int| 0 <= j < config.emulators@.len() && *e == config.emulators@[j]
                                    && covers_platform(*e, platform@) && forall|k: int|
                                    0 <= k < j ==> !covers_platform(#[trigger] config.emulators@[k], platform@);
                                assert(chosen_emulator(config.emulators@, j, platform@, opt_text(*emulator_id)));
                                assert(covers_platform(config.emulators@[j], platform@));
                            },
                        }
                    }
                    Ok(
                        LaunchCommand::Run {
                            program: owned(e.exe.as_str()),
                            args: emulator_args(e, path.as_str()),
                            cwd: None,
                        },
                    )
                },
                None => {
                    let mut m = owned("no hay emulador para ");
                    push_str(&mut m, platform.as_str());
                    Err(Error::Config(m))
                },
            }
        },
        Launch::Shortcut { target } => Ok(LaunchCommand::Open { target: owned(target.as_str()) }),
    }
}

} // verus!
