//! What the gateway program is asked to do.
use vstd::prelude::*;

use crate::text::{is_listed, strings_of};

verus! {

/// What the gateway program is asked to do.
#[derive(Clone, Copy, Debug, PartialEq, Eq, Structural)]
pub enum GatewayCommand {
    /// Explain how it is used, as asked.
    Help,
    /// Explain how it is used, because it was not asked for anything else.
    Usage,
    /// Serve until interrupted, and put the service back to how it was if told so.
    Serve { restore_disabled_on_exit: bool },
}

/// What the arguments ask for. A plea for help goes before anything else.
pub open spec fn command_of(args: Seq<Seq<char>>) -> GatewayCommand {
    if args.contains("--help"@) || args.contains("-h"@) {
        GatewayCommand::Help
    } else if args.contains("--serve"@) {
        GatewayCommand::Serve {
            restore_disabled_on_exit: args.contains("--restore-disabled-on-exit"@),
        }
    } else {
        GatewayCommand::Usage
    }
}

/// Arguments that ask for help ask for nothing else, wherever the plea stands among them.
pub proof fn help_goes_first(before: Seq<Seq<char>>, plea: Seq<char>, after: Seq<Seq<char>>)
    requires
        plea == "--help"@ || plea == "-h"@,
    ensures
        command_of(before + seq![plea] + after) == GatewayCommand::Help,
{
    assert((before + seq![plea] + after)[before.len() as int] == plea);
}

/// Without a plea for help the program serves if it is asked to, and puts the service back if it is
/// told so, in whatever order; and else it explains how it is used.
pub proof fn service_is_asked_for(args: Seq<Seq<char>>)
    requires
        forall|i: int|
            0 <= i < args.len() ==> #[trigger] args[i] != "--help"@ && args[i] != "-h"@,
    ensures
        (exists|i: int| 0 <= i < args.len() && #[trigger] args[i] == "--serve"@) ==> command_of(args)
            == (GatewayCommand::Serve {
            restore_disabled_on_exit: exists|i: int|
                0 <= i < args.len() && #[trigger] args[i] == "--restore-disabled-on-exit"@,
        }),
        (forall|i: int| 0 <= i < args.len() ==> #[trigger] args[i] != "--serve"@) ==> command_of(args)
            == GatewayCommand::Usage,
{
    assert(!args.contains("--help"@) && !args.contains("-h"@));
    assert(args.contains("--serve"@) == exists|i: int|
        0 <= i < args.len() && #[trigger] args[i] == "--serve"@);
    assert(args.contains("--restore-disabled-on-exit"@) == exists|i: int|
        0 <= i < args.len() && #[trigger] args[i] == "--restore-disabled-on-exit"@);
}

/// What the arguments ask for.
pub fn gateway_command(args: &[String]) -> (command: GatewayCommand)
    ensures
        command == command_of(strings_of(args@)),
{
    if is_listed(args, "--help") || is_listed(args, "-h") {
        return GatewayCommand::Help;
    }
    if !is_listed(args, "--serve") {
        return GatewayCommand::Usage;
    }
    GatewayCommand::Serve {
        restore_disabled_on_exit: is_listed(args, "--restore-disabled-on-exit"),
    }
}

} // verus!
