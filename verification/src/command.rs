//! The synchronous command surface.
//!
//! Distinct from the event bridge: a command call blocks for exactly
//! one response — a value or a typed error — with no fan-out. The
//! minimal core exposes one command, a greeting that splices in a
//! value computed by the native backend's add symbol.

use vstd::prelude::*;

use crate::ffi::native_add;
use crate::ffi::wrapping_sum;
use crate::numeral::decimal;
use crate::numeral::u64_to_decimal;
use crate::text::str_eq;

verus! {

/// The arguments of the greeting command.
pub struct GreetArgs {
    pub name: Option<String>,
}

/// Why a command invocation returned no value.
#[derive(Clone, Copy, PartialEq, Eq, Structural, Debug)]
pub enum CommandError {
    /// No command of the given name exists.
    UnknownCommand,
    /// The command exists but a required argument was absent.
    MissingArgument,
}

/// The two operands the greeting hands to the native add symbol.
pub open spec fn greet_left_operand() -> u64 {
    10
}

/// The right operand of the greeting's native add call.
pub open spec fn greet_right_operand() -> u64 {
    12
}

/// The greeting returned for `name` around the computed value `v`.
pub open spec fn greeting(name: Seq<char>, v: u64) -> Seq<char> {
    "Hello, "@ + name + "! value is "@ + decimal(v as nat)
}

/// Formats the greeting for `name` around the value the native add
/// symbol returns for the fixed demonstration operands.
pub fn greet(name: &str) -> (r: String)
    ensures
        r@ == greeting(name@, wrapping_sum(greet_left_operand(), greet_right_operand())),
{
    let v = native_add(10, 12);
    let num = u64_to_decimal(v);
    String::from_str("Hello, ").concat(name).concat("! value is ").concat(num.as_str())
}

/// Resolves and runs the command `command` with `args`: exactly one
/// value or one typed error comes back. The greeting command requires
/// its name argument; an unknown command name is rejected as such.
pub fn invoke(command: &str, args: GreetArgs) -> (r: Result<String, CommandError>)
    ensures
        command@ == "greet"@ ==> match args.name {
            Some(n) => (r matches Ok(s) && s@ == greeting(
                n@,
                wrapping_sum(greet_left_operand(), greet_right_operand()),
            )),
            None => (r matches Err(e) && e == CommandError::MissingArgument),
        },
        command@ != "greet"@ ==> (r matches Err(e) && e == CommandError::UnknownCommand),
{
    if str_eq(command, "greet") {
        match args.name {
            Some(n) => Ok(greet(n.as_str())),
            None => Err(CommandError::MissingArgument),
        }
    } else {
        Err(CommandError::UnknownCommand)
    }
}

} // verus!
