//! What the process finds around it.

use crate::decimal::{decimal, decimal_within, parse_u16};
use crate::plotting::GnuplotVersion;
use crate::report::OutputDirectory;
use std::path::PathBuf;
use vstd::prelude::*;

verus! {

/// What the process finds around it.
pub struct Environment {
    /// Is debug output asked for (by the variable `CRITERION_DEBUG`)?
    pub debug_enabled: bool,
    /// The version of gnuplot
    pub gnuplot: GnuplotVersion,
    /// Is the process connected to a runner, which does the reporting?
    pub connected: bool,
    /// The variable `CRITERION_HOME`
    pub criterion_home: Option<PathBuf>,
    /// The variable `CARGO_TARGET_DIR`
    pub cargo_target_dir: Option<PathBuf>,
}

/// Where the results are stored unless another place is asked for, in descending order of
/// preference: the value of `CRITERION_HOME`, `criterion` within that of `CARGO_TARGET_DIR`, and
/// `target/criterion`.
pub open spec fn home_directory(
    criterion_home: Option<PathBuf>,
    cargo_target_dir: Option<PathBuf>,
) -> OutputDirectory {
    match (criterion_home, cargo_target_dir) {
        (Some(home), _) => OutputDirectory::At(home),
        (None, Some(target)) => OutputDirectory::Within(target, "criterion"),
        (None, None) => OutputDirectory::Relative("target/criterion"),
    }
}

/// Where the results are stored unless another place is asked for.
pub fn choose_home_directory(
    criterion_home: Option<PathBuf>,
    cargo_target_dir: Option<PathBuf>,
) -> (directory: OutputDirectory)
    ensures
        directory == home_directory(criterion_home, cargo_target_dir),
{
    match criterion_home {
        Some(home) => OutputDirectory::At(home),
        None => match cargo_target_dir {
            Some(target) => OutputDirectory::Within(target, "criterion"),
            None => OutputDirectory::Relative("target/criterion"),
        },
    }
}

/// The port of the runner, from the variable `CARGO_CRITERION_PORT`. There is none where the
/// variable is not set or is no port number.
pub fn runner_port(variable: Option<&str>) -> (port: Option<u16>)
    ensures
        port matches Some(port) ==> variable is Some && decimal_within(
            variable.unwrap()@,
            u16::MAX as nat,
        ) == Some(port as nat),
        port is None ==> variable is None || decimal_within(
            variable.unwrap()@,
            u16::MAX as nat,
        ) is None,
{
    match variable {
        Some(text) => parse_u16(text),
        None => None,
    }
}

/// The value of `CRITERION_HOME` comes first, then that of `CARGO_TARGET_DIR` with `criterion`
/// within it, and `target/criterion` only where neither is set.
pub proof fn home_comes_before_target(
    criterion_home: Option<PathBuf>,
    cargo_target_dir: Option<PathBuf>,
    directory: OutputDirectory,
)
    requires
        call_ensures(choose_home_directory, (criterion_home, cargo_target_dir), directory),
    ensures
        criterion_home matches Some(home) ==> directory == OutputDirectory::At(home),
        criterion_home is None && cargo_target_dir is Some ==> directory == OutputDirectory::Within(
            cargo_target_dir.unwrap(),
            "criterion",
        ),
        criterion_home is None && cargo_target_dir is None ==> directory
            == OutputDirectory::Relative("target/criterion"),
{
}

/// There is a port exactly where the variable is set to a number that fits into sixteen bits, and
/// then it is that number.
pub proof fn ports_are_the_numbers_that_are_set(variable: Option<&str>, port: Option<u16>)
    requires
        call_ensures(runner_port, (variable,), port),
    ensures
        port is Some ==> variable is Some && decimal(variable.unwrap()@) == Some(
            port.unwrap() as nat,
        ),
        port is None ==> variable is None || decimal(variable.unwrap()@) is None || decimal(
            variable.unwrap()@,
        ).unwrap() > 65_535,
{
}

} // verus!
