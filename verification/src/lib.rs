//! Runs a command once for every item of an input stream.
//!
//! The input is cut into items at the matches of a delimiter pattern
//! ([`iter`], [`winiter`], with [`fence`] for the pattern and [`stream`] for
//! what holds of whole runs). Each item is put into the arguments of a
//! command template ([`exec`], [`winexec`], with [`shell`] for the quoting
//! of a shell line), and the end of each command decides how the run goes on
//! ([`command`], [`err`], [`driver`]). The options of a run come from the
//! command line ([`opt`]).
//!
//! Nothing here reads input or starts a process: the functions say what to
//! read or to run, and take what came of it.

pub mod command;
pub mod driver;
pub mod err;
pub mod exec;
pub mod fence;
pub mod iter;
pub mod opt;
pub mod shell;
pub mod stream;
pub mod text;
pub mod winexec;
pub mod winiter;
