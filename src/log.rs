//! Settings of the logging sink.
use vstd::prelude::*;

verus! {

/// How much the log records.
#[derive(Clone, Copy, Debug, PartialEq, Eq, Structural)]
pub enum LogLevel {
    Info,
    Debug,
    Trace,
}

/// Builder of the logging settings: a verbosity and the sinks to write to.
#[derive(Clone, Copy, Debug, PartialEq, Eq, Structural)]
pub struct LogBuilder {
    pub verbosity: u8,
    pub stdout: bool,
    pub file: bool,
}

impl Default for LogBuilder {
    fn default() -> (r: LogBuilder)
        ensures
            r.verbosity == 0 && !r.stdout && !r.file,
    {
        LogBuilder { verbosity: 0, stdout: false, file: false }
    }
}

impl LogBuilder {
    /// Quiet settings: verbosity zero, no sink.
    pub fn new() -> (r: LogBuilder)
        ensures
            r.verbosity == 0 && !r.stdout && !r.file,
    {
        LogBuilder { verbosity: 0, stdout: false, file: false }
    }

    /// Settings with the given verbosity and no sink.
    pub fn with_verbosity(verbosity: u8) -> (r: LogBuilder)
        ensures
            r.verbosity == verbosity && !r.stdout && !r.file,
    {
        LogBuilder { verbosity, stdout: false, file: false }
    }

    /// Sets the verbosity.
    pub fn set_verbosity(self, verbosity: u8) -> (r: LogBuilder)
        ensures
            r == (LogBuilder { verbosity, ..self }),
    {
        LogBuilder { verbosity, ..self }
    }

    /// Turns logging to standard output on or off.
    pub fn set_stdout(self, stdout: bool) -> (r: LogBuilder)
        ensures
            r == (LogBuilder { stdout, ..self }),
    {
        LogBuilder { stdout, ..self }
    }

    /// Turns logging to the log file on or off.
    pub fn set_file(self, file: bool) -> (r: LogBuilder)
        ensures
            r == (LogBuilder { file, ..self }),
    {
        LogBuilder { file, ..self }
    }

    /// The verbosity.
    pub fn get_verbosity(&self) -> (r: u8)
        ensures
            r == self.verbosity,
    {
        self.verbosity
    }

    /// Whether the log goes to standard output.
    pub fn get_stdout(&self) -> (r: bool)
        ensures
            r == self.stdout,
    {
        self.stdout
    }

    /// Whether the log goes to the log file.
    pub fn get_file(&self) -> (r: bool)
        ensures
            r == self.file,
    {
        self.file
    }

    /// The level the verbosity stands for: 0 is `Info`, 1 is `Debug`, more is `Trace`.
    pub fn level(&self) -> (r: LogLevel)
        ensures
            self.verbosity == 0 ==> r == LogLevel::Info,
            self.verbosity == 1 ==> r == LogLevel::Debug,
            self.verbosity > 1 ==> r == LogLevel::Trace,
    {
        if self.verbosity == 0 {
            LogLevel::Info
        } else if self.verbosity == 1 {
            LogLevel::Debug
        } else {
            LogLevel::Trace
        }
    }
}

} // verus!
