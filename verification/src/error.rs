//! Errors for a command-line application, with a two-level severity model
//! and a report-once lifecycle: a fatal error is displayed the first time it
//! is handled and then propagates as a failure value; a warning is displayed
//! on every handling and never blocks the caller.

use std::io::Write;
use vstd::prelude::*;

verus! {

/// Levels of severity for a `CliError`.
#[derive(Clone, Copy, Debug, PartialEq, Eq, Structural)]
pub enum ErrorLevel {
    /// Fatal error: the application cannot continue.
    Error,
    /// Warning: execution can continue, although unexpected behavior may
    /// follow.
    Warning,
}

/// Error for a CLI application: a message, a caller-defined numeric code,
/// a severity, and a flag recording whether the error has been shown to the
/// user yet.
#[derive(Debug)]
pub struct CliError {
    /// Error message.
    pub error: String,
    /// Error code.
    pub error_code: i32,
    /// Error level.
    pub error_level: ErrorLevel,
    /// Has the error been reported to the user yet? Set by `handle` on a
    /// fatal error, and by nothing else in this library.
    pub reported: bool,
}

impl Clone for CliError {
    /// Copies every field, the report flag included.
    fn clone(&self) -> (r: Self)
        ensures
            r == *self,
    {
        CliError {
            error: self.error.clone(),
            error_code: self.error_code,
            error_level: self.error_level,
            reported: self.reported,
        }
    }
}

/// The state of an error after one call to `handle`: a fatal error is
/// marked reported, a warning is left unchanged.
pub open spec fn handle_post(e: CliError) -> CliError {
    match e.error_level {
        ErrorLevel::Error => CliError { reported: true, ..e },
        ErrorLevel::Warning => e,
    }
}

/// `handle` writes its line to the error stream exactly when this holds of
/// its pre-state.
pub open spec fn handle_emits(e: CliError) -> bool {
    !e.reported
}

/// Relies on `std::io::Stderr::write_fmt`, reached through the `writeln`
/// macro: writes one line to the process error stream.
#[verifier::external_body]
fn write_error_line(line: &str) {
    let _ = writeln!(std::io::stderr(), "{}", line);
}

impl CliError {
    /// Generate a new `CliError` object.
    pub fn new(msg: &str, error_code: i32, error_level: ErrorLevel) -> (r: CliError)
        ensures
            r.error@ == msg@,
            r.error_code == error_code,
            r.error_level == error_level,
            !r.reported,
    {
        CliError { error: msg.to_owned(), error_code, error_level, reported: false }
    }

    /// Generate a new `Err(CliError)` with level `ErrorLevel::Warning`.
    pub fn warn<T>(msg: &str, error_code: i32) -> (r: Result<T, CliError>)
        ensures
            r matches Err(e) && e.error@ == msg@ && e.error_code == error_code
                && e.error_level is Warning && !e.reported,
    {
        Err(CliError::new(msg, error_code, ErrorLevel::Warning))
    }

    /// Generate a new `Err(CliError)` with level `ErrorLevel::Error`.
    pub fn error<T>(msg: &str, error_code: i32) -> (r: Result<T, CliError>)
        ensures
            r matches Err(e) && e.error@ == msg@ && e.error_code == error_code
                && e.error_level is Error && !e.reported,
    {
        Err(CliError::new(msg, error_code, ErrorLevel::Error))
    }

    /// Handles the error: a fatal error is displayed if it has not been
    /// displayed before, marked reported, and passed up the call stack as a
    /// failure; a warning is displayed whenever its flag is clear (which it
    /// always is, since only the fatal branch sets it) and never propagates.
    /// The display line is written exactly when `handle_emits` holds of the
    /// state before the call.
    pub fn handle(&mut self) -> (r: Result<(), CliError>)
        ensures
            *final(self) == handle_post(*old(self)),
            final(self).error == old(self).error,
            final(self).error_code == old(self).error_code,
            final(self).error_level == old(self).error_level,
            final(self).reported == (old(self).reported
                || old(self).error_level is Error),
            r is Err <==> old(self).error_level is Error,
            r matches Err(e) ==> e == *final(self),
    {
        match self.error_level {
            ErrorLevel::Error => {
                if !self.reported {
                    let mut line = "cli_utils has encountered an error: '".to_owned();
                    line.append(self.error.as_str());
                    line.append("'");
                    write_error_line(line.as_str());
                    self.reported = true;
                }
                Err(self.clone())
            },
            ErrorLevel::Warning => {
                if !self.reported {
                    let mut line = "cli_utils has encountered a warning: '".to_owned();
                    line.append(self.error.as_str());
                    line.append("'");
                    write_error_line(line.as_str());
                }
                Ok(())
            },
        }
    }

    /// Dismiss an error of a given error code: succeeds exactly when this
    /// error's code equals the given one, and otherwise keeps the error
    /// alive as a failure.
    pub fn dismiss_by_code(&self, error_code: i32) -> (r: Result<(), CliError>)
        ensures
            r is Ok <==> self.error_code == error_code,
            r matches Err(e) ==> e == *self,
    {
        if self.error_code == error_code {
            Ok(())
        } else {
            Err(self.clone())
        }
    }

    /// Dismiss the error if its code is in a vector of error codes:
    /// succeeds exactly when this error's code is a member.
    pub fn dismiss_by_codes(&self, error_codes: Vec<i32>) -> (r: Result<(), CliError>)
        ensures
            r is Ok <==> error_codes@.contains(self.error_code),
            r matches Err(e) ==> e == *self,
    {
        let mut i: usize = 0;
        while i < error_codes.len()
            invariant
                i <= error_codes.len(),
                forall|j: int| 0 <= j < i ==> error_codes@[j] != self.error_code,
            decreases error_codes.len() - i,
        {
            if error_codes[i] == self.error_code {
                return Ok(());
            }
            i += 1;
        }
        Err(self.clone())
    }

    /// Dismisses the error unconditionally (a clearer syntax than just
    /// ignoring it and returning `Ok(())`).
    pub fn dismiss(&self) -> (r: Result<(), CliError>)
        ensures
            r is Ok,
    {
        Ok(())
    }
}

/// Law: a fatal error is displayed exactly once. The first `handle` emits
/// the line and marks the error reported, so a second `handle` on the same
/// instance does not emit; the instance stays fatal, so by `handle`'s
/// contract every call on it keeps returning a failure.
pub proof fn lemma_fatal_reported_once(e: CliError)
    requires
        e.error_level is Error,
        !e.reported,
    ensures
        handle_emits(e),
        !handle_emits(handle_post(e)),
        handle_post(e).error_level is Error,
        handle_post(handle_post(e)) == handle_post(e),
{
}

/// Law: a warning is displayed every time it is handled: `handle` leaves a
/// warning unchanged, so its flag stays clear and a second call emits
/// again; by `handle`'s contract every call on it returns success.
pub proof fn lemma_warning_reported_each_time(e: CliError)
    requires
        e.error_level is Warning,
        !e.reported,
    ensures
        handle_emits(e),
        handle_post(e) == e,
        handle_emits(handle_post(e)),
{
}

} // verus!
