//! Outcomes of external commands (`kill`, `pkexec`, `systemctl`) and what
//! the task manager makes of them. The commands are run by the caller; this
//! module decides which arguments they get and reads their results.
use vstd::prelude::*;

use crate::num;
use crate::text;
use crate::text::{chars_of, push_str, string_of};

verus! {

/// How an external command ended.
pub enum CommandOutcome {
    /// The command ran; `success` tells whether it exited with status zero,
    /// `stdout` and `stderr` are its output read as UTF-8 (lossily).
    Ran { success: bool, stdout: String, stderr: String },
    /// The command could not be started; `error` is the text of the error.
    NotStarted { error: String },
}

/// The signal argument of `kill`: `-9` (SIGKILL) when forceful, else `-15`
/// (SIGTERM).
pub fn kill_signal(forceful: bool) -> (r: &'static str)
    ensures
        r@ == (if forceful {
            "-9"@
        } else {
            "-15"@
        }),
{
    if forceful {
        "-9"
    } else {
        "-15"
    }
}

pub open spec fn kill_result_spec(outcome: CommandOutcome) -> Result<(), Seq<char>> {
    match outcome {
        CommandOutcome::Ran { success, stderr, .. } => if success {
            Ok(())
        } else if stderr@.len() == 0 {
            Err("Unknown error (perhaps permission denied)"@)
        } else {
            Err(stderr@)
        },
        CommandOutcome::NotStarted { error } => Err(error@),
    }
}

pub open spec fn unit_result_chars(r: Result<(), String>) -> Result<(), Seq<char>> {
    match r {
        Ok(_) => Ok(()),
        Err(e) => Err(e@),
    }
}

/// Result of `kill <signal> <pid>`: success, or the error output (a fixed
/// message when it is empty), or the error that kept it from starting.
pub fn kill_result(outcome: CommandOutcome) -> (r: Result<(), String>)
    ensures
        unit_result_chars(r) == kill_result_spec(outcome),
{
    match outcome {
        CommandOutcome::Ran { success, stdout: _, stderr } => {
            if success {
                Ok(())
            } else if chars_of(stderr.as_str()).len() == 0 {
                Err(String::from_str("Unknown error (perhaps permission denied)"))
            } else {
                Err(stderr)
            }
        },
        CommandOutcome::NotStarted { error } => Err(error),
    }
}

/// `s` is empty once trimmed.
pub fn blank(s: &str) -> (r: bool)
    ensures
        r == (text::trim(s@).len() == 0),
{
    let v = chars_of(s);
    text::trim_chars(&v).len() == 0
}

pub open spec fn admin_kill_result_spec(outcome: CommandOutcome) -> Result<(), Seq<char>> {
    match outcome {
        CommandOutcome::Ran { success, stderr, .. } => if success {
            Ok(())
        } else if text::trim(stderr@).len() == 0 {
            Err("Yetkilendirme iptal edildi veya başarısız oldu (Authentication cancelled/failed)"@)
        } else {
            Err(stderr@)
        },
        CommandOutcome::NotStarted { error } => Err(error@),
    }
}

/// Result of `pkexec kill -9 <pid>`: success, or the error output (a fixed
/// message when it is blank, as when the authentication was cancelled), or
/// the error that kept it from starting.
pub fn admin_kill_result(outcome: CommandOutcome) -> (r: Result<(), String>)
    ensures
        unit_result_chars(r) == admin_kill_result_spec(outcome),
{
    match outcome {
        CommandOutcome::Ran { success, stdout: _, stderr } => {
            if success {
                Ok(())
            } else if blank(stderr.as_str()) {
                Err(
                    String::from_str(
                        "Yetkilendirme iptal edildi veya başarısız oldu (Authentication cancelled/failed)",
                    ),
                )
            } else {
                Err(stderr)
            }
        },
        CommandOutcome::NotStarted { error } => Err(error),
    }
}

pub open spec fn result_chars(r: Result<String, String>) -> Result<Seq<char>, Seq<char>> {
    match r {
        Ok(m) => Ok(m@),
        Err(e) => Err(e@),
    }
}

pub open spec fn admin_kill_report_spec(name: Seq<char>, pid: u32, outcome: CommandOutcome) -> Result<
    Seq<char>,
    Seq<char>,
> {
    let who = name + " (PID "@ + num::dec(pid as nat) + ")"@;
    match outcome {
        CommandOutcome::Ran { success, stderr, .. } => if success {
            Ok(who + " yönetici ayrıcalıklarıyla başarıyla zorla kapatıldı."@)
        } else {
            let err = if text::trim(stderr@).len() == 0 {
                "Yetkilendirme iptal edildi veya başarısız oldu."@
            } else {
                stderr@
            };
            Err(who + " yönetici olarak kapatılamadı: "@ + err)
        },
        CommandOutcome::NotStarted { error } => Err("pkexec çalıştırılamadı: "@ + error@),
    }
}

/// The message that the processes tab shows after forcing process `name`
/// (`pid`) to close with administrator rights.
pub fn admin_kill_report(name: &str, pid: u32, outcome: CommandOutcome) -> (r: Result<
    String,
    String,
>)
    ensures
        result_chars(r) == admin_kill_report_spec(name@, pid, outcome),
{
    let mut who: Vec<char> = Vec::new();
    push_str(&mut who, name);
    push_str(&mut who, " (PID ");
    num::push_dec(&mut who, pid as u128);
    push_str(&mut who, ")");
    match outcome {
        CommandOutcome::Ran { success, stdout: _, stderr } => {
            if success {
                push_str(&mut who, " yönetici ayrıcalıklarıyla başarıyla zorla kapatıldı.");
                Ok(string_of(&who))
            } else {
                push_str(&mut who, " yönetici olarak kapatılamadı: ");
                if blank(stderr.as_str()) {
                    push_str(&mut who, "Yetkilendirme iptal edildi veya başarısız oldu.");
                } else {
                    push_str(&mut who, stderr.as_str());
                }
                Err(string_of(&who))
            }
        },
        CommandOutcome::NotStarted { error } => {
            let mut v: Vec<char> = Vec::new();
            push_str(&mut v, "pkexec çalıştırılamadı: ");
            push_str(&mut v, error.as_str());
            Err(string_of(&v))
        },
    }
}

} // verus!
