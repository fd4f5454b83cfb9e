//! What every action answers, what an external program printed, and how a
//! PowerShell script is launched.

use vstd::prelude::*;
use crate::json::{JsonValue, json_text, parse_json};
use crate::text::{trim, trim_end, trim_string, trim_end_string, views};

verus! {

/// The answer of every action the interface can start.
pub struct ActionResult {
    pub ok: bool,
    pub dry_run: bool,
    pub message: String,
    pub output: String,
    pub details: Option<JsonValue>,
}

impl ActionResult {
    /// A successful action with this message.
    pub fn ok(message: String) -> (r: Self)
        ensures
            r.ok,
            !r.dry_run,
            r.message@ == message@,
            r.output@.len() == 0,
            r.details is None,
    {
        ActionResult { ok: true, dry_run: false, message, output: String::new(), details: None }
    }

    /// A simulation: nothing was done, the message says what would be.
    pub fn dry(message: String) -> (r: Self)
        ensures
            r.ok,
            r.dry_run,
            r.message@ == message@,
            r.output@.len() == 0,
            r.details is None,
    {
        ActionResult { ok: true, dry_run: true, message, output: String::new(), details: None }
    }

    /// A failed action with its message and what the tool printed.
    pub fn fail(message: String, output: String) -> (r: Self)
        ensures
            !r.ok,
            !r.dry_run,
            r.message@ == message@,
            r.output@ == output@,
            r.details is None,
    {
        ActionResult { ok: false, dry_run: false, message, output, details: None }
    }

    /// The same result with `output` in place of its output.
    pub fn with_output(self, output: String) -> (r: Self)
        ensures
            r.ok == self.ok,
            r.dry_run == self.dry_run,
            r.message == self.message,
            r.output@ == output@,
            r.details == self.details,
    {
        ActionResult { output, ..self }
    }

    /// The same result carrying `details`.
    pub fn with_details(self, details: JsonValue) -> (r: Self)
        ensures
            r.ok == self.ok,
            r.dry_run == self.dry_run,
            r.message == self.message,
            r.output == self.output,
            r.details == Some(details),
    {
        ActionResult { details: Some(details), ..self }
    }
}

/// What an external program did: whether it exited with success, what it printed,
/// and its exit code when it had one.
pub struct Output {
    pub success: bool,
    pub stdout: String,
    pub stderr: String,
    pub code: Option<i32>,
}

/// Standard output without trailing whitespace, then, when standard error holds
/// more than whitespace, a line break (only after a non-empty first part) and
/// standard error without trailing whitespace.
pub open spec fn combined_text(stdout: Seq<char>, stderr: Seq<char>) -> Seq<char> {
    let first = trim_end(stdout);
    if trim(stderr).len() == 0 {
        first
    } else if first.len() == 0 {
        trim_end(stderr)
    } else {
        first + seq!['\n'] + trim_end(stderr)
    }
}

impl Output {
    /// Standard output and standard error together, for showing and logging.
    pub fn combined(&self) -> (r: String)
        ensures
            r@ == combined_text(self.stdout@, self.stderr@),
    {
        let mut s = trim_end_string(self.stdout.as_str());
        let err_trimmed = trim_string(self.stderr.as_str());
        if err_trimmed.as_str().unicode_len() > 0 {
            if s.as_str().unicode_len() > 0 {
                s.append("\n");
                proof { reveal_strlit("\n"); }
            }
            let tail = trim_end_string(self.stderr.as_str());
            s.append(tail.as_str());
        }
        s
    }
}

/// `r` is what an action answers after running a program: success gives `ok_msg`, a
/// failing exit gives `fail_msg` with what the program printed, and a program that
/// could not start gives `err_msg` with the error's text.
pub open spec fn answers(
    r: ActionResult,
    out: Result<Output, String>,
    ok_msg: Seq<char>,
    fail_msg: Seq<char>,
    err_msg: Seq<char>,
) -> bool {
    &&& !r.dry_run
    &&& r.details is None
    &&& match out {
        Ok(o) => if o.success {
            r.ok && r.message@ == ok_msg && r.output@.len() == 0
        } else {
            !r.ok && r.message@ == fail_msg && r.output@ == combined_text(o.stdout@, o.stderr@)
        },
        Err(e) => !r.ok && r.message@ == err_msg && r.output@ == e@,
    }
}

/// The answer of an action from how its program ran (see `answers`).
pub fn answer(out: Result<Output, String>, ok_msg: String, fail_msg: &str, err_msg: &str) -> (r:
    ActionResult)
    ensures
        answers(r, out, ok_msg@, fail_msg@, err_msg@),
{
    match out {
        Ok(o) => if o.success {
            ActionResult::ok(ok_msg)
        } else {
            ActionResult::fail(String::from_str(fail_msg), o.combined())
        },
        Err(e) => ActionResult::fail(String::from_str(err_msg), e),
    }
}

/// A program to start with its arguments.
pub struct Invocation {
    pub program: String,
    pub args: Vec<String>,
}

/// The next thing an action does: it is finished with a result, or a program has
/// to run and the action goes on with what it did.
pub enum Step {
    Done(ActionResult),
    Run(Invocation),
}

/// The line that precedes every script: UTF-8 output and no progress bars.
pub open spec fn ps_preamble() -> Seq<char> {
    "[Console]::OutputEncoding = [System.Text.Encoding]::UTF8; $ProgressPreference='SilentlyContinue'; "@
}

/// How a script is handed to PowerShell.
pub open spec fn powershell_args_spec(script: Seq<char>) -> Seq<Seq<char>> {
    seq![
        "-NoProfile"@,
        "-NonInteractive"@,
        "-ExecutionPolicy"@,
        "Bypass"@,
        "-Command"@,
        ps_preamble() + script,
    ]
}

/// The invocation that runs `script` in PowerShell without a profile, non-interactively,
/// with UTF-8 output.
pub fn powershell(script: &str) -> (r: Invocation)
    ensures
        r.program@ == "powershell"@,
        views(r.args@) == powershell_args_spec(script@),
{
    let mut wrapped = String::from_str(
        "[Console]::OutputEncoding = [System.Text.Encoding]::UTF8; $ProgressPreference='SilentlyContinue'; ",
    );
    wrapped.append(script);
    let mut args: Vec<String> = Vec::new();
    args.push(String::from_str("-NoProfile"));
    args.push(String::from_str("-NonInteractive"));
    args.push(String::from_str("-ExecutionPolicy"));
    args.push(String::from_str("Bypass"));
    args.push(String::from_str("-Command"));
    args.push(wrapped);
    assert(views(args@) =~= powershell_args_spec(script@));
    Invocation { program: String::from_str("powershell"), args }
}

/// Whether `r` is the list that the JSON value `v` stands for: a list as it is, `null`
/// as the empty list, any other value as a list of that value alone.
pub open spec fn listed(v: JsonValue, r: JsonValue) -> bool {
    match v {
        JsonValue::Array(_) => r == v,
        JsonValue::Null => r matches JsonValue::Array(b) && b@.len() == 0,
        _ => r matches JsonValue::Array(b) && b@ == seq![v],
    }
}

/// The JSON a script answered, from how it ran: the JSON read from its trimmed
/// standard output, always as a list (PowerShell prints a single object without the
/// list around it); nothing printed by a successful run is an empty list; a failed
/// run, or text that is not JSON, is `null`.
pub fn powershell_json(out: Result<Output, String>) -> (r: JsonValue)
    ensures
        match out {
            Ok(o) => if !o.success {
                r == JsonValue::Null
            } else if trim(o.stdout@).len() == 0 {
                r matches JsonValue::Array(a) && a@.len() == 0
            } else {
                match json_text(trim(o.stdout@)) {
                    Some(v) => listed(v, r),
                    None => r == JsonValue::Null,
                }
            },
            Err(_) => r == JsonValue::Null,
        },
{
    match out {
        Ok(o) => {
            if !o.success {
                return JsonValue::Null;
            }
            let trimmed = trim_string(o.stdout.as_str());
            if trimmed.as_str().unicode_len() == 0 {
                JsonValue::Array(Vec::new())
            } else {
                match parse_json(trimmed.as_str()) {
                    Some(v) => match v {
                        JsonValue::Array(a) => JsonValue::Array(a),
                        JsonValue::Null => JsonValue::Array(Vec::new()),
                        other => {
                            let mut a: Vec<JsonValue> = Vec::new();
                            a.push(other);
                            assert(a@ =~= seq![v]);
                            JsonValue::Array(a)
                        },
                    },
                    None => JsonValue::Null,
                }
            }
        },
        Err(_) => JsonValue::Null,
    }
}

} // verus!
