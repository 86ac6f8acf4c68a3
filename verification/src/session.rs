use vstd::prelude::*;

use crate::json::{member, Json, JsonView};
use crate::mmp::{
    call_for, command_of, error_doc, error_json, is_error_body, is_reply, lemma_command_names,
    lemma_error_members, same_text, ServiceCall,
};
use crate::wire::{read_member, reading_view, request_member};

verus! {

/// A character with the Unicode `White_Space` property (what
/// `char::is_whitespace` accepts, and so what `str::trim` removes).
pub open spec fn is_white_space(c: char) -> bool {
    ||| ('\t' <= c && c <= '\r')
    ||| c == ' '
    ||| c == '\u{85}'
    ||| c == '\u{a0}'
    ||| c == '\u{1680}'
    ||| ('\u{2000}' <= c && c <= '\u{200a}')
    ||| c == '\u{2028}'
    ||| c == '\u{2029}'
    ||| c == '\u{202f}'
    ||| c == '\u{205f}'
    ||| c == '\u{3000}'
}

/// A line that holds nothing but white space (empty once trimmed).
pub open spec fn is_blank(line: Seq<char>) -> bool {
    forall|i: int| 0 <= i < line.len() ==> is_white_space(#[trigger] line[i])
}

fn white_space(c: char) -> (b: bool)
    ensures
        b == is_white_space(c),
{
    ('\t' <= c && c <= '\r') || c == ' ' || c == '\u{85}' || c == '\u{a0}' || c == '\u{1680}' || (
    '\u{2000}' <= c && c <= '\u{200a}') || c == '\u{2028}' || c == '\u{2029}' || c == '\u{202f}'
        || c == '\u{205f}' || c == '\u{3000}'
}

/// Whether `line` holds nothing but white space.
pub fn blank(line: &str) -> (b: bool)
    ensures
        b == is_blank(line@),
{
    for c in it: line.chars()
        invariant
            it.seq() == line@,
            forall|i: int| 0 <= i < it.index() ==> is_white_space(#[trigger] line@[i]),
    {
        if !white_space(c) {
            return false;
        }
    }
    true
}

/// What the connection does with one line of input.
#[derive(Debug)]
pub enum Step {
    /// Nothing: the line was blank.
    Skip,
    /// Send this answer; no command runs.
    Reply(Json),
    /// Run the command of this name and send its answer.
    Run(String),
}

/// The model of a [`Step`].
pub enum StepView {
    Skip,
    Reply(JsonView),
    Run(Seq<char>),
}

impl View for Step {
    type V = StepView;

    open spec fn view(&self) -> StepView {
        match self {
            Step::Skip => StepView::Skip,
            Step::Reply(j) => StepView::Reply(j@),
            Step::Run(c) => StepView::Run(c@),
        }
    }
}

/// The answer to a line that is no JSON.
pub open spec fn parse_error_doc(msg: Seq<char>) -> JsonView {
    error_doc("GenericError"@, "JSON parse error: "@ + msg)
}

/// The answer to a command sent before `qmp_capabilities`.
pub open spec fn capabilities_first_doc() -> JsonView {
    error_doc("CommandNotFound"@, "qmp_capabilities required first"@)
}

/// The command name of a request: its `execute` string, or the empty name.
pub open spec fn command_name(execute: Option<Seq<char>>) -> Seq<char> {
    match execute {
        Some(c) => c,
        None => Seq::empty(),
    }
}

/// The member of a request that names its command.
pub open spec fn command_key() -> Seq<char> {
    "execute"@
}

/// One step of a connection on a line that is not blank: from whether
/// `qmp_capabilities` has been accepted and what reading the line's
/// `execute` member gave, to the same after the line, and what is done.
pub open spec fn reading_step(
    negotiated: bool,
    reading: Result<Option<Seq<char>>, Seq<char>>,
) -> (bool, StepView) {
    match reading {
        Err(msg) => (negotiated, StepView::Reply(parse_error_doc(msg))),
        Ok(execute) => {
            let cmd = command_name(execute);
            if !negotiated && cmd != "qmp_capabilities"@ {
                (negotiated, StepView::Reply(capabilities_first_doc()))
            } else {
                (negotiated || cmd == "qmp_capabilities"@, StepView::Run(cmd))
            }
        },
    }
}

/// One step of a connection: blank lines are skipped; any other line is
/// read as JSON at its `execute` member.
pub open spec fn session_step(negotiated: bool, line: Seq<char>) -> (bool, StepView) {
    if is_blank(line) {
        (negotiated, StepView::Skip)
    } else {
        reading_step(negotiated, request_member(line, command_key()))
    }
}

/// Whether the command named `cmd` ends the connection.
pub open spec fn is_final_command(cmd: Seq<char>) -> bool {
    cmd == "quit"@ || cmd == "system_powerdown"@
}

/// The state of one monitor connection.
pub struct Session {
    negotiated: bool,
}

impl Session {
    /// Whether `qmp_capabilities` has been accepted on this connection.
    pub closed spec fn is_negotiated(&self) -> bool {
        self.negotiated
    }

    /// A fresh connection, before `qmp_capabilities`.
    pub fn new() -> (s: Session)
        ensures
            !s.is_negotiated(),
    {
        Session { negotiated: false }
    }

    /// Whether `qmp_capabilities` has been accepted on this connection.
    pub fn negotiated(&self) -> (b: bool)
        ensures
            b == self.is_negotiated(),
    {
        self.negotiated
    }

    /// Takes one line of input (without its line break) and says what to
    /// do with it.
    pub fn receive(&mut self, line: &str) -> (step: Step)
        ensures
            (final(self).is_negotiated(), step@) == session_step(old(self).is_negotiated(), line@),
    {
        if blank(line) {
            return Step::Skip;
        }
        let reading = read_member(line, "execute");
        self.on_reading(reading)
    }

    /// Goes on with a line that is not blank, once it has been read as JSON
    /// at its `execute` member: `Ok` with the string found there (if any),
    /// or `Err` with the parse error's text.
    pub fn on_reading(&mut self, reading: Result<Option<String>, String>) -> (step: Step)
        ensures
            (final(self).is_negotiated(), step@) == reading_step(
                old(self).is_negotiated(),
                reading_view(reading),
            ),
    {
        match reading {
            Err(msg) => {
                let mut desc = String::from_str("JSON parse error: ");
                desc.append(msg.as_str());
                Step::Reply(error_json("GenericError", desc))
            },
            Ok(execute) => {
                let cmd = match execute {
                    Some(c) => c,
                    None => String::new(),
                };
                let is_caps = same_text(cmd.as_str(), "qmp_capabilities");
                if !self.negotiated && !is_caps {
                    Step::Reply(
                        error_json("CommandNotFound", String::from_str("qmp_capabilities required first")),
                    )
                } else {
                    if is_caps {
                        self.negotiated = true;
                    }
                    Step::Run(cmd)
                }
            },
        }
    }
}

/// Whether the command named `cmd` ends the connection: `quit` and its
/// alias `system_powerdown`.
pub fn ends_session(cmd: &str) -> (b: bool)
    ensures
        b == is_final_command(cmd@),
{
    same_text(cmd, "quit") || same_text(cmd, "system_powerdown")
}


/// Once `qmp_capabilities` has been accepted it stays accepted, whatever
/// line comes next.
pub proof fn lemma_negotiation_persists(negotiated: bool, line: Seq<char>)
    requires
        negotiated,
    ensures
        session_step(negotiated, line).0,
{
}

/// Before `qmp_capabilities` has been accepted, no command but
/// `qmp_capabilities` runs, and running it completes the negotiation.
pub proof fn lemma_capabilities_first(line: Seq<char>)
    ensures
        session_step(false, line).1 matches StepView::Run(cmd) ==> cmd == "qmp_capabilities"@
            && session_step(false, line).0,
{
}

/// Once negotiated, every line that is JSON runs the command it names
/// (its `execute` string, or the empty name where it has none).
pub proof fn lemma_negotiated_requests_run(line: Seq<char>, execute: Option<Seq<char>>)
    requires
        !is_blank(line),
        request_member(line, command_key()) == Ok::<Option<Seq<char>>, Seq<char>>(execute),
    ensures
        session_step(true, line) == (true, StepView::Run(command_name(execute))),
{
}

/// A line that runs no command leaves the connection's state as it was.
pub proof fn lemma_answered_lines_keep_state(negotiated: bool, line: Seq<char>)
    ensures
        !(session_step(negotiated, line).1 is Run) ==> session_step(negotiated, line).0
            == negotiated,
{
}

/// Every answer the connection gives without running a command is a
/// protocol error answer.
pub proof fn lemma_session_replies_are_errors(negotiated: bool, line: Seq<char>)
    ensures
        session_step(negotiated, line).1 matches StepView::Reply(doc) ==> is_reply(doc)
            && is_error_body(doc->Obj_0[0].0, doc->Obj_0[0].1),
{
}

/// Blank lines are skipped and change nothing.
pub proof fn lemma_blank_lines_skipped(negotiated: bool, line: Seq<char>)
    requires
        is_blank(line),
    ensures
        session_step(negotiated, line) == (negotiated, StepView::Skip),
{
}


/// What came of one accept on the monitor's listening socket.
#[derive(Debug)]
pub enum Accepted {
    /// A connection was served; whether it ended with `quit` or
    /// `system_powerdown`.
    Served(bool),
    /// The accept failed; whether the service has been asked to quit.
    Failed(bool),
}

/// Whether the server stops accepting after `a`: once a connection ended
/// with a quit command, or once an accept failed while quit is requested.
pub open spec fn stops_serving(a: Accepted) -> bool {
    match a {
        Accepted::Served(ended_by_quit) => ended_by_quit,
        Accepted::Failed(quit_requested) => quit_requested,
    }
}

/// Whether the server stops accepting after `a`.
pub fn server_stops(a: &Accepted) -> (b: bool)
    ensures
        b == stops_serving(*a),
{
    match a {
        Accepted::Served(ended_by_quit) => *ended_by_quit,
        Accepted::Failed(quit_requested) => *quit_requested,
    }
}


/// A line that is not blank and is no JSON is always answered, before and
/// after `qmp_capabilities` alike, with the error class `GenericError` and
/// the description "JSON parse error: " followed by the parser's message;
/// the connection's state stays as it was.
pub proof fn lemma_parse_errors_answered(negotiated: bool, line: Seq<char>, msg: Seq<char>)
    requires
        !is_blank(line),
        request_member(line, "execute"@) == Err::<Option<Seq<char>>, Seq<char>>(msg),
    ensures
        session_step(negotiated, line).0 == negotiated,
        session_step(negotiated, line).1 is Reply,
        member(member(session_step(negotiated, line).1->Reply_0, "error"@), "class"@)
            == JsonView::Str("GenericError"@),
        member(member(session_step(negotiated, line).1->Reply_0, "error"@), "desc"@)
            == JsonView::Str("JSON parse error: "@ + msg),
{
    lemma_error_members("GenericError"@, "JSON parse error: "@ + msg);
}

/// The same for a reading already made: a parse error is answered in
/// every state.
pub proof fn lemma_parse_error_readings_answered(negotiated: bool, msg: Seq<char>)
    ensures
        reading_step(negotiated, Err(msg)).0 == negotiated,
        reading_step(negotiated, Err(msg)).1 is Reply,
        member(member(reading_step(negotiated, Err(msg)).1->Reply_0, "error"@), "desc"@)
            == JsonView::Str("JSON parse error: "@ + msg),
{
    lemma_error_members("GenericError"@, "JSON parse error: "@ + msg);
}

/// A command ends the connection exactly when it asks the service to quit:
/// `quit` and its alias `system_powerdown`, and no other command.
pub proof fn lemma_final_commands_are_quit(cmd: Seq<char>)
    ensures
        is_final_command(cmd) <==> call_for(command_of(cmd)) == ServiceCall::Quit,
{
    lemma_command_names();
}

} // verus!
