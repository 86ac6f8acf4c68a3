use vstd::prelude::*;

use crate::json::{array, member, member_of, object, push_member, text, Json, JsonView};
use crate::version::{decimal, decimal_text, parse_pkg_version, version_triple};
use crate::wire::{encode, is_one_line, json_text};

verus! {

/// The commands of the monitor protocol.
#[derive(Clone, Copy, Debug, PartialEq, Eq, Structural)]
pub enum Command {
    Capabilities,
    QueryVersion,
    QueryStatus,
    Stop,
    Cont,
    Quit,
    SystemPowerdown,
    QueryCpusFast,
    SystemReset,
    Unknown,
}

/// The command that the name `cmd` stands for.
pub open spec fn command_of(cmd: Seq<char>) -> Command {
    if cmd == "qmp_capabilities"@ {
        Command::Capabilities
    } else if cmd == "query-version"@ {
        Command::QueryVersion
    } else if cmd == "query-status"@ {
        Command::QueryStatus
    } else if cmd == "stop"@ {
        Command::Stop
    } else if cmd == "cont"@ {
        Command::Cont
    } else if cmd == "quit"@ {
        Command::Quit
    } else if cmd == "system_powerdown"@ {
        Command::SystemPowerdown
    } else if cmd == "query-cpus-fast"@ {
        Command::QueryCpusFast
    } else if cmd == "system_reset"@ {
        Command::SystemReset
    } else {
        Command::Unknown
    }
}

/// Whether two strings hold the same characters.
pub(crate) fn same_text(a: &str, b: &str) -> (r: bool)
    ensures
        r == (a@ == b@),
{
    let x = String::from_str(a);
    let y = String::from_str(b);
    x == y
}

/// The command named `cmd`.
pub fn command_kind(cmd: &str) -> (c: Command)
    ensures
        c == command_of(cmd@),
{
    if same_text(cmd, "qmp_capabilities") {
        Command::Capabilities
    } else if same_text(cmd, "query-version") {
        Command::QueryVersion
    } else if same_text(cmd, "query-status") {
        Command::QueryStatus
    } else if same_text(cmd, "stop") {
        Command::Stop
    } else if same_text(cmd, "cont") {
        Command::Cont
    } else if same_text(cmd, "quit") {
        Command::Quit
    } else if same_text(cmd, "system_powerdown") {
        Command::SystemPowerdown
    } else if same_text(cmd, "query-cpus-fast") {
        Command::QueryCpusFast
    } else if same_text(cmd, "system_reset") {
        Command::SystemReset
    } else {
        Command::Unknown
    }
}

/// What a command asks of the machine's monitor service.
#[derive(Clone, Copy, Debug, PartialEq, Eq, Structural)]
pub enum ServiceCall {
    Nothing,
    QueryStatus,
    Stop,
    Cont,
    Quit,
    QueryCpus,
}

/// The service call of each command; `system_powerdown` asks for the
/// same shutdown as `quit`.
pub open spec fn call_for(c: Command) -> ServiceCall {
    match c {
        Command::QueryStatus => ServiceCall::QueryStatus,
        Command::Stop => ServiceCall::Stop,
        Command::Cont => ServiceCall::Cont,
        Command::Quit => ServiceCall::Quit,
        Command::SystemPowerdown => ServiceCall::Quit,
        Command::QueryCpusFast => ServiceCall::QueryCpus,
        _ => ServiceCall::Nothing,
    }
}

/// The service call that the command named `cmd` needs.
pub fn service_call(cmd: &str) -> (s: ServiceCall)
    ensures
        s == call_for(command_of(cmd@)),
{
    match command_kind(cmd) {
        Command::QueryStatus => ServiceCall::QueryStatus,
        Command::Stop => ServiceCall::Stop,
        Command::Cont => ServiceCall::Cont,
        Command::Quit => ServiceCall::Quit,
        Command::SystemPowerdown => ServiceCall::Quit,
        Command::QueryCpusFast => ServiceCall::QueryCpus,
        _ => ServiceCall::Nothing,
    }
}

/// One virtual CPU as the service reports it.
#[derive(Debug)]
pub struct CpuInfo {
    pub cpu_index: u64,
    pub halted: bool,
    pub arch: String,
}

/// What the service answered to a call.
#[derive(Debug)]
pub enum Outcome {
    /// The call returns nothing (or no call was made).
    Done,
    /// Whether the machine runs, for `QueryStatus`.
    Running(bool),
    /// The CPUs, for `QueryCpus`.
    Cpus(Vec<CpuInfo>),
}

/// Whether `o` is what the service answers to `call`.
pub open spec fn outcome_fits(call: ServiceCall, o: Outcome) -> bool {
    match call {
        ServiceCall::QueryStatus => o is Running,
        ServiceCall::QueryCpus => o is Cpus,
        _ => o is Done,
    }
}

/// Tells whether `o` is what the service answers to `call`.
pub fn outcome_matches(call: ServiceCall, o: &Outcome) -> (b: bool)
    ensures
        b == outcome_fits(call, *o),
{
    match call {
        ServiceCall::QueryStatus => matches!(o, Outcome::Running(_)),
        ServiceCall::QueryCpus => matches!(o, Outcome::Cpus(_)),
        _ => matches!(o, Outcome::Done),
    }
}

/// `{"return": payload}`.
pub open spec fn return_doc(payload: JsonView) -> JsonView {
    JsonView::Obj(seq![("return"@, payload)])
}

/// `{"error": {"class": class, "desc": desc}}`.
pub open spec fn error_doc(class: Seq<char>, desc: Seq<char>) -> JsonView {
    JsonView::Obj(
        seq![("error"@, JsonView::Obj(seq![("class"@, JsonView::Str(class)), ("desc"@, JsonView::Str(desc))]))],
    )
}

/// `{}`.
pub open spec fn empty_doc() -> JsonView {
    JsonView::Obj(Seq::empty())
}

/// `{"major": .., "minor": .., "micro": ..}`.
pub open spec fn triple_doc(t: (u64, u64, u64)) -> JsonView {
    JsonView::Obj(
        seq![("major"@, JsonView::Num(t.0)), ("minor"@, JsonView::Num(t.1)), ("micro"@, JsonView::Num(t.2))],
    )
}

/// The greeting sent on connect:
/// `{"QMP": {"version": {"machina": triple}, "capabilities": []}}`.
pub open spec fn greeting_doc(t: (u64, u64, u64)) -> JsonView {
    JsonView::Obj(
        seq![
            ("QMP"@, JsonView::Obj(
                seq![
                    ("version"@, JsonView::Obj(seq![("machina"@, triple_doc(t))])),
                    ("capabilities"@, JsonView::Arr(Seq::empty())),
                ],
            )),
        ],
    )
}

/// The answer to `query-version`:
/// `{"return": {"qemu": triple, "package": "machina"}}`.
pub open spec fn version_doc(t: (u64, u64, u64)) -> JsonView {
    return_doc(JsonView::Obj(seq![("qemu"@, triple_doc(t)), ("package"@, JsonView::Str("machina"@))]))
}

/// One CPU in the answer to `query-cpus-fast`.
pub open spec fn cpu_doc(c: CpuInfo) -> JsonView {
    JsonView::Obj(
        seq![
            ("cpu-index"@, JsonView::Num(c.cpu_index)),
            ("qom-path"@, JsonView::Str("/machine/cpu["@ + decimal_text(c.cpu_index as nat) + "]"@)),
            ("thread-id"@, JsonView::Num(0)),
            ("halted"@, JsonView::Bool(c.halted)),
            ("arch"@, JsonView::Str(c.arch@)),
            ("props"@, JsonView::Obj(seq![("core-id"@, JsonView::Num(c.cpu_index))])),
            ("target"@, JsonView::Str(c.arch@)),
        ],
    )
}

/// The description of an unknown command.
pub open spec fn unknown_desc(cmd: Seq<char>) -> Seq<char> {
    "command '"@ + cmd + "' not found"@
}

/// The answer to the command named `cmd`, given the version triple and
/// what the service answered.
pub open spec fn response_doc(cmd: Seq<char>, t: (u64, u64, u64), o: Outcome) -> JsonView {
    match command_of(cmd) {
        Command::QueryVersion => version_doc(t),
        Command::QueryStatus => return_doc(
            JsonView::Obj(seq![("running"@, JsonView::Bool(o->Running_0))]),
        ),
        Command::QueryCpusFast => return_doc(JsonView::Arr(o->Cpus_0@.map_values(|c: CpuInfo| cpu_doc(c)))),
        Command::SystemReset => error_doc(
            "GenericError"@,
            "system_reset not implemented (deferred)"@,
        ),
        Command::Unknown => error_doc("CommandNotFound"@, unknown_desc(cmd)),
        _ => return_doc(empty_doc()),
    }
}

fn triple_json(t: (u64, u64, u64)) -> (j: Json)
    ensures
        j@ == triple_doc(t),
{
    let mut es: Vec<(String, Json)> = Vec::new();
    push_member(&mut es, "major", Json::Num(t.0));
    push_member(&mut es, "minor", Json::Num(t.1));
    push_member(&mut es, "micro", Json::Num(t.2));
    let j = object(es);
    assert(j@->Obj_0 =~= triple_doc(t)->Obj_0);
    j
}

fn return_json(payload: Json) -> (j: Json)
    ensures
        j@ == return_doc(payload@),
{
    let ghost p = payload@;
    let mut es: Vec<(String, Json)> = Vec::new();
    push_member(&mut es, "return", payload);
    let j = object(es);
    assert(j@->Obj_0 =~= return_doc(p)->Obj_0);
    j
}

pub(crate) fn error_json(class: &str, desc: String) -> (j: Json)
    ensures
        j@ == error_doc(class@, desc@),
{
    let ghost d = desc@;
    let mut inner: Vec<(String, Json)> = Vec::new();
    push_member(&mut inner, "class", text(class));
    push_member(&mut inner, "desc", Json::Str(desc));
    let inner = object(inner);
    let mut es: Vec<(String, Json)> = Vec::new();
    push_member(&mut es, "error", inner);
    let j = object(es);
    assert(j@->Obj_0[0].1->Obj_0 =~= error_doc(class@, d)->Obj_0[0].1->Obj_0);
    assert(j@->Obj_0 =~= error_doc(class@, d)->Obj_0);
    j
}

/// The greeting for a server of the given version string.
pub fn greeting_message(version: &str) -> (j: Json)
    ensures
        j@ == greeting_doc(version_triple(version@)),
{
    let t = parse_pkg_version(version);
    let mut v: Vec<(String, Json)> = Vec::new();
    push_member(&mut v, "machina", triple_json(t));
    let mut qmp: Vec<(String, Json)> = Vec::new();
    push_member(&mut qmp, "version", object(v));
    push_member(&mut qmp, "capabilities", array(Vec::new()));
    let mut es: Vec<(String, Json)> = Vec::new();
    push_member(&mut es, "QMP", object(qmp));
    let j = object(es);
    let ghost g = greeting_doc(t);
    assert(j@->Obj_0[0].1->Obj_0[0].1->Obj_0 =~= g->Obj_0[0].1->Obj_0[0].1->Obj_0);
    assert(j@->Obj_0[0].1->Obj_0[1].1->Arr_0 =~= g->Obj_0[0].1->Obj_0[1].1->Arr_0);
    assert(j@->Obj_0[0].1->Obj_0 =~= g->Obj_0[0].1->Obj_0);
    assert(j@->Obj_0 =~= g->Obj_0);
    j
}

/// The greeting line's text: the compact JSON of [`greeting_message`],
/// on one line.
pub fn greeting(version: &str) -> (s: String)
    ensures
        s@ == json_text(greeting_doc(version_triple(version@))),
        is_one_line(s@),
{
    encode(&greeting_message(version))
}


fn cpu_json(c: &CpuInfo) -> (j: Json)
    ensures
        j@ == cpu_doc(*c),
{
    let mut path = String::from_str("/machine/cpu[");
    path.append(decimal(c.cpu_index).as_str());
    path.append("]");
    let mut props: Vec<(String, Json)> = Vec::new();
    push_member(&mut props, "core-id", Json::Num(c.cpu_index));
    let mut es: Vec<(String, Json)> = Vec::new();
    push_member(&mut es, "cpu-index", Json::Num(c.cpu_index));
    push_member(&mut es, "qom-path", Json::Str(path));
    push_member(&mut es, "thread-id", Json::Num(0));
    push_member(&mut es, "halted", Json::Bool(c.halted));
    push_member(&mut es, "arch", Json::Str(c.arch.clone()));
    push_member(&mut es, "props", object(props));
    push_member(&mut es, "target", Json::Str(c.arch.clone()));
    let j = object(es);
    let ghost d = cpu_doc(*c);
    assert(j@->Obj_0[5].1->Obj_0 =~= d->Obj_0[5].1->Obj_0);
    assert(j@->Obj_0 =~= d->Obj_0);
    j
}

/// The answer to the command named `cmd`, for a server of the given
/// version string, once the service has answered its call with `outcome`.
pub fn dispatch(cmd: &str, version: &str, outcome: &Outcome) -> (j: Json)
    requires
        outcome_fits(call_for(command_of(cmd@)), *outcome),
    ensures
        j@ == response_doc(cmd@, version_triple(version@), *outcome),
{
    match command_kind(cmd) {
        Command::QueryVersion => {
            let t = parse_pkg_version(version);
            let mut es: Vec<(String, Json)> = Vec::new();
            push_member(&mut es, "qemu", triple_json(t));
            push_member(&mut es, "package", text("machina"));
            let p = object(es);
            let ghost v = version_doc(t);
            assert(p@->Obj_0 =~= v->Obj_0[0].1->Obj_0);
            return_json(p)
        },
        Command::QueryStatus => {
            let running = match outcome {
                Outcome::Running(r) => *r,
                _ => false,
            };
            let mut es: Vec<(String, Json)> = Vec::new();
            push_member(&mut es, "running", Json::Bool(running));
            let p = object(es);
            assert(p@->Obj_0 =~= seq![("running"@, JsonView::Bool(running))]);
            return_json(p)
        },
        Command::QueryCpusFast => {
            let cpus = match outcome {
                Outcome::Cpus(v) => v,
                _ => {
                    assert(false);
                    return Json::Null;
                },
            };
            let mut items: Vec<Json> = Vec::new();
            let mut i: usize = 0;
            while i < cpus.len()
                invariant
                    i <= cpus.len(),
                    items.len() == i,
                    forall|k: int| 0 <= k < i ==> #[trigger] items@[k]@ == cpu_doc(cpus@[k]),
                decreases cpus.len() - i,
            {
                items.push(cpu_json(&cpus[i]));
                i = i + 1;
            }
            let a = array(items);
            assert(a@->Arr_0 =~= cpus@.map_values(|c: CpuInfo| cpu_doc(c)));
            return_json(a)
        },
        Command::SystemReset => {
            error_json("GenericError", String::from_str("system_reset not implemented (deferred)"))
        },
        Command::Unknown => {
            let mut desc = String::from_str("command '");
            desc.append(cmd);
            desc.append("' not found");
            error_json("CommandNotFound", desc)
        },
        _ => {
            let p = object(Vec::new());
            assert(p@->Obj_0 =~= empty_doc()->Obj_0);
            return_json(p)
        },
    }
}


/// Each command name stands for its own command.
pub proof fn lemma_command_names()
    ensures
        command_of("qmp_capabilities"@) == Command::Capabilities,
        command_of("query-version"@) == Command::QueryVersion,
        command_of("query-status"@) == Command::QueryStatus,
        command_of("stop"@) == Command::Stop,
        command_of("cont"@) == Command::Cont,
        command_of("quit"@) == Command::Quit,
        command_of("system_powerdown"@) == Command::SystemPowerdown,
        command_of("query-cpus-fast"@) == Command::QueryCpusFast,
        command_of("system_reset"@) == Command::SystemReset,
{
    reveal_strlit("qmp_capabilities");
    reveal_strlit("query-version");
    reveal_strlit("query-status");
    reveal_strlit("stop");
    reveal_strlit("cont");
    reveal_strlit("quit");
    reveal_strlit("system_powerdown");
    reveal_strlit("query-cpus-fast");
    reveal_strlit("system_reset");
    assert("qmp_capabilities"@.len() == 16 && "qmp_capabilities"@[0] == 'q');
    assert("query-version"@.len() == 13);
    assert("query-status"@.len() == 12 && "query-status"@[0] == 'q');
    assert("stop"@.len() == 4 && "stop"@[0] == 's');
    assert("cont"@.len() == 4 && "cont"@[0] == 'c');
    assert("quit"@.len() == 4 && "quit"@[0] == 'q');
    assert("system_powerdown"@.len() == 16 && "system_powerdown"@[0] == 's');
    assert("query-cpus-fast"@.len() == 15);
    assert("system_reset"@.len() == 12 && "system_reset"@[0] == 's');
}

/// A protocol answer: an object with one member, either `return`, or
/// `error` holding the string members `class` and `desc`.
pub open spec fn is_reply(doc: JsonView) -> bool {
    match doc {
        JsonView::Obj(es) => {
            &&& es.len() == 1
            &&& (es[0].0 == "return"@ || is_error_body(es[0].0, es[0].1))
        },
        _ => false,
    }
}

/// `"error": {"class": <string>, "desc": <string>}`.
pub open spec fn is_error_body(key: Seq<char>, body: JsonView) -> bool {
    &&& key == "error"@
    &&& body matches JsonView::Obj(inner)
    &&& inner.len() == 2
    &&& inner[0].0 == "class"@
    &&& inner[0].1 is Str
    &&& inner[1].0 == "desc"@
    &&& inner[1].1 is Str
}

/// Every answer that [`dispatch`] gives, whatever the command and the
/// service's outcome, is a protocol answer: `{"return": ..}` or
/// `{"error": {"class": .., "desc": ..}}`.
pub proof fn lemma_every_answer_is_a_reply(cmd: Seq<char>, t: (u64, u64, u64), o: Outcome)
    ensures
        is_reply(response_doc(cmd, t, o)),
{
}

/// The version that the greeting advertises (under `QMP.version.machina`)
/// is the one that `query-version` returns (under `return.qemu`), so a
/// session never reports two versions: both are the triple decoded from
/// the same version string.
pub proof fn lemma_greeting_matches_query_version(version: Seq<char>, o: Outcome)
    ensures
        member(member(member(greeting_doc(version_triple(version)), "QMP"@), "version"@), "machina"@)
            == member(member(response_doc("query-version"@, version_triple(version), o), "return"@), "qemu"@),
        member(member(member(greeting_doc(version_triple(version)), "QMP"@), "version"@), "machina"@)
            == triple_doc(version_triple(version)),
{
    lemma_command_names();
    reveal_strlit("QMP");
    reveal_strlit("version");
    reveal_strlit("capabilities");
    reveal_strlit("machina");
    reveal_strlit("return");
    reveal_strlit("qemu");
    reveal_strlit("package");
    let t = version_triple(version);
    let g = greeting_doc(t);
    let r = response_doc("query-version"@, t, o);
    assert(command_of("query-version"@) == Command::QueryVersion);
    let qmp = member(g, "QMP"@);
    assert(qmp == g->Obj_0[0].1);
    let qmp_es = qmp->Obj_0;
    assert(qmp_es.drop_last() =~= seq![qmp_es[0]]);
    assert("capabilities"@.len() != "version"@.len());
    assert(member_of(qmp_es.drop_last(), "version"@) == qmp_es[0].1);
    assert(member(qmp, "version"@) == qmp_es[0].1);
    let ret = member(r, "return"@);
    assert(ret == r->Obj_0[0].1);
    let ret_es = ret->Obj_0;
    assert(ret_es.drop_last() =~= seq![ret_es[0]]);
    assert("package"@.len() != "qemu"@.len());
    assert(member_of(ret_es.drop_last(), "qemu"@) == ret_es[0].1);
    assert(member(ret, "qemu"@) == ret_es[0].1);
}

/// `system_powerdown` is an alias of `quit`: it asks the service for the
/// same call and is answered the same.
pub proof fn lemma_powerdown_is_quit(t: (u64, u64, u64), o: Outcome)
    ensures
        command_of("quit"@) == Command::Quit,
        command_of("system_powerdown"@) == Command::SystemPowerdown,
        call_for(command_of("system_powerdown"@)) == call_for(command_of("quit"@)),
        call_for(command_of("quit"@)) == ServiceCall::Quit,
        response_doc("system_powerdown"@, t, o) == response_doc("quit"@, t, o),
{
    lemma_command_names();
}


/// Only the nine command names of the protocol stand for a command; every
/// other name (a near miss such as "query-cpus" or "Quit" too) is unknown.
pub proof fn lemma_only_known_names(cmd: Seq<char>)
    ensures
        command_of(cmd) != Command::Unknown ==> cmd == "qmp_capabilities"@ || cmd
            == "query-version"@ || cmd == "query-status"@ || cmd == "stop"@ || cmd == "cont"@
            || cmd == "quit"@ || cmd == "system_powerdown"@ || cmd == "query-cpus-fast"@ || cmd
            == "system_reset"@,
{
}

/// A name that is none of the nine commands asks nothing of the service
/// and is answered with the error class `CommandNotFound`, whose
/// description quotes the name.
pub proof fn lemma_unknown_names_not_found(cmd: Seq<char>, t: (u64, u64, u64), o: Outcome)
    requires
        cmd != "qmp_capabilities"@,
        cmd != "query-version"@,
        cmd != "query-status"@,
        cmd != "stop"@,
        cmd != "cont"@,
        cmd != "quit"@,
        cmd != "system_powerdown"@,
        cmd != "query-cpus-fast"@,
        cmd != "system_reset"@,
    ensures
        call_for(command_of(cmd)) == ServiceCall::Nothing,
        member(member(response_doc(cmd, t, o), "error"@), "class"@) == JsonView::Str(
            "CommandNotFound"@,
        ),
        member(member(response_doc(cmd, t, o), "error"@), "desc"@) == JsonView::Str(
            "command '"@ + cmd + "' not found"@,
        ),
{
    lemma_error_members("CommandNotFound"@, unknown_desc(cmd));
}

/// The members of an error answer: `error.class` and `error.desc`.
pub proof fn lemma_error_members(class: Seq<char>, desc: Seq<char>)
    ensures
        member(member(error_doc(class, desc), "error"@), "class"@) == JsonView::Str(class),
        member(member(error_doc(class, desc), "error"@), "desc"@) == JsonView::Str(desc),
{
    reveal_strlit("class");
    reveal_strlit("desc");
    assert("class"@.len() != "desc"@.len());
    let inner = error_doc(class, desc)->Obj_0[0].1->Obj_0;
    assert(inner.drop_last() =~= seq![inner[0]]);
    assert(member_of(inner.drop_last(), "class"@) == inner[0].1);
}

/// The answer to `query-cpus-fast` lists the CPUs the service reported, in
/// order, one entry each, and the entry of the `k`-th CPU reports that
/// CPU's own index, QOM path, halted flag and architecture.
pub proof fn lemma_cpu_entries(version: (u64, u64, u64), cpus: Vec<CpuInfo>, k: int)
    requires
        0 <= k < cpus@.len(),
    ensures
        ({
            let answer = member(
                response_doc("query-cpus-fast"@, version, Outcome::Cpus(cpus)),
                "return"@,
            );
            let entry = answer->Arr_0[k];
            &&& answer is Arr
            &&& answer->Arr_0.len() == cpus@.len()
            &&& member(entry, "cpu-index"@) == JsonView::Num(cpus@[k].cpu_index)
            &&& member(entry, "qom-path"@) == JsonView::Str(
                "/machine/cpu["@ + decimal_text(cpus@[k].cpu_index as nat) + "]"@,
            )
            &&& member(entry, "halted"@) == JsonView::Bool(cpus@[k].halted)
            &&& member(entry, "arch"@) == JsonView::Str(cpus@[k].arch@)
            &&& member(entry, "target"@) == JsonView::Str(cpus@[k].arch@)
        }),
{
    lemma_command_names();
    reveal_strlit("cpu-index");
    reveal_strlit("qom-path");
    reveal_strlit("thread-id");
    reveal_strlit("halted");
    reveal_strlit("arch");
    reveal_strlit("props");
    reveal_strlit("target");
    assert("cpu-index"@.len() == 9 && "cpu-index"@[0] == 'c');
    assert("qom-path"@.len() == 8);
    assert("thread-id"@.len() == 9 && "thread-id"@[0] == 't');
    assert("halted"@.len() == 6 && "halted"@[0] == 'h');
    assert("arch"@.len() == 4);
    assert("props"@.len() == 5);
    assert("target"@.len() == 6 && "target"@[0] == 't');
    let r = response_doc("query-cpus-fast"@, version, Outcome::Cpus(cpus));
    assert(member(r, "return"@) == r->Obj_0[0].1);
    let entry = cpu_doc(cpus@[k]);
    let es = entry->Obj_0;
    reveal_with_fuel(member_of, 8);
    assert(es.drop_last() =~= es.subrange(0, 6));
    assert(es.subrange(0, 6).drop_last() =~= es.subrange(0, 5));
    assert(es.subrange(0, 5).drop_last() =~= es.subrange(0, 4));
    assert(es.subrange(0, 4).drop_last() =~= es.subrange(0, 3));
    assert(es.subrange(0, 3).drop_last() =~= es.subrange(0, 2));
    assert(es.subrange(0, 2).drop_last() =~= es.subrange(0, 1));
    assert(es.subrange(0, 1).drop_last() =~= es.subrange(0, 0));
}

} // verus!
