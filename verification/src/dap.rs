//! The decisions the Java extension makes for Zed's debugger: which adapter it
//! serves, what a launch configuration is completed with, what an attach
//! configuration holds, and what debug scenario a run or test task becomes.
use vstd::prelude::*;
use crate::command_line::{fully_qualified, get_fqcn, parse_args, task_arguments};
use crate::debug_config::{
    config_from_json, config_text, json_config, json_debug_text, json_entries, json_object_text,
    parse_config_text, reads_back_as, value_debug_text, ConfigObject, ConfigValue,
    ConfigValueView,
};
use crate::jdwp::{debug_port, lemma_debug_port_round_trip};
use crate::text::{decimal, decimal_text, owned, text_eq, views};
use crate::workspace::opt_view;

verus! {

/// The name of the debug adapter this extension provides.
pub open spec fn java_adapter() -> Seq<char> {
    "Java"@
}

/// How a debug session starts: the adapter launches the program, or attaches to a
/// running one.
#[derive(PartialEq, Eq, Structural, Clone, Copy, Debug)]
pub enum DebugRequestKind {
    Launch,
    Attach,
}

/// A debug request from the debugger's "new session" dialog, as far as this extension
/// reads it.
#[derive(PartialEq, Eq, Structural, Clone, Copy, Debug)]
pub enum DebugRequest {
    /// Launch a program (which this extension does not support).
    Launch,
    /// Attach to a process, by its id when one is given.
    Attach { process_id: Option<u32> },
}

/// Why a debug request is refused.
#[derive(Debug, PartialEq, Eq)]
pub enum DapError {
    /// The Java debugger plugin of the language server is not loaded.
    DebuggerNotLoaded,
    /// The request names another debug adapter.
    UnknownAdapter(String),
    /// The configuration's `request` is neither `"launch"` nor `"attach"`.
    UnexpectedRequest(ConfigValue),
    /// The configuration has no `request`.
    MissingRequest,
    /// The language server has not reported its workspace yet.
    WorkspaceNotInitialized,
    /// Launching is asked for; only attaching is supported.
    LaunchUnsupported,
    /// The configuration text is not JSON (with `serde_json`'s message).
    InvalidJson(String),
    /// The completed configuration says neither to launch nor to attach.
    KindUndetermined(Box<DapError>),
}

impl DapError {
    /// The message shown for the error.
    pub open spec fn message_text(&self) -> Seq<char>
        decreases self,
    {
        match self {
            DapError::DebuggerNotLoaded => "Debugger plugin is not loaded"@,
            DapError::UnknownAdapter(n) => "Cannot create binary for adapter \""@ + n@ + "\""@,
            DapError::UnexpectedRequest(v) => "Unexpected value for `request` key in Java debug adapter configuration: "@
                + json_debug_text(v@),
            DapError::MissingRequest => "Missing required `request` field in Java debug adapter configuration"@,
            DapError::WorkspaceNotInitialized => "LSP workspace not initialized yet"@,
            DapError::LaunchUnsupported => "Java Extension doesn't support launching"@,
            DapError::InvalidJson(e) => "Invalid JSON configuration: "@ + e@,
            DapError::KindUndetermined(e) => "Failed to determine debug request kind: "@
                + e.message_text(),
        }
    }

    /// The message shown for the error.
    pub fn message(&self) -> (r: String)
        ensures
            r@ == self.message_text(),
        decreases self,
    {
        match self {
            DapError::DebuggerNotLoaded => owned("Debugger plugin is not loaded"),
            DapError::UnknownAdapter(n) => {
                let mut r = owned("Cannot create binary for adapter \"");
                r.append(n.as_str());
                r.append("\"");
                r
            },
            DapError::UnexpectedRequest(v) => {
                let mut r = owned(
                    "Unexpected value for `request` key in Java debug adapter configuration: ",
                );
                let d = value_debug_text(v);
                r.append(d.as_str());
                r
            },
            DapError::MissingRequest => owned(
                "Missing required `request` field in Java debug adapter configuration",
            ),
            DapError::WorkspaceNotInitialized => owned("LSP workspace not initialized yet"),
            DapError::LaunchUnsupported => owned("Java Extension doesn't support launching"),
            DapError::InvalidJson(e) => {
                let mut r = owned("Invalid JSON configuration: ");
                r.append(e.as_str());
                r
            },
            DapError::KindUndetermined(e) => {
                let mut r = owned("Failed to determine debug request kind: ");
                let inner = e.message();
                r.append(inner.as_str());
                r
            },
        }
    }
}

/// Checks that the debugger is loaded and that `adapter_name` is this extension's
/// adapter, before a debug adapter binary is handed out.
pub fn check_debug_adapter(loaded: bool, adapter_name: &str) -> (r: Result<(), DapError>)
    ensures
        !loaded ==> r matches Err(DapError::DebuggerNotLoaded),
        loaded && adapter_name@ != java_adapter() ==> (r matches Err(DapError::UnknownAdapter(n))
            && n@ == adapter_name@),
        loaded && adapter_name@ == java_adapter() ==> r is Ok,
{
    if !loaded {
        return Err(DapError::DebuggerNotLoaded);
    }
    if !text_eq(adapter_name, "Java") {
        return Err(DapError::UnknownAdapter(owned(adapter_name)));
    }
    Ok(())
}

/// Whether a debug configuration asks to launch or to attach.
pub fn dap_request_kind(adapter_name: &str, config: &ConfigObject) -> (r: Result<
    DebugRequestKind,
    DapError,
>)
    ensures
        adapter_name@ != java_adapter() ==> (r matches Err(DapError::UnknownAdapter(n)) && n@
            == adapter_name@),
        adapter_name@ == java_adapter() ==> {
            if !config@.contains_key("request"@) {
                r matches Err(DapError::MissingRequest)
            } else if config@["request"@] == ConfigValueView::Text("launch"@) {
                r == Ok::<DebugRequestKind, DapError>(DebugRequestKind::Launch)
            } else if config@["request"@] == ConfigValueView::Text("attach"@) {
                r == Ok::<DebugRequestKind, DapError>(DebugRequestKind::Attach)
            } else {
                r matches Err(DapError::UnexpectedRequest(v)) && v@ == config@["request"@]
            }
        },
{
    if !text_eq(adapter_name, "Java") {
        return Err(DapError::UnknownAdapter(owned(adapter_name)));
    }
    match config.get("request") {
        Some(value) => {
            match value {
                ConfigValue::Text(s) => {
                    if text_eq(s.as_str(), "launch") {
                        return Ok(DebugRequestKind::Launch);
                    }
                    if text_eq(s.as_str(), "attach") {
                        return Ok(DebugRequestKind::Attach);
                    }
                },
                _ => {},
            }
            Err(DapError::UnexpectedRequest(value.duplicate()))
        },
        None => Err(DapError::MissingRequest),
    }
}

/// Whether a JSON debug configuration asks to launch or to attach, as
/// `dap_request_kind` reads its entries; a value that is not an object has no
/// `request`.
pub fn json_request_kind(adapter_name: &str, config: &serde_json::Value) -> (r: Result<
    DebugRequestKind,
    DapError,
>)
    ensures
        adapter_name@ != java_adapter() ==> (r matches Err(DapError::UnknownAdapter(n)) && n@
            == adapter_name@),
        adapter_name@ == java_adapter() ==> match json_entries(*config) {
            None => r matches Err(DapError::MissingRequest),
            Some(m) => if !m.contains_key("request"@) {
                r matches Err(DapError::MissingRequest)
            } else if m["request"@] == ConfigValueView::Text("launch"@) {
                r == Ok::<DebugRequestKind, DapError>(DebugRequestKind::Launch)
            } else if m["request"@] == ConfigValueView::Text("attach"@) {
                r == Ok::<DebugRequestKind, DapError>(DebugRequestKind::Attach)
            } else {
                r matches Err(DapError::UnexpectedRequest(v)) && v@ == m["request"@]
            },
        },
{
    if !text_eq(adapter_name, "Java") {
        return Err(DapError::UnknownAdapter(owned(adapter_name)));
    }
    match config_from_json(config) {
        Some(c) => dap_request_kind(adapter_name, &c),
        None => Err(DapError::MissingRequest),
    }
}

// ---------------------------------------------------------------------------
// Launch configurations
// ---------------------------------------------------------------------------

/// The program of a launch configuration and its project name, when the
/// configuration gives them as strings.
pub fn launch_program(config: &ConfigObject) -> (r: Option<(String, Option<String>)>)
    ensures
        resolution_view(r) == launch_target(config@),
{
    match config.get_text("program") {
        Some(p) => Some((p, config.get_text("projectName"))),
        None => None,
    }
}

/// The program a launch configuration names and its project name, each when the
/// configuration gives it as a string.
pub open spec fn launch_target(m: Map<Seq<char>, ConfigValueView>) -> Option<
    (Seq<char>, Option<Seq<char>>),
> {
    match text_at(m, "program"@) {
        Some(p) => Some((p, text_at(m, "projectName"@))),
        None => None,
    }
}

/// The string at `key`, when the value there is one.
pub open spec fn text_at(m: Map<Seq<char>, ConfigValueView>, key: Seq<char>) -> Option<Seq<char>> {
    if m.contains_key(key) && m[key] is Text {
        Some(m[key]->Text_0)
    } else {
        None
    }
}

/// A configuration that names no `request` launches.
pub open spec fn with_default_request(m: Map<Seq<char>, ConfigValueView>) -> Map<
    Seq<char>,
    ConfigValueView,
> {
    if m.contains_key("request"@) {
        m
    } else {
        m.insert("request"@, ConfigValueView::Text("launch"@))
    }
}

/// The program as resolved: the corrected class name if there is one, else the
/// program as written.
pub open spec fn resolved_program(program: Seq<char>, resolved: Option<Seq<char>>) -> Seq<char> {
    match resolved {
        Some(r) => r,
        None => program,
    }
}

/// A launch configuration completed: a corrected program name replaces `program`,
/// `mainClass` is set to the program unless the configuration sets it, and a missing
/// `request` becomes `"launch"`.
pub open spec fn completed_launch_config(
    m: Map<Seq<char>, ConfigValueView>,
    resolution: Option<(Seq<char>, Option<Seq<char>>)>,
) -> Map<Seq<char>, ConfigValueView> {
    let with_program = match resolution {
        None => m,
        Some((program, resolved)) => {
            let m2 = match resolved {
                Some(r) => m.insert("program"@, ConfigValueView::Text(r)),
                None => m,
            };
            if m2.contains_key("mainClass"@) {
                m2
            } else {
                m2.insert(
                    "mainClass"@,
                    ConfigValueView::Text(resolved_program(program, resolved)),
                )
            }
        },
    };
    with_default_request(with_program)
}

/// The view of a program and its corrected name.
pub open spec fn resolution_view(resolution: Option<(String, Option<String>)>) -> Option<
    (Seq<char>, Option<Seq<char>>),
> {
    match resolution {
        Some((p, r)) => Some((p@, opt_view(r))),
        None => None,
    }
}

/// Completes a launch configuration. `resolution` is the configuration's program (as
/// `launch_program` found it) with the corrected class name, if one was found; `None`
/// when the configuration names no program.
pub fn complete_launch_config(
    config: &mut ConfigObject,
    resolution: Option<(String, Option<String>)>,
)
    ensures
        final(config)@ == completed_launch_config(old(config)@, resolution_view(resolution)),
{
    match resolution {
        Some((program, resolved)) => {
            let main_class = match resolved {
                Some(r) => {
                    config.insert(owned("program"), ConfigValue::Text(owned(r.as_str())));
                    r
                },
                None => program,
            };
            config.insert_if_absent(owned("mainClass"), ConfigValue::Text(main_class));
        },
        None => {},
    }
    if !config.contains_key("request") {
        config.insert(owned("request"), ConfigValue::Text(owned("launch")));
    }
}

/// A completed launch configuration always has a `request`, keeps the one it had, and,
/// when it names a program, has a `mainClass`, keeping the one it had.
pub proof fn lemma_launch_config_keeps_choices(
    m: Map<Seq<char>, ConfigValueView>,
    resolution: Option<(Seq<char>, Option<Seq<char>>)>,
)
    ensures
        completed_launch_config(m, resolution).contains_key("request"@),
        m.contains_key("request"@) ==> completed_launch_config(m, resolution)["request"@]
            == m["request"@],
        resolution is Some ==> completed_launch_config(m, resolution).contains_key("mainClass"@),
        m.contains_key("mainClass"@) ==> completed_launch_config(m, resolution)["mainClass"@]
            == m["mainClass"@],
{
    reveal_strlit("request");
    reveal_strlit("mainClass");
    reveal_strlit("program");
    assert("request"@ != "mainClass"@) by {
        assert("request"@.len() != "mainClass"@.len());
    }
    assert("program"@ != "mainClass"@) by {
        assert("program"@[0] != "mainClass"@[0]);
    }
    assert("program"@ != "request"@) by {
        assert("program"@[0] != "request"@[0]);
    }
}

/// A launch configuration as read from its text: the configuration when the text is
/// a JSON object, and the program (with its project name) that the language server
/// or the workspace's sources may correct.
pub struct LaunchPlan {
    /// The configuration, when the text holds a JSON object.
    pub config: Option<ConfigObject>,
    /// The configuration's program and project name, when it names a program.
    pub program: Option<(String, Option<String>)>,
}

/// The entries of a configuration that may be absent.
pub open spec fn config_view(config: Option<ConfigObject>) -> Option<
    Map<Seq<char>, ConfigValueView>,
> {
    match config {
        Some(c) => Some(c@),
        None => None,
    }
}

/// The program to complete a configuration with, and its corrected name.
pub open spec fn launch_resolution(
    program: Option<(String, Option<String>)>,
    resolved: Option<Seq<char>>,
) -> Option<(Seq<char>, Option<Seq<char>>)> {
    match program {
        Some((p, _)) => Some((p@, resolved)),
        None => None,
    }
}

/// The first step of handing out a debug adapter binary: checks the debugger and the
/// adapter's name, reads the configuration text, and finds the program to correct.
/// A text that is not JSON is refused with `serde_json`'s message.
pub fn begin_launch(adapter_name: &str, loaded: bool, text: &str) -> (r: Result<
    LaunchPlan,
    DapError,
>)
    ensures
        !loaded ==> r matches Err(DapError::DebuggerNotLoaded),
        loaded && adapter_name@ != java_adapter() ==> (r matches Err(DapError::UnknownAdapter(n))
            && n@ == adapter_name@),
        loaded && adapter_name@ == java_adapter() ==> match json_config(text@) {
            None => r matches Err(DapError::InvalidJson(_)),
            Some(parsed) => r matches Ok(plan) && config_view(plan.config) == parsed
                && resolution_view(plan.program) == match parsed {
                Some(m) => launch_target(m),
                None => None,
            },
        },
{
    match check_debug_adapter(loaded, adapter_name) {
        Ok(()) => {},
        Err(e) => return Err(e),
    }
    let parsed = match parse_config_text(text) {
        Ok(p) => p,
        Err(e) => return Err(DapError::InvalidJson(e)),
    };
    let program = match &parsed {
        Some(c) => launch_program(c),
        None => None,
    };
    Ok(LaunchPlan { config: parsed, program })
}

/// The second step: completes the configuration with the corrected program name, if
/// one was found, and gives its JSON text and whether it launches or attaches.
pub fn finish_launch(plan: LaunchPlan, resolved: Option<String>) -> (r: Result<
    (String, DebugRequestKind),
    DapError,
>)
    ensures
        plan.config is None ==> (r matches Err(DapError::KindUndetermined(e))
            && *e matches DapError::MissingRequest),
        plan.config matches Some(c) ==> {
            let m = completed_launch_config(c@, launch_resolution(plan.program, opt_view(resolved)));
            if m["request"@] == ConfigValueView::Text("launch"@) {
                r matches Ok((t, k)) && t@ == json_object_text(m) && reads_back_as(t@, m) && k
                    == DebugRequestKind::Launch
            } else if m["request"@] == ConfigValueView::Text("attach"@) {
                r matches Ok((t, k)) && t@ == json_object_text(m) && reads_back_as(t@, m) && k
                    == DebugRequestKind::Attach
            } else {
                r matches Err(DapError::KindUndetermined(e)) && *e matches DapError::UnexpectedRequest(
                    v,
                ) && v@ == m["request"@]
            }
        },
{
    let LaunchPlan { config, program } = plan;
    let mut c = match config {
        Some(c) => c,
        None => return Err(DapError::KindUndetermined(Box::new(DapError::MissingRequest))),
    };
    let ghost before = c@;
    let resolution = match program {
        Some((p, _)) => Some((p, resolved)),
        None => None,
    };
    complete_launch_config(&mut c, resolution);
    proof {
        lemma_launch_config_keeps_choices(before, resolution_view(resolution));
    }
    let text = config_text(&c);
    match dap_request_kind("Java", &c) {
        Ok(k) => Ok((text, k)),
        Err(e) => Err(DapError::KindUndetermined(Box::new(e))),
    }
}

/// Completing a launch configuration launches the corrected class: when a corrected
/// name is found it becomes `program`, and, when the configuration sets no
/// `mainClass`, `mainClass` too, whatever else the configuration holds; with no
/// corrected name, a missing `mainClass` is the program as written. A missing `request`
/// becomes `"launch"` and a given one is kept. Every key other than `program`,
/// `mainClass` and `request` is left as it was, and a configuration that names no
/// program gets nothing but a default `request`.
pub proof fn lemma_launch_config_runs_corrected_class(
    m: Map<Seq<char>, ConfigValueView>,
    program: Seq<char>,
    resolved: Option<Seq<char>>,
)
    ensures
        ({
            let c = completed_launch_config(m, Some((program, resolved)));
            &&& resolved matches Some(r) ==> c["program"@] == ConfigValueView::Text(r)
            &&& !m.contains_key("mainClass"@) ==> (resolved matches Some(r) ==> c["mainClass"@]
                == ConfigValueView::Text(r))
            &&& resolved is None && !m.contains_key("mainClass"@) ==> c["mainClass"@]
                == ConfigValueView::Text(program)
            &&& resolved is None && m.contains_key("program"@) ==> c["program"@] == m["program"@]
            &&& !m.contains_key("request"@) ==> c["request"@] == ConfigValueView::Text("launch"@)
            &&& m.contains_key("request"@) ==> c["request"@] == m["request"@]
            &&& forall|k: Seq<char>|
                k != "program"@ && k != "mainClass"@ && k != "request"@ ==> (#[trigger] c.contains_key(k)
                    == m.contains_key(k) && (m.contains_key(k) ==> c[k] == m[k]))
        }),
        ({
            let c = completed_launch_config(m, None);
            &&& c.dom() == m.dom().insert("request"@)
            &&& !m.contains_key("request"@) ==> c["request"@] == ConfigValueView::Text("launch"@)
            &&& forall|k: Seq<char>| k != "request"@ && #[trigger] m.contains_key(k) ==> c[k] == m[k]
        }),
{
    reveal_strlit("request");
    reveal_strlit("mainClass");
    reveal_strlit("program");
    assert("request"@ != "mainClass"@) by {
        assert("request"@.len() != "mainClass"@.len());
    }
    assert("program"@ != "mainClass"@) by {
        assert("program"@[0] != "mainClass"@[0]);
    }
    assert("program"@ != "request"@) by {
        assert("program"@[0] != "request"@[0]);
    }
    let c0 = completed_launch_config(m, None);
    assert(c0.dom() =~= m.dom().insert("request"@));
}

// ---------------------------------------------------------------------------
// Attaching
// ---------------------------------------------------------------------------

/// The configuration for attaching: to the process `pid` when one is given (with
/// `stopOnEntry` as asked, `null` when not said), else to `localhost:5005`.
pub open spec fn attach_config_map(process_id: Option<u32>, stop_on_entry: Option<bool>) -> Map<
    Seq<char>,
    ConfigValueView,
> {
    let base = Map::empty().insert("request"@, ConfigValueView::Text("attach"@));
    match process_id {
        Some(pid) => base.insert("processId"@, ConfigValueView::Unsigned(pid as u64)).insert(
            "stopOnEntry"@,
            match stop_on_entry {
                Some(b) => ConfigValueView::Boolean(b),
                None => ConfigValueView::Null,
            },
        ),
        None => base.insert("hostName"@, ConfigValueView::Text("localhost"@)).insert(
            "port"@,
            ConfigValueView::Unsigned(5005),
        ),
    }
}

/// The configuration of a debug scenario that attaches to a Java process, or why
/// there is none: the debugger must be loaded, the workspace known, and the request an
/// attach request.
pub fn attach_config(
    loaded: bool,
    workspace_known: bool,
    request: DebugRequest,
    stop_on_entry: Option<bool>,
) -> (r: Result<ConfigObject, DapError>)
    ensures
        !loaded ==> r matches Err(DapError::DebuggerNotLoaded),
        loaded && !workspace_known ==> r matches Err(DapError::WorkspaceNotInitialized),
        loaded && workspace_known ==> match request {
            DebugRequest::Launch => r matches Err(DapError::LaunchUnsupported),
            DebugRequest::Attach { process_id } => (r matches Ok(c) && c@ == attach_config_map(
                process_id,
                stop_on_entry,
            )),
        },
{
    if !loaded {
        return Err(DapError::DebuggerNotLoaded);
    }
    if !workspace_known {
        return Err(DapError::WorkspaceNotInitialized);
    }
    match request {
        DebugRequest::Attach { process_id } => {
            let mut c = ConfigObject::new();
            c.insert(owned("request"), ConfigValue::Text(owned("attach")));
            match process_id {
                Some(pid) => {
                    c.insert(owned("processId"), ConfigValue::Unsigned(pid as u64));
                    let stop = match stop_on_entry {
                        Some(b) => ConfigValue::Boolean(b),
                        None => ConfigValue::Null,
                    };
                    c.insert(owned("stopOnEntry"), stop);
                },
                None => {
                    c.insert(owned("hostName"), ConfigValue::Text(owned("localhost")));
                    c.insert(owned("port"), ConfigValue::Unsigned(5005));
                },
            }
            Ok(c)
        },
        DebugRequest::Launch => Err(DapError::LaunchUnsupported),
    }
}

// ---------------------------------------------------------------------------
// Scenarios
// ---------------------------------------------------------------------------

/// A task as Zed describes it: its label, the command and arguments it runs, its
/// environment and working directory.
pub struct TaskTemplate {
    pub label: String,
    pub command: String,
    pub args: Vec<String>,
    pub env: Vec<(String, String)>,
    pub cwd: Option<String>,
}

/// Where the debugger may connect over TCP.
#[derive(Debug, Clone, Copy, PartialEq, Eq)]
pub struct TcpTemplate {
    pub port: Option<u16>,
    pub host: Option<u32>,
    pub timeout: Option<u64>,
}

/// The build step that runs before a debug session.
pub enum BuildTask {
    /// A task named by its label.
    ByName(String),
    /// A task to run, with the locator that made it.
    Template { locator_name: Option<String>, template: TaskTemplate },
}

/// A debug scenario: what to debug and how the adapter is configured.
pub struct DebugScenario {
    pub label: String,
    pub adapter: String,
    pub build: Option<BuildTask>,
    /// The adapter's configuration, as JSON text.
    pub config: String,
    pub tcp_connection: Option<TcpTemplate>,
}

/// The scenario that attaches to a Java process with the configuration `config`,
/// connecting where the debug session was started.
pub fn attach_scenario(adapter: String, config: ConfigObject, tcp_connection: TcpTemplate) -> (r:
    DebugScenario)
    ensures
        r.label@ == "Attach to Java process"@,
        r.adapter == adapter,
        r.build is None,
        r.config@ == json_object_text(config@),
        reads_back_as(r.config@, config@),
        r.tcp_connection == Some(tcp_connection),
{
    DebugScenario {
        label: owned("Attach to Java process"),
        adapter,
        build: None,
        config: config_text(&config),
        tcp_connection: Some(tcp_connection),
    }
}

/// What a task locator asks for after reading a run or test task: the task's arguments,
/// the class it names, and the directory it runs in.
pub struct LocatorPlan {
    pub args: Vec<String>,
    pub fqcn: String,
    pub workspace_folder: String,
}

/// The argument at `i`, or empty text when there are fewer arguments.
pub open spec fn arg_or_empty(args: Seq<Seq<char>>, i: int) -> Seq<char> {
    if 0 <= i < args.len() {
        args[i]
    } else {
        Seq::empty()
    }
}

/// The argument at `i` of a list of texts, or empty text.
fn arg_or_empty_text(args: &Vec<String>, i: usize) -> (r: String)
    ensures
        r@ == arg_or_empty(views(args@), i as int),
{
    if i < args.len() {
        assert(views(args@)[i as int] == args@[i as int]@);
        owned(args[i].as_str())
    } else {
        String::new()
    }
}

/// Reads a run or test task: `None` when its command is not a task-helper command.
/// The class is named by arguments 2 (package), 3 (class) and 4 (outer class).
pub fn locator_plan(template: &TaskTemplate) -> (r: Option<LocatorPlan>)
    ensures
        r is None ==> task_arguments(template.command@) is None,
        r matches Some(p) ==> {
            &&& task_arguments(template.command@) == Some(views(p.args@))
            &&& p.fqcn@ == fully_qualified(
                arg_or_empty(views(p.args@), 2),
                arg_or_empty(views(p.args@), 3),
                arg_or_empty(views(p.args@), 4),
            )
            &&& p.workspace_folder@ == match template.cwd {
                Some(c) => c@,
                None => Seq::<char>::empty(),
            }
        },
{
    let args = match parse_args(template.command.as_str()) {
        Some(a) => a,
        None => return None,
    };
    let package = arg_or_empty_text(&args, 2);
    let class = arg_or_empty_text(&args, 3);
    let outer = arg_or_empty_text(&args, 4);
    let fqcn = get_fqcn(package.as_str(), class.as_str(), outer.as_str());
    let workspace_folder = match &template.cwd {
        Some(c) => owned(c.as_str()),
        None => String::new(),
    };
    Some(LocatorPlan { args, fqcn, workspace_folder })
}

/// The views of environment variable pairs.
pub open spec fn env_views(env: Seq<(String, String)>) -> Seq<(Seq<char>, Seq<char>)> {
    env.map_values(|p: (String, String)| (p.0@, p.1@))
}

/// The environment a debug build runs in: the task's, with debugging switched on and
/// the port the debugger will attach to.
pub open spec fn debug_env(env: Seq<(Seq<char>, Seq<char>)>, port: u16) -> Seq<(Seq<char>, Seq<char>)> {
    env.push(("ZED_JAVA_DEBUG"@, "1"@)).push(("ZED_JAVA_DEBUG_PORT"@, decimal(port as nat)))
}

/// The configuration for attaching to the debugged test or program.
pub open spec fn locator_config_map(
    port: u16,
    project_name: Option<Seq<char>>,
    test_class: Seq<char>,
    test_method: Option<Seq<char>>,
) -> Map<Seq<char>, ConfigValueView> {
    let base = Map::empty().insert("request"@, ConfigValueView::Text("attach"@)).insert(
        "hostName"@,
        ConfigValueView::Text("localhost"@),
    ).insert("port"@, ConfigValueView::Unsigned(port as u64)).insert(
        "projectName"@,
        match project_name {
            Some(p) => ConfigValueView::Text(p),
            None => ConfigValueView::Null,
        },
    ).insert("testClass"@, ConfigValueView::Text(test_class));
    match test_method {
        Some(m) => base.insert("testMethod"@, ConfigValueView::Text(m)),
        None => base,
    }
}

/// The debug scenario for a run or test task: the task itself, in debug mode on `port`,
/// is the build step, and the adapter then attaches to `localhost:port`. The class is
/// the corrected name when the language server gave one; a `run-test-method` task also
/// names its method (argument 5).
pub fn locator_scenario(
    plan: LocatorPlan,
    template: TaskTemplate,
    label: String,
    adapter_name: String,
    lsp_resolved: Option<String>,
    port: u16,
    project_name: Option<String>,
) -> (r: DebugScenario)
    requires
        plan.args.len() >= 1,
        plan.args@[0]@ == "run-test-method"@ ==> plan.args.len() >= 6,
    ensures
        r.label == label,
        r.adapter == adapter_name,
        r.tcp_connection is None,
        (r.build matches Some(BuildTask::Template { locator_name, template: t }) && {
            &&& opt_view(locator_name) == Some("java"@)
            &&& t.label == template.label
            &&& t.command == template.command
            &&& t.args == template.args
            &&& t.cwd == template.cwd
            &&& env_views(t.env@) == debug_env(env_views(template.env@), port)
        }),
        r.config@ == json_object_text(locator_config_map(
            port,
            opt_view(project_name),
            resolved_program(plan.fqcn@, opt_view(lsp_resolved)),
            if plan.args@[0]@ == "run-test-method"@ {
                Some(plan.args@[5]@)
            } else {
                None
            },
        )),
        reads_back_as(
            r.config@,
            locator_config_map(
                port,
                opt_view(project_name),
                resolved_program(plan.fqcn@, opt_view(lsp_resolved)),
                if plan.args@[0]@ == "run-test-method"@ {
                    Some(plan.args@[5]@)
                } else {
                    None
                },
            ),
        ),
{
    let final_fqcn = match lsp_resolved {
        Some(f) => f,
        None => plan.fqcn,
    };
    let mut build_template = template;
    let ghost env0 = build_template.env@;
    build_template.env.push((owned("ZED_JAVA_DEBUG"), owned("1")));
    build_template.env.push((owned("ZED_JAVA_DEBUG_PORT"), decimal_text(port as u64)));
    assert(env_views(build_template.env@) =~= debug_env(env_views(env0), port));
    let mut config = ConfigObject::new();
    config.insert(owned("request"), ConfigValue::Text(owned("attach")));
    config.insert(owned("hostName"), ConfigValue::Text(owned("localhost")));
    config.insert(owned("port"), ConfigValue::Unsigned(port as u64));
    let project_value = match project_name {
        Some(p) => ConfigValue::Text(p),
        None => ConfigValue::Null,
    };
    config.insert(owned("projectName"), project_value);
    config.insert(owned("testClass"), ConfigValue::Text(final_fqcn));
    if text_eq(plan.args[0].as_str(), "run-test-method") {
        config.insert(owned("testMethod"), ConfigValue::Text(owned(plan.args[5].as_str())));
    }
    DebugScenario {
        label,
        adapter: adapter_name,
        build: Some(
            BuildTask::Template { locator_name: Some(owned("java")), template: build_template },
        ),
        config: config_text(&config),
        tcp_connection: None,
    }
}

/// The debug build and the debugger agree on the port: the port that the scenario's
/// configuration attaches to is the one the build's environment announces, and the
/// task helper reads that announcement back as the same port.
pub proof fn lemma_locator_port_agrees(
    env: Seq<(Seq<char>, Seq<char>)>,
    port: u16,
    project_name: Option<Seq<char>>,
    test_class: Seq<char>,
    test_method: Option<Seq<char>>,
)
    ensures
        debug_env(env, port).last().0 == "ZED_JAVA_DEBUG_PORT"@,
        debug_port(debug_env(env, port).last().1) == port,
        locator_config_map(port, project_name, test_class, test_method)["port"@]
            == ConfigValueView::Unsigned(port as u64),
{
    lemma_debug_port_round_trip(port);
    reveal_strlit("port");
    reveal_strlit("testClass");
    reveal_strlit("testMethod");
    reveal_strlit("projectName");
    assert("port"@ != "testClass"@) by {
        assert("port"@.len() != "testClass"@.len());
    }
    assert("port"@ != "testMethod"@) by {
        assert("port"@.len() != "testMethod"@.len());
    }
    assert("port"@ != "projectName"@) by {
        assert("port"@.len() != "projectName"@.len());
    }
}

/// What running the Java locator's build asks the debugger to do: attach, with no
/// particular process.
pub fn run_dap_locator() -> (r: DebugRequest)
    ensures
        r == (DebugRequest::Attach { process_id: None }),
{
    DebugRequest::Attach { process_id: None }
}

} // verus!
