//! The Gradle commands that run a class, a test method, a test class or all tests
//! of a module, and the init script that keeps Gradle from skipping them.
use vstd::prelude::*;
use crate::text::{
    contains_text, matches_at, owned, push_char, replace_char, replace_char_text, views,
};

verus! {

/// A command to run: the program, its arguments and the directory to run it in.
#[derive(Debug, Clone, PartialEq, Eq)]
pub struct TaskCommand {
    pub command: String,
    pub args: Vec<String>,
    pub cwd: String,
}

/// A Gradle build rooted at a directory.
pub struct Gradle {
    root: String,
}

impl View for Gradle {
    type V = Seq<char>;

    /// The root directory of the build.
    closed spec fn view(&self) -> Seq<char> {
        self.root@
    }
}

/// What running a task needs from outside the build description: the Gradle command
/// to call (the wrapper script when the build has one), the module that holds the file
/// (relative to the root, when the file is in a submodule), whether to debug, and the
/// init script written for this run (when writing it succeeded).
pub struct GradleRun {
    pub command: String,
    pub module: Option<String>,
    pub debug: bool,
    pub init_script: Option<String>,
}

/// The view of an optional string.
pub open spec fn opt_text(o: Option<String>) -> Option<Seq<char>> {
    match o {
        Some(s) => Some(s@),
        None => None,
    }
}

/// `Outer$Class` for a nested class, else the class.
pub open spec fn full_class(outer: Option<Seq<char>>, class: Seq<char>) -> Seq<char> {
    match outer {
        Some(o) => o + seq!['$'] + class,
        None => class,
    }
}

/// `package.name`, or just `name` in the default package.
pub open spec fn in_package(package: Seq<char>, name: Seq<char>) -> Seq<char> {
    if package.len() == 0 {
        name
    } else {
        package + seq!['.'] + name
    }
}

/// The Gradle task path: `:<module with / turned to :>:<task>`, or `:<task>` at the root.
pub open spec fn task_path(module: Option<Seq<char>>, task: Seq<char>) -> Seq<char> {
    match module {
        Some(m) => seq![':'] + replace_char(m, '/', ':') + seq![':'] + task,
        None => seq![':'] + task,
    }
}

/// The flags every Gradle run is given.
pub open spec fn common_flags() -> Seq<Seq<char>> {
    seq!["--console=plain"@, "--no-daemon"@]
}

/// `-I <script>` when an init script was written.
pub open spec fn script_args(script: Option<Seq<char>>) -> Seq<Seq<char>> {
    match script {
        Some(p) => seq!["-I"@, p],
        None => Seq::empty(),
    }
}

/// The flags after the common ones for a test run: `--debug-jvm` when debugging,
/// then the init script.
pub open spec fn test_tail(debug: bool, script: Option<Seq<char>>) -> Seq<Seq<char>> {
    (if debug {
        seq!["--debug-jvm"@]
    } else {
        Seq::empty()
    }) + script_args(script)
}

/// The arguments for running a class: the module's `run` task with the main class,
/// and, when debugging, `--debug-jvm` and the init script.
pub open spec fn run_class_args(
    run: GradleRun,
    package: Seq<char>,
    class: Seq<char>,
    outer: Option<Seq<char>>,
) -> Seq<Seq<char>> {
    seq![task_path(opt_text(run.module), "run"@), "-PmainClass="@ + in_package(package, full_class(outer, class))]
        + common_flags() + if run.debug {
        seq!["--debug-jvm"@] + script_args(opt_text(run.init_script))
    } else {
        Seq::empty()
    }
}

/// The arguments for running one test method.
pub open spec fn run_test_method_args(
    run: GradleRun,
    package: Seq<char>,
    class: Seq<char>,
    outer: Option<Seq<char>>,
    method: Seq<char>,
) -> Seq<Seq<char>> {
    seq![
        task_path(opt_text(run.module), "test"@),
        "--tests"@,
        in_package(package, full_class(outer, class) + seq!['.'] + method),
    ] + common_flags() + test_tail(run.debug, opt_text(run.init_script))
}

/// The arguments for running the tests of one class.
pub open spec fn run_test_class_args(
    run: GradleRun,
    package: Seq<char>,
    class: Seq<char>,
    outer: Option<Seq<char>>,
) -> Seq<Seq<char>> {
    seq![task_path(opt_text(run.module), "test"@), "--tests"@, in_package(package, full_class(outer, class))]
        + common_flags() + test_tail(run.debug, opt_text(run.init_script))
}

/// The arguments for running all tests of a module.
pub open spec fn run_all_tests_args(run: GradleRun) -> Seq<Seq<char>> {
    seq![task_path(opt_text(run.module), "test"@)] + common_flags() + test_tail(
        run.debug,
        opt_text(run.init_script),
    )
}

/// The view of an optional `&str`.
pub open spec fn opt_str(o: Option<&str>) -> Option<Seq<char>> {
    match o {
        Some(s) => Some(s@),
        None => None,
    }
}

/// `Outer$Class` for a nested class, else the class.
fn full_class_text(outer: Option<&str>, class: &str) -> (r: String)
    ensures
        r@ == full_class(opt_str(outer), class@),
{
    match outer {
        Some(o) => {
            let mut r = owned(o);
            push_char(&mut r, '$');
            r.append(class);
            assert(r@ =~= o@ + seq!['$'] + class@);
            r
        },
        None => owned(class),
    }
}

/// `package.name`, or `name` in the default package.
fn in_package_text(package: &str, name: String) -> (r: String)
    ensures
        r@ == in_package(package@, name@),
{
    if package.is_empty() {
        name
    } else {
        let mut r = owned(package);
        push_char(&mut r, '.');
        r.append(name.as_str());
        assert(r@ =~= package@ + seq!['.'] + name@);
        r
    }
}

/// The task path for `task` in the module (or at the root).
fn task_path_text(module: &Option<String>, task: &str) -> (r: String)
    ensures
        r@ == task_path(opt_text(*module), task@),
{
    let mut r = String::new();
    push_char(&mut r, ':');
    match module {
        Some(m) => {
            let path = replace_char_text(m.as_str(), '/', ':');
            r.append(path.as_str());
            push_char(&mut r, ':');
            r.append(task);
            assert(r@ =~= seq![':'] + replace_char(m@, '/', ':') + seq![':'] + task@);
        },
        None => {
            r.append(task);
            assert(r@ =~= seq![':'] + task@);
        },
    }
    r
}

/// Appends `--console=plain --no-daemon`.
fn push_common_flags(args: &mut Vec<String>)
    ensures
        views(final(args)@) == views(old(args)@) + common_flags(),
{
    args.push(owned("--console=plain"));
    args.push(owned("--no-daemon"));
    assert(views(args@) =~= views(old(args)@) + common_flags());
}

/// Appends `-I <script>` when there is a script.
fn push_script_args(args: &mut Vec<String>, script: &Option<String>)
    ensures
        views(final(args)@) == views(old(args)@) + script_args(opt_text(*script)),
{
    match script {
        Some(p) => {
            args.push(owned("-I"));
            args.push(owned(p.as_str()));
            assert(views(args@) =~= views(old(args)@) + script_args(opt_text(*script)));
        },
        None => {
            assert(views(args@) =~= views(old(args)@) + script_args(opt_text(*script)));
        },
    }
}

/// Appends the flags that end a test run.
fn push_test_tail(args: &mut Vec<String>, run: &GradleRun)
    ensures
        views(final(args)@) == views(old(args)@) + test_tail(run.debug, opt_text(run.init_script)),
{
    let ghost start = views(args@);
    if run.debug {
        args.push(owned("--debug-jvm"));
    }
    push_script_args(args, &run.init_script);
    assert(views(args@) =~= start + test_tail(run.debug, opt_text(run.init_script)));
}

impl Gradle {
    /// The build rooted at `root`.
    pub fn new(root: String) -> (g: Self)
        ensures
            g@ == root@,
    {
        Gradle { root }
    }

    /// The build's root directory.
    pub fn root(&self) -> (r: &str)
        ensures
            r@ == self@,
    {
        self.root.as_str()
    }

    /// The files whose presence makes a directory a Gradle module.
    pub fn module_marker_files() -> (r: Vec<String>)
        ensures
            views(r@) == seq!["build.gradle"@, "build.gradle.kts"@],
    {
        let mut r: Vec<String> = Vec::new();
        r.push(owned("build.gradle"));
        r.push(owned("build.gradle.kts"));
        assert(views(r@) =~= seq!["build.gradle"@, "build.gradle.kts"@]);
        r
    }

    /// The command that runs a main class.
    pub fn run_class(&self, run: &GradleRun, package: &str, class: &str, outer: Option<&str>) -> (r:
        TaskCommand)
        ensures
            r.command@ == run.command@,
            views(r.args@) == run_class_args(*run, package@, class@, opt_str(outer)),
            r.cwd@ == self@,
    {
        let full_name = in_package_text(package, full_class_text(outer, class));
        let mut main_class = owned("-PmainClass=");
        main_class.append(full_name.as_str());
        assert(main_class@ =~= "-PmainClass="@ + in_package(package@, full_class(opt_str(outer), class@)));
        let mut args: Vec<String> = Vec::new();
        args.push(task_path_text(&run.module, "run"));
        args.push(main_class);
        push_common_flags(&mut args);
        let ghost before = views(args@);
        if run.debug {
            args.push(owned("--debug-jvm"));
            assert(views(args@) =~= before + seq!["--debug-jvm"@]);
            push_script_args(&mut args, &run.init_script);
        }
        assert(views(args@) =~= run_class_args(*run, package@, class@, opt_str(outer)));
        TaskCommand { command: owned(run.command.as_str()), args, cwd: owned(self.root.as_str()) }
    }

    /// The command that runs one test method.
    pub fn run_test_method(
        &self,
        run: &GradleRun,
        package: &str,
        class: &str,
        outer: Option<&str>,
        method: &str,
    ) -> (r: TaskCommand)
        ensures
            r.command@ == run.command@,
            views(r.args@) == run_test_method_args(*run, package@, class@, opt_str(outer), method@),
            r.cwd@ == self@,
    {
        let mut test = full_class_text(outer, class);
        push_char(&mut test, '.');
        test.append(method);
        assert(test@ =~= full_class(opt_str(outer), class@) + seq!['.'] + method@);
        let filter = in_package_text(package, test);
        let mut args: Vec<String> = Vec::new();
        args.push(task_path_text(&run.module, "test"));
        args.push(owned("--tests"));
        args.push(filter);
        push_common_flags(&mut args);
        push_test_tail(&mut args, run);
        assert(views(args@) =~= run_test_method_args(
            *run,
            package@,
            class@,
            opt_str(outer),
            method@,
        ));
        TaskCommand { command: owned(run.command.as_str()), args, cwd: owned(self.root.as_str()) }
    }

    /// The command that runs the tests of one class.
    pub fn run_test_class(&self, run: &GradleRun, package: &str, class: &str, outer: Option<&str>) -> (r:
        TaskCommand)
        ensures
            r.command@ == run.command@,
            views(r.args@) == run_test_class_args(*run, package@, class@, opt_str(outer)),
            r.cwd@ == self@,
    {
        let filter = in_package_text(package, full_class_text(outer, class));
        let mut args: Vec<String> = Vec::new();
        args.push(task_path_text(&run.module, "test"));
        args.push(owned("--tests"));
        args.push(filter);
        push_common_flags(&mut args);
        push_test_tail(&mut args, run);
        assert(views(args@) =~= run_test_class_args(*run, package@, class@, opt_str(outer)));
        TaskCommand { command: owned(run.command.as_str()), args, cwd: owned(self.root.as_str()) }
    }

    /// The command that runs all tests of the module.
    pub fn run_all_tests(&self, run: &GradleRun) -> (r: TaskCommand)
        ensures
            r.command@ == run.command@,
            views(r.args@) == run_all_tests_args(*run),
            r.cwd@ == self@,
    {
        let mut args: Vec<String> = Vec::new();
        args.push(task_path_text(&run.module, "test"));
        push_common_flags(&mut args);
        push_test_tail(&mut args, run);
        assert(views(args@) =~= run_all_tests_args(*run));
        TaskCommand { command: owned(run.command.as_str()), args, cwd: owned(self.root.as_str()) }
    }
}

/// The Gradle commands this build runs.
#[derive(PartialEq, Eq, Structural, Clone, Copy, Debug)]
pub enum GradleTaskKind {
    RunClass,
    RunTestMethod,
    RunTestClass,
    RunAllTests,
}

/// Which init script a run needs: `None` when it needs none (a plain run of a class),
/// else the debug port to write into it (`None` inside for a plain test run).
pub fn init_script_port(kind: GradleTaskKind, debug: bool, port: &str) -> (r: Option<Option<String>>)
    ensures
        debug ==> (r matches Some(Some(p)) && p@ == port@),
        !debug && kind == GradleTaskKind::RunClass ==> r is None,
        !debug && kind != GradleTaskKind::RunClass ==> r == Some(None::<String>),
{
    if debug {
        Some(Some(owned(port)))
    } else if kind == GradleTaskKind::RunClass {
        None
    } else {
        Some(None)
    }
}

// ---------------------------------------------------------------------------
// The init script
// ---------------------------------------------------------------------------

/// The name of the init script's file: one per debug port, one for plain runs.
pub open spec fn init_script_name(port: Option<Seq<char>>) -> Seq<char> {
    match port {
        Some(p) => "zed_debug_"@ + p + ".gradle"@,
        None => "zed_run.gradle"@,
    }
}

/// The `debugOptions` block that sets the debug port.
pub open spec fn debug_options(port: Seq<char>) -> Seq<char> {
    "        debugOptions {\n            port = "@ + port + "\n        }\n"@
}

/// The init script: it makes test tasks (and, when debugging, `JavaExec` tasks) never
/// up to date, and sets their debug port when there is one.
pub open spec fn init_script(port: Option<Seq<char>>) -> Seq<char> {
    let test_block = "allprojects {\n"@ + "    tasks.withType(Test) {\n"@
        + "        outputs.upToDateWhen { false }\n"@;
    match port {
        Some(p) => test_block + debug_options(p) + "    }\n"@ + "    tasks.withType(JavaExec) {\n"@
            + "        outputs.upToDateWhen { false }\n"@ + debug_options(p) + "    }\n"@ + "}\n"@,
        None => test_block + "    }\n"@ + "}\n"@,
    }
}

/// The file name of the init script.
pub fn init_script_file_name(port: Option<&str>) -> (r: String)
    ensures
        r@ == init_script_name(opt_str(port)),
{
    match port {
        Some(p) => {
            let mut r = owned("zed_debug_");
            r.append(p);
            r.append(".gradle");
            r
        },
        None => owned("zed_run.gradle"),
    }
}

/// Appends the `debugOptions` block.
fn push_debug_options(content: &mut String, port: &str)
    ensures
        final(content)@ == old(content)@ + debug_options(port@),
{
    content.append("        debugOptions {\n            port = ");
    content.append(port);
    content.append("\n        }\n");
    assert(content@ =~= old(content)@ + debug_options(port@));
}

/// The text of the init script.
pub fn init_script_content(port: Option<&str>) -> (r: String)
    ensures
        r@ == init_script(opt_str(port)),
{
    let mut content = String::new();
    content.append("allprojects {\n");
    content.append("    tasks.withType(Test) {\n");
    content.append("        outputs.upToDateWhen { false }\n");
    if let Some(p) = port {
        push_debug_options(&mut content, p);
    }
    content.append("    }\n");
    if let Some(p) = port {
        content.append("    tasks.withType(JavaExec) {\n");
        content.append("        outputs.upToDateWhen { false }\n");
        push_debug_options(&mut content, p);
        content.append("    }\n");
    }
    content.append("}\n");
    assert(content@ =~= init_script(opt_str(port)));
    content
}

// ---------------------------------------------------------------------------
// Laws
// ---------------------------------------------------------------------------

/// Text placed between two others is contained in the whole.
proof fn lemma_contains_middle(a: Seq<char>, p: Seq<char>, b: Seq<char>)
    ensures
        contains_text(a + p + b, p),
{
    assert(matches_at(a + p + b, p, a.len() as int));
}

/// Containment carries over to any text that contains the container.
proof fn lemma_contains_transitive(s: Seq<char>, t: Seq<char>, u: Seq<char>)
    requires
        contains_text(s, t),
        contains_text(t, u),
    ensures
        contains_text(s, u),
{
    let i = choose|i: int| matches_at(s, t, i);
    let j = choose|j: int| matches_at(t, u, j);
    assert forall|k: int| 0 <= k < u.len() implies #[trigger] s[(i + j) + k] == u[k] by {
        assert(t[j + k] == u[k]);
        assert(s[i + (j + k)] == t[j + k]);
    }
    assert(matches_at(s, u, i + j));
}

/// A text without the character `c` contains no text that starts with `c`.
proof fn lemma_absent_first_char(s: Seq<char>, p: Seq<char>)
    requires
        p.len() > 0,
        !s.contains(p[0]),
    ensures
        !contains_text(s, p),
{
    if contains_text(s, p) {
        let i = choose|i: int| matches_at(s, p, i);
        assert(s[i + 0] == p[0]);
    }
}

/// The init script always turns off Gradle's up-to-date check for test tasks; with a
/// port it sets `debugOptions` with `port = <port>`, and without one it has no
/// `debugOptions` at all.
pub proof fn lemma_init_script_contents(port: Option<Seq<char>>)
    ensures
        contains_text(init_script(port), "outputs.upToDateWhen { false }"@),
        port matches Some(p) ==> contains_text(init_script(port), "debugOptions"@)
            && contains_text(init_script(port), "port = "@ + p),
        port is None ==> !contains_text(init_script(port), "debugOptions"@),
{
    reveal_strlit("outputs.upToDateWhen { false }");
    reveal_strlit("        outputs.upToDateWhen { false }\n");
    let up_line = "        outputs.upToDateWhen { false }\n"@;
    let up = "outputs.upToDateWhen { false }"@;
    assert(up_line =~= seq![' ', ' ', ' ', ' ', ' ', ' ', ' ', ' '] + up + seq!['\n']);
    lemma_contains_middle(seq![' ', ' ', ' ', ' ', ' ', ' ', ' ', ' '], up, seq!['\n']);
    let head = "allprojects {\n"@ + "    tasks.withType(Test) {\n"@;
    match port {
        Some(p) => {
            let rest = debug_options(p) + "    }\n"@ + "    tasks.withType(JavaExec) {\n"@
                + "        outputs.upToDateWhen { false }\n"@ + debug_options(p) + "    }\n"@
                + "}\n"@;
            assert(init_script(port) =~= head + up_line + rest);
            lemma_contains_middle(head, up_line, rest);
            lemma_contains_transitive(init_script(port), up_line, up);
            reveal_strlit("        debugOptions {\n            port = ");
            reveal_strlit("debugOptions");
            reveal_strlit("port = ");
            let open_block = "        debugOptions {\n            port = "@;
            let close_block = "\n        }\n"@;
            assert(open_block =~= seq![' ', ' ', ' ', ' ', ' ', ' ', ' ', ' '] + "debugOptions"@
                + seq![' ', '{', '\n', ' ', ' ', ' ', ' ', ' ', ' ', ' ', ' ', ' ', ' ', ' ', ' ']
                + "port = "@);
            let before_port = seq![' ', ' ', ' ', ' ', ' ', ' ', ' ', ' '] + "debugOptions"@
                + seq![' ', '{', '\n', ' ', ' ', ' ', ' ', ' ', ' ', ' ', ' ', ' ', ' ', ' ', ' '];
            assert(debug_options(p) =~= before_port + ("port = "@ + p) + close_block);
            lemma_contains_middle(before_port, "port = "@ + p, close_block);
            let lead = seq![' ', ' ', ' ', ' ', ' ', ' ', ' ', ' '];
            let trail = seq![' ', '{', '\n', ' ', ' ', ' ', ' ', ' ', ' ', ' ', ' ', ' ', ' ', ' ', ' ']
                + "port = "@ + p + close_block;
            assert(debug_options(p) =~= lead + "debugOptions"@ + trail);
            lemma_contains_middle(lead, "debugOptions"@, trail);
            let after = "    }\n"@ + "    tasks.withType(JavaExec) {\n"@
                + "        outputs.upToDateWhen { false }\n"@ + debug_options(p) + "    }\n"@
                + "}\n"@;
            assert(init_script(port) =~= (head + up_line) + debug_options(p) + after);
            lemma_contains_middle(head + up_line, debug_options(p), after);
            lemma_contains_transitive(init_script(port), debug_options(p), "debugOptions"@);
            lemma_contains_transitive(init_script(port), debug_options(p), "port = "@ + p);
        },
        None => {
            let tail = "    }\n"@ + "}\n"@;
            assert(init_script(port) =~= head + up_line + tail);
            lemma_contains_middle(head, up_line, tail);
            lemma_contains_transitive(init_script(port), up_line, up);
            reveal_strlit("allprojects {\n");
            reveal_strlit("    tasks.withType(Test) {\n");
            reveal_strlit("    }\n");
            reveal_strlit("}\n");
            let text = init_script(port);
            assert(text =~= seq!['a', 'l', 'l', 'p', 'r', 'o', 'j', 'e', 'c', 't', 's', ' ', '{', '\n']
                + seq![' ', ' ', ' ', ' ', 't', 'a', 's', 'k', 's', '.', 'w', 'i', 't', 'h', 'T', 'y', 'p', 'e', '(', 'T', 'e', 's', 't', ')', ' ', '{', '\n']
                + up_line + seq![' ', ' ', ' ', ' ', '}', '\n'] + seq!['}', '\n']);
            assert(!text.contains('d')) by {
                if text.contains('d') {
                    let i = choose|i: int| 0 <= i < text.len() && text[i] == 'd';
                    assert(false);
                }
            }
            reveal_strlit("debugOptions");
            assert("debugOptions"@[0] == 'd');
            lemma_absent_first_char(text, "debugOptions"@);
        },
    }
}

/// Every Gradle command runs with plain console output and without a daemon, and a
/// debug run passes `--debug-jvm`; a test run passes the init script it was given.
pub proof fn lemma_gradle_flags(
    run: GradleRun,
    package: Seq<char>,
    class: Seq<char>,
    outer: Option<Seq<char>>,
    method: Seq<char>,
)
    ensures
        run_class_args(run, package, class, outer).contains("--console=plain"@),
        run_class_args(run, package, class, outer).contains("--no-daemon"@),
        run_test_method_args(run, package, class, outer, method).contains("--console=plain"@),
        run_test_method_args(run, package, class, outer, method).contains("--no-daemon"@),
        run_test_class_args(run, package, class, outer).contains("--console=plain"@),
        run_test_class_args(run, package, class, outer).contains("--no-daemon"@),
        run_all_tests_args(run).contains("--console=plain"@),
        run_all_tests_args(run).contains("--no-daemon"@),
        run.debug ==> run_class_args(run, package, class, outer).contains("--debug-jvm"@),
        run.debug ==> run_test_method_args(run, package, class, outer, method).contains(
            "--debug-jvm"@,
        ),
        run.debug ==> run_test_class_args(run, package, class, outer).contains("--debug-jvm"@),
        run.debug ==> run_all_tests_args(run).contains("--debug-jvm"@),
        run.init_script matches Some(p) ==> {
            let a = run_test_class_args(run, package, class, outer);
            a[a.len() - 2] == "-I"@ && a[a.len() - 1] == p@
        },
        run.init_script matches Some(p) ==> {
            let a = run_test_method_args(run, package, class, outer, method);
            a[a.len() - 2] == "-I"@ && a[a.len() - 1] == p@
        },
        run.init_script matches Some(p) ==> {
            let a = run_all_tests_args(run);
            a[a.len() - 2] == "-I"@ && a[a.len() - 1] == p@
        },
        run.debug ==> (run.init_script matches Some(p) ==> {
            let a = run_class_args(run, package, class, outer);
            a[a.len() - 2] == "-I"@ && a[a.len() - 1] == p@
        }),
{
    let rc = run_class_args(run, package, class, outer);
    let rm = run_test_method_args(run, package, class, outer, method);
    let rt = run_test_class_args(run, package, class, outer);
    let ra = run_all_tests_args(run);
    assert(rc[2] == "--console=plain"@ && rc[3] == "--no-daemon"@);
    assert(rm[3] == "--console=plain"@ && rm[4] == "--no-daemon"@);
    assert(rt[3] == "--console=plain"@ && rt[4] == "--no-daemon"@);
    assert(ra[1] == "--console=plain"@ && ra[2] == "--no-daemon"@);
    if run.debug {
        assert(rc[4] == "--debug-jvm"@);
        assert(rm[5] == "--debug-jvm"@);
        assert(rt[5] == "--debug-jvm"@);
        assert(ra[3] == "--debug-jvm"@);
    }
}

/// Every Gradle command starts with the task path of the file's module: `:` and the
/// module with each `/` turned into `:`, then `:test` (or `:run` to run a class); just
/// `:test` (or `:run`) when the file is in no module. The tests of a method, of a class
/// and of the whole module run the same task; a method's test filter is its class's
/// filter followed by `.` and the method, and a class runs as the main class its tests
/// filter on: `package.` (nothing in the default package), then `Outer$` for a nested
/// class, then the class.
pub proof fn lemma_gradle_task_paths(
    run: GradleRun,
    package: Seq<char>,
    class: Seq<char>,
    outer: Option<Seq<char>>,
    method: Seq<char>,
)
    ensures
        ({
            let rc = run_class_args(run, package, class, outer);
            let rm = run_test_method_args(run, package, class, outer, method);
            let rt = run_test_class_args(run, package, class, outer);
            let ra = run_all_tests_args(run);
            &&& rt[0] == ra[0]
            &&& rm[0] == ra[0]
            &&& rm[1] == "--tests"@ && rt[1] == "--tests"@
            &&& rm[2] == rt[2] + seq!['.'] + method
            &&& rc[1] == "-PmainClass="@ + rt[2]
            &&& rt[2] == (if package.len() > 0 {
                package + seq!['.']
            } else {
                Seq::empty()
            }) + match outer {
                Some(o) => o + seq!['$'] + class,
                None => class,
            }
            &&& run.module is None ==> ra[0] == ":test"@ && rc[0] == ":run"@
            &&& run.module matches Some(m) ==> {
                &&& ra[0].len() == m@.len() + 6
                &&& rc[0].len() == m@.len() + 5
                &&& ra[0][0] == ':' && rc[0][0] == ':'
                &&& forall|i: int|
                    0 <= i < m@.len() ==> #[trigger] ra[0][1 + i] == (if m@[i] == '/' {
                        ':'
                    } else {
                        m@[i]
                    }) && rc[0][1 + i] == ra[0][1 + i]
                &&& ra[0].subrange(m@.len() + 1int, m@.len() + 6int) == ":test"@
                &&& rc[0].subrange(m@.len() + 1int, m@.len() + 5int) == ":run"@
            }
        }),
{
    let rc = run_class_args(run, package, class, outer);
    let rm = run_test_method_args(run, package, class, outer, method);
    let rt = run_test_class_args(run, package, class, outer);
    let ra = run_all_tests_args(run);
    reveal_strlit(":test");
    reveal_strlit(":run");
    reveal_strlit("test");
    reveal_strlit("run");
    assert(rc[0] == task_path(opt_text(run.module), "run"@));
    assert(ra[0] == task_path(opt_text(run.module), "test"@));
    assert(rt[0] == ra[0] && rm[0] == ra[0]);
    assert(rm[1] == "--tests"@ && rt[1] == "--tests"@);
    let fc = full_class(outer, class);
    assert(in_package(package, fc + seq!['.'] + method) =~= in_package(package, fc) + seq!['.']
        + method);
    assert(rm[2] == rt[2] + seq!['.'] + method);
    assert(rc[1] == "-PmainClass="@ + rt[2]);
    assert(rt[2] =~= (if package.len() > 0 {
        package + seq!['.']
    } else {
        Seq::empty()
    }) + match outer {
        Some(o) => o + seq!['$'] + class,
        None => class,
    });
    match run.module {
        None => {
            assert(ra[0] =~= ":test"@);
            assert(rc[0] =~= ":run"@);
        },
        Some(m) => {
            let r = replace_char(m@, '/', ':');
            assert(ra[0] == seq![':'] + r + seq![':'] + "test"@);
            assert(rc[0] == seq![':'] + r + seq![':'] + "run"@);
            assert forall|i: int| 0 <= i < m@.len() implies #[trigger] ra[0][1 + i] == (if m@[i]
                == '/' {
                ':'
            } else {
                m@[i]
            }) && rc[0][1 + i] == ra[0][1 + i] by {
                assert(ra[0][1 + i] == r[i]);
                assert(rc[0][1 + i] == r[i]);
            }
            assert(ra[0].subrange(m@.len() + 1int, m@.len() + 6int) =~= ":test"@);
            assert(rc[0].subrange(m@.len() + 1int, m@.len() + 5int) =~= ":run"@);
        },
    }
}

} // verus!
