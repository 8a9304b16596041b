//! Finding a class's source file in a workspace and reading its package.
//!
//! The file system is walked by the caller; this module decides what the walk
//! looks at, which file it settles on, and what name the class then has.
use vstd::prelude::*;
use crate::text::{
    chars_of, ends_with, has_prefix, has_suffix, join, join_first, lemma_split_on_append,
    lemma_split_on_join, lemma_split_on_nonempty, lemma_split_on_pieces, lemma_split_on_without,
    owned, push_char, split_on, split_text, starts_with, string_from_chars, text_eq, trim,
    trim_text, views,
};

verus! {

// ---------------------------------------------------------------------------
// The package declaration of a Java source file
// ---------------------------------------------------------------------------

/// The keyword that starts a package declaration, with its space.
pub open spec fn package_keyword() -> Seq<char> {
    "package "@
}

/// A line that, trimmed, starts with `package ` and ends with `;`.
pub open spec fn is_package_line(line: Seq<char>) -> bool {
    let t = trim(line);
    has_prefix(t, package_keyword()) && has_suffix(t, seq![';'])
}

/// The package that a package line declares: what stands between `package ` and `;`,
/// trimmed.
pub open spec fn package_of_line(line: Seq<char>) -> Seq<char> {
    let t = trim(line);
    trim(t.subrange(package_keyword().len() as int, t.len() - 1))
}

/// The index of the first package line among `lines[i..]`.
pub open spec fn first_package_line_from(lines: Seq<Seq<char>>, i: int) -> Option<int>
    decreases lines.len() - i,
{
    if i < 0 || i >= lines.len() {
        None
    } else if is_package_line(lines[i]) {
        Some(i)
    } else {
        first_package_line_from(lines, i + 1)
    }
}

/// The package that a source file declares: that of its first package line, if any.
pub open spec fn declared_package(content: Seq<char>) -> Option<Seq<char>> {
    let lines = split_on(content, '\n');
    match first_package_line_from(lines, 0) {
        Some(k) => Some(package_of_line(lines[k])),
        None => None,
    }
}

/// The package declared by a line, if it is a package line.
fn package_of_line_text(line: &str) -> (r: Option<String>)
    ensures
        r matches Some(p) ==> is_package_line(line@) && p@ == package_of_line(line@),
        r is None ==> !is_package_line(line@),
{
    let t = trim_text(line);
    let keyword = "package ";
    proof {
        reveal_strlit("package ");
        reveal_strlit(";");
        assert(";"@ =~= seq![';']);
    }
    if starts_with(t.as_str(), keyword) && ends_with(t.as_str(), ";") {
        let v = chars_of(t.as_str());
        let klen = keyword.unicode_len();
        proof {
            assert(v@.take(8)[7] == ' ');
            assert(v@.skip(v@.len() - 1)[0] == ';');
        }
        let inner = string_from_chars(&v, klen, v.len() - 1);
        let p = trim_text(inner.as_str());
        Some(p)
    } else {
        None
    }
}

/// The package that a Java source file declares (its first `package ...;` line).
pub fn package_declaration(content: &str) -> (r: Option<String>)
    ensures
        r matches Some(p) ==> declared_package(content@) == Some(p@),
        r is None ==> declared_package(content@) is None,
{
    let lines = split_text(content, '\n');
    let ghost ls = split_on(content@, '\n');
    let mut i: usize = 0;
    while i < lines.len()
        invariant
            views(lines@) == ls,
            ls == split_on(content@, '\n'),
            i <= lines.len(),
            first_package_line_from(ls, 0) == first_package_line_from(ls, i as int),
        decreases lines.len() - i,
    {
        assert(views(lines@)[i as int] == lines@[i as int]@);
        if let Some(p) = package_of_line_text(lines[i].as_str()) {
            return Some(p);
        }
        i = i + 1;
    }
    None
}

/// `package` is the package `suffix`, or a package that ends in `.` followed by it.
pub open spec fn package_matches(package: Seq<char>, suffix: Seq<char>) -> bool {
    package == suffix || has_suffix(package, seq!['.'] + suffix)
}

/// Whether `package` is `suffix` or ends with `.suffix`.
pub fn package_matches_suffix(package: &str, suffix: &str) -> (r: bool)
    ensures
        r == package_matches(package@, suffix@),
{
    if text_eq(package, suffix) {
        return true;
    }
    let mut dotted = String::new();
    push_char(&mut dotted, '.');
    dotted.append(suffix);
    ends_with(package, dotted.as_str())
}

// ---------------------------------------------------------------------------
// The file a class lives in
// ---------------------------------------------------------------------------

/// What locating a class in the workspace looks for.
pub struct ClassFileQuery {
    /// The simple name of the outer class.
    pub class_name: String,
    /// `<class_name>.java`.
    pub file_name: String,
    /// The package that the class name gives, when it gives one.
    pub package_suffix: Option<String>,
    /// The nested classes after the outer one (`Outer$Inner` gives `Inner`).
    pub nested: Vec<String>,
}

/// The pieces of a class name between `$`.
pub open spec fn nesting(fqcn: Seq<char>) -> Seq<Seq<char>> {
    split_on(fqcn, '$')
}

/// The dot-separated pieces of the outer class's name.
pub open spec fn outer_pieces(fqcn: Seq<char>) -> Seq<Seq<char>> {
    split_on(nesting(fqcn)[0], '.')
}

/// The simple name of the outer class.
pub open spec fn outer_class_name(fqcn: Seq<char>) -> Seq<char> {
    outer_pieces(fqcn).last()
}

/// The package part of the outer class's name, when it has one.
pub open spec fn package_part(fqcn: Seq<char>) -> Option<Seq<char>> {
    let p = outer_pieces(fqcn);
    if p.len() > 1 {
        Some(join(p.drop_last(), "."@))
    } else {
        None
    }
}

/// The view of an optional `String`.
pub open spec fn opt_view(o: Option<String>) -> Option<Seq<char>> {
    match o {
        Some(s) => Some(s@),
        None => None,
    }
}

impl ClassFileQuery {
    /// The query is the one for the class name `fqcn`.
    pub open spec fn describes(&self, fqcn: Seq<char>) -> bool {
        &&& self.class_name@ == outer_class_name(fqcn)
        &&& self.file_name@ == outer_class_name(fqcn) + ".java"@
        &&& opt_view(self.package_suffix) == package_part(fqcn)
        &&& views(self.nested@) == nesting(fqcn).drop_first()
    }
}

/// What to look for to find the source of the class `target_fqcn`
/// (`pkg.Outer$Inner` is looked for as `Outer.java` in a package ending in `pkg`).
pub fn class_file_query(target_fqcn: &str) -> (q: ClassFileQuery)
    ensures
        q.describes(target_fqcn@),
{
    let parts = split_text(target_fqcn, '$');
    let outer_parts = split_text(parts[0].as_str(), '.');
    proof {
        assert(views(parts@)[0] == parts@[0]@);
        lemma_split_on_nonempty(target_fqcn@, '$');
    }
    let last: usize = outer_parts.len() - 1;
    let class_name = owned(outer_parts[last].as_str());
    assert(views(outer_parts@)[last as int] == outer_parts@[last as int]@);
    let mut file_name = owned(class_name.as_str());
    file_name.append(".java");
    let package_suffix = if outer_parts.len() > 1 {
        let joined = join_first(&outer_parts, last, ".");
        assert(views(outer_parts@).take(last as int) =~= views(outer_parts@).drop_last());
        Some(joined)
    } else {
        None
    };
    let mut nested: Vec<String> = Vec::new();
    let mut i: usize = 1;
    while i < parts.len()
        invariant
            1 <= i <= parts.len(),
            views(nested@) == views(parts@).subrange(1, i as int),
        decreases parts.len() - i,
    {
        assert(views(parts@)[i as int] == parts@[i as int]@);
        let ghost before = views(nested@);
        let piece = owned(parts[i].as_str());
        nested.push(piece);
        assert(views(nested@) =~= before.push(piece@));
        assert(views(nested@) =~= views(parts@).subrange(1, i + 1));
        i = i + 1;
    }
    assert(views(parts@).subrange(1, parts.len() as int) =~= views(parts@).drop_first());
    ClassFileQuery { class_name, file_name, package_suffix, nested }
}

/// `base` followed by `$n` for each nested class `n`.
pub open spec fn with_nested(base: Seq<char>, nested: Seq<Seq<char>>) -> Seq<char>
    decreases nested.len(),
{
    if nested.len() == 0 {
        base
    } else {
        with_nested(base, nested.drop_last()) + seq!['$'] + nested.last()
    }
}

/// `package.class` followed by `$n` for each nested class `n`.
pub open spec fn qualified_name(package: Seq<char>, class: Seq<char>, nested: Seq<Seq<char>>) -> Seq<
    char,
> {
    with_nested(package + seq!['.'] + class, nested)
}

/// Appends `$n` to `r` for each nested class `n`.
pub fn append_nested(r: &mut String, nested: &Vec<String>)
    ensures
        final(r)@ == with_nested(old(r)@, views(nested@)),
{
    let ghost base = r@;
    let mut i: usize = 0;
    assert(views(nested@).take(0) =~= Seq::<Seq<char>>::empty());
    while i < nested.len()
        invariant
            i <= nested.len(),
            r@ == with_nested(base, views(nested@).take(i as int)),
        decreases nested.len() - i,
    {
        push_char(r, '$');
        r.append(nested[i].as_str());
        assert(views(nested@).take(i + 1).drop_last() =~= views(nested@).take(i as int));
        i = i + 1;
    }
    assert(views(nested@).take(nested.len() as int) =~= views(nested@));
}

/// The class's fully qualified name, given the package its file declares.
pub fn qualified_class_name(package: &str, query: &ClassFileQuery) -> (r: String)
    ensures
        r@ == qualified_name(package@, query.class_name@, views(query.nested@)),
{
    let mut r = owned(package);
    push_char(&mut r, '.');
    r.append(query.class_name.as_str());
    assert(r@ =~= package@ + seq!['.'] + query.class_name@);
    append_nested(&mut r, &query.nested);
    r
}

/// The class's name as its source file gives it: the declared package, the class,
/// and the nested classes; `None` when the file could not be read or declares no package.
pub fn fqcn_from_source(query: &ClassFileQuery, content: Option<&str>) -> (r: Option<String>)
    ensures
        opt_view(r) == match content {
            Some(c) => match declared_package(c@) {
                Some(p) => Some(qualified_name(p, query.class_name@, views(query.nested@))),
                None => None,
            },
            None => None,
        },
{
    match content {
        Some(c) => match package_declaration(c) {
            Some(p) => Some(qualified_class_name(p.as_str(), query)),
            None => None,
        },
        None => None,
    }
}

// ---------------------------------------------------------------------------
// The walk over the workspace
// ---------------------------------------------------------------------------

/// The directories that the walk never enters.
pub open spec fn skipped_directory(name: Seq<char>) -> bool {
    ||| name == ".git"@
    ||| name == "build"@
    ||| name == "target"@
    ||| name == "bin"@
    ||| name == ".gradle"@
    ||| name == "node_modules"@
    ||| name == ".idea"@
    ||| name == ".settings"@
}

/// Whether the walk leaves the directory `name` out.
pub fn is_skipped_directory(name: &str) -> (r: bool)
    ensures
        r == skipped_directory(name@),
{
    text_eq(name, ".git") || text_eq(name, "build") || text_eq(name, "target") || text_eq(
        name,
        "bin",
    ) || text_eq(name, ".gradle") || text_eq(name, "node_modules") || text_eq(name, ".idea")
        || text_eq(name, ".settings")
}

/// What a directory entry is.
#[derive(PartialEq, Eq, Structural, Clone, Copy)]
pub enum EntryKind {
    Directory,
    File,
    Other,
}

/// One entry of a directory listing: its path, its file name when that is readable
/// text, and what it is.
pub struct DirEntryInfo {
    pub path: String,
    pub name: Option<String>,
    pub kind: EntryKind,
}

/// What the walk does after looking at an entry.
pub enum SearchStep {
    /// Go on with the next entry.
    Continue,
    /// The class's file is this one; the walk is over.
    Found(String),
    /// The file has the right name: read it and hand its text to `package_read`.
    ReadPackage(String),
    /// A directory without a readable name was met: the walk is over, without a result.
    Abandon,
}

/// The state of a depth-first walk for a class's source file.
pub struct WorkspaceSearch {
    pending: Vec<String>,
    best: Option<String>,
    target_name: String,
    package_suffix: Option<String>,
    reading: Option<String>,
}

/// What a `WorkspaceSearch` holds: the directories still to list (the last is listed
/// next), the first file of the right name whose package did not match, the file name
/// looked for, the package it should be in, and the file whose text the walk waits
/// for.
pub struct SearchView {
    pub pending: Seq<Seq<char>>,
    pub best: Option<Seq<char>>,
    pub target_name: Seq<char>,
    pub package_suffix: Option<Seq<char>>,
    pub reading: Option<Seq<char>>,
}

impl View for WorkspaceSearch {
    type V = SearchView;

    closed spec fn view(&self) -> SearchView {
        SearchView {
            pending: views(self.pending@),
            best: opt_view(self.best),
            target_name: self.target_name@,
            package_suffix: opt_view(self.package_suffix),
            reading: opt_view(self.reading),
        }
    }
}

/// The file's text puts it in the package looked for.
pub open spec fn source_matches(content: Option<Seq<char>>, suffix: Option<Seq<char>>) -> bool {
    match suffix {
        None => true,
        Some(s) => match content {
            Some(c) => match declared_package(c) {
                Some(p) => package_matches(p, s),
                None => false,
            },
            None => false,
        },
    }
}

/// What a directory entry holds.
pub struct EntryView {
    pub path: Seq<char>,
    pub name: Option<Seq<char>>,
    pub kind: EntryKind,
}

impl View for DirEntryInfo {
    type V = EntryView;

    open spec fn view(&self) -> EntryView {
        EntryView { path: self.path@, name: opt_view(self.name), kind: self.kind }
    }
}

/// What a step of the walk says.
pub enum StepView {
    Continue,
    Found(Seq<char>),
    ReadPackage(Seq<char>),
    Abandon,
}

impl View for SearchStep {
    type V = StepView;

    open spec fn view(&self) -> StepView {
        match self {
            SearchStep::Continue => StepView::Continue,
            SearchStep::Found(p) => StepView::Found(p@),
            SearchStep::ReadPackage(p) => StepView::ReadPackage(p@),
            SearchStep::Abandon => StepView::Abandon,
        }
    }
}

/// Taking the next directory to list: the last one found, if any is left.
pub open spec fn next_directory_spec(s: SearchView) -> (SearchView, Option<Seq<char>>) {
    if s.pending.len() == 0 {
        (s, None)
    } else {
        (SearchView { pending: s.pending.drop_last(), ..s }, Some(s.pending.last()))
    }
}

/// Looking at one entry of the directory being listed: a directory without a
/// readable name ends the walk; any other directory is kept for later unless it is
/// one the walk never enters; a file of the right name is the result when no package
/// is asked for, else its text is asked for; anything else is passed over.
pub open spec fn visit_spec(s: SearchView, e: EntryView) -> (SearchView, StepView) {
    match e.kind {
        EntryKind::Directory => match e.name {
            None => (s, StepView::Abandon),
            Some(n) => (
                if skipped_directory(n) {
                    s
                } else {
                    SearchView { pending: s.pending.push(e.path), ..s }
                },
                StepView::Continue,
            ),
        },
        EntryKind::File => if e.name == Some(s.target_name) {
            if s.package_suffix is None {
                (s, StepView::Found(e.path))
            } else {
                (SearchView { reading: Some(e.path), ..s }, StepView::ReadPackage(e.path))
            }
        } else {
            (s, StepView::Continue)
        },
        EntryKind::Other => (s, StepView::Continue),
    }
}

/// Taking the text of the file asked for: the file is the result when its package
/// matches; otherwise it becomes the best match if there is none yet.
pub open spec fn package_read_spec(s: SearchView, content: Option<Seq<char>>) -> (
    SearchView,
    Option<Seq<char>>,
) {
    match s.reading {
        None => (s, None),
        Some(path) => if source_matches(content, s.package_suffix) {
            (SearchView { reading: None, ..s }, Some(path))
        } else {
            (
                SearchView {
                    best: if s.best is None {
                        Some(path)
                    } else {
                        s.best
                    },
                    reading: None,
                    ..s
                },
                None,
            )
        },
    }
}

impl WorkspaceSearch {
    /// A walk that starts at `root`, looking for `target_name` in a package that is, or
    /// ends with, `package_suffix`.
    pub fn new(root: String, target_name: String, package_suffix: Option<String>) -> (s: Self)
        ensures
            s@.pending == seq![root@],
            s@.best is None,
            s@.target_name == target_name@,
            s@.package_suffix == opt_view(package_suffix),
            s@.reading is None,
    {
        let mut pending: Vec<String> = Vec::new();
        pending.push(root);
        let s = WorkspaceSearch { pending, best: None, target_name, package_suffix, reading: None };
        assert(s@.pending =~= seq![s.pending@[0]@]);
        s
    }

    /// The next directory to list (the most recently found one), taken off the list;
    /// `None` when there is none left and the walk is over.
    pub fn next_directory(&mut self) -> (r: Option<String>)
        ensures
            (final(self)@, opt_view(r)) == next_directory_spec(old(self)@),
    {
        if self.pending.len() == 0 {
            return None;
        }
        let r = self.pending.pop();
        assert(views(self.pending@) =~= views(old(self).pending@).drop_last());
        assert(views(old(self).pending@).last() == old(self).pending@.last()@);
        r
    }

    /// The file that the walk settles on once no directory is left: the first file of the
    /// right name that it met.
    pub fn best_match(&self) -> (r: Option<String>)
        ensures
            opt_view(r) == self@.best,
    {
        match &self.best {
            Some(b) => Some(owned(b.as_str())),
            None => None,
        }
    }

    /// Looks at one entry of the directory being listed.
    pub fn visit(&mut self, entry: DirEntryInfo) -> (step: SearchStep)
        ensures
            (final(self)@, step@) == visit_spec(old(self)@, entry@),
    {
        match entry.kind {
            EntryKind::Directory => match entry.name {
                None => SearchStep::Abandon,
                Some(n) => {
                    if !is_skipped_directory(n.as_str()) {
                        self.pending.push(entry.path);
                        assert(views(self.pending@) =~= views(old(self).pending@).push(
                            entry.path@,
                        ));
                    }
                    SearchStep::Continue
                },
            },
            EntryKind::File => {
                let is_target = match &entry.name {
                    Some(n) => text_eq(n.as_str(), self.target_name.as_str()),
                    None => false,
                };
                if is_target {
                    if self.package_suffix.is_none() {
                        SearchStep::Found(entry.path)
                    } else {
                        self.reading = Some(owned(entry.path.as_str()));
                        SearchStep::ReadPackage(entry.path)
                    }
                } else {
                    SearchStep::Continue
                }
            },
            EntryKind::Other => SearchStep::Continue,
        }
    }

    /// Takes the text of the file that the last `ReadPackage` step asked for (`None`
    /// when it could not be read): that file is the result when its package matches;
    /// otherwise it becomes the best match if there is none yet, and the walk goes on.
    /// Without a file asked for, nothing happens.
    pub fn package_read(&mut self, content: Option<String>) -> (r: Option<String>)
        ensures
            (final(self)@, opt_view(r)) == package_read_spec(old(self)@, opt_view(content)),
    {
        let path = match self.reading.take() {
            Some(p) => p,
            None => return None,
        };
        let matches = match &self.package_suffix {
            None => true,
            Some(suffix) => match &content {
                Some(c) => match package_declaration(c.as_str()) {
                    Some(p) => package_matches_suffix(p.as_str(), suffix.as_str()),
                    None => false,
                },
                None => false,
            },
        };
        if matches {
            Some(path)
        } else {
            if self.best.is_none() {
                self.best = Some(path);
            }
            None
        }
    }
}

// ---------------------------------------------------------------------------
// The project a file belongs to
// ---------------------------------------------------------------------------

/// The build files that mark a project's directory.
pub open spec fn is_project_marker(name: Seq<char>) -> bool {
    name == "build.gradle"@ || name == "build.gradle.kts"@ || name == "pom.xml"@
}

/// The names of the files that mark a project's directory.
pub fn project_marker_files() -> (r: Vec<String>)
    ensures
        views(r@) == seq!["build.gradle"@, "build.gradle.kts"@, "pom.xml"@],
{
    let mut r: Vec<String> = Vec::new();
    r.push(owned("build.gradle"));
    r.push(owned("build.gradle.kts"));
    r.push(owned("pom.xml"));
    assert(views(r@) =~= seq!["build.gradle"@, "build.gradle.kts"@, "pom.xml"@]);
    r
}

/// A directory on the way from a file up to the file system's root: its name when
/// that is readable text, and whether one of the project marker files is in it.
pub struct AncestorDir {
    pub name: Option<String>,
    pub has_build_file: bool,
}

/// The index of the first marked directory among `dirs[i..]`.
pub open spec fn first_marked_from(dirs: Seq<AncestorDir>, i: int) -> Option<int>
    decreases dirs.len() - i,
{
    if i < 0 || i >= dirs.len() {
        None
    } else if dirs[i].has_build_file {
        Some(i)
    } else {
        first_marked_from(dirs, i + 1)
    }
}

/// The project name given the directories from the file upward (nearest first): the
/// name of the nearest one that holds a build file; `None` when none does or that one
/// has no readable name.
pub fn find_project_name(ancestors: &Vec<AncestorDir>) -> (r: Option<String>)
    ensures
        opt_view(r) == match first_marked_from(ancestors@, 0) {
            Some(k) => opt_view(ancestors@[k].name),
            None => None,
        },
{
    let mut i: usize = 0;
    while i < ancestors.len()
        invariant
            i <= ancestors.len(),
            first_marked_from(ancestors@, 0) == first_marked_from(ancestors@, i as int),
        decreases ancestors.len() - i,
    {
        if ancestors[i].has_build_file {
            return match &ancestors[i].name {
                Some(n) => Some(owned(n.as_str())),
                None => None,
            };
        }
        i = i + 1;
    }
    None
}

// ---------------------------------------------------------------------------
// Laws
// ---------------------------------------------------------------------------

/// Joining what `c` splits, with `c` between the pieces, gives the text back.
pub proof fn lemma_join_split(s: Seq<char>, c: char)
    ensures
        join(split_on(s, c), seq![c]) == s,
    decreases s.len(),
{
    lemma_split_on_nonempty(s, c);
    if s.len() == 0 {
        assert(split_on(s, c) =~= seq![Seq::<char>::empty()]);
        assert(s =~= Seq::<char>::empty());
    } else {
        let p = split_on(s.drop_last(), c);
        lemma_split_on_nonempty(s.drop_last(), c);
        lemma_join_split(s.drop_last(), c);
        let x = s.last();
        if x == c {
            let q = p.push(Seq::<char>::empty());
            assert(q.drop_last() =~= p);
            assert(join(q, seq![c]) == join(p, seq![c]) + seq![c] + Seq::<char>::empty());
            assert(s =~= s.drop_last() + seq![c] + Seq::<char>::empty());
        } else {
            let q = p.update(p.len() - 1, p.last().push(x));
            if p.len() == 1 {
                assert(join(q, seq![c]) == q[0]);
                assert(join(p, seq![c]) == p[0]);
                assert(s =~= p[0].push(x));
            } else {
                assert(q.drop_last() =~= p.drop_last());
                assert(join(q, seq![c]) == join(p.drop_last(), seq![c]) + seq![c] + p.last().push(
                    x,
                ));
                assert(join(p, seq![c]) == join(p.drop_last(), seq![c]) + seq![c] + p.last());
                assert(s =~= s.drop_last().push(x));
                assert(join(q, seq![c]) =~= join(p, seq![c]).push(x));
            }
        }
    }
}

/// The outer name followed by its nested names is the `$`-join of all of them.
proof fn lemma_with_nested_join(parts: Seq<Seq<char>>)
    requires
        parts.len() >= 1,
    ensures
        with_nested(parts[0], parts.drop_first()) == join(parts, seq!['$']),
    decreases parts.len(),
{
    if parts.len() == 1 {
        assert(parts.drop_first() =~= Seq::<Seq<char>>::empty());
    } else {
        let front = parts.drop_last();
        lemma_with_nested_join(front);
        assert(parts.drop_first().drop_last() =~= front.drop_first());
        assert(parts.drop_first().last() == parts.last());
        assert(front[0] == parts[0]);
    }
}

/// A class name whose source file declares the package that the name already gives
/// comes back unchanged.
pub proof fn lemma_correct_name_is_kept(fqcn: Seq<char>)
    requires
        package_part(fqcn) is Some,
    ensures
        qualified_name(package_part(fqcn)->0, outer_class_name(fqcn), nesting(fqcn).drop_first())
            == fqcn,
{
    let parts = nesting(fqcn);
    lemma_split_on_nonempty(fqcn, '$');
    let pieces = outer_pieces(fqcn);
    lemma_join_split(parts[0], '.');
    lemma_join_split(fqcn, '$');
    assert(join(pieces, "."@) == join(pieces.drop_last(), "."@) + "."@ + pieces.last());
    reveal_strlit(".");
    assert("."@ =~= seq!['.']);
    lemma_with_nested_join(parts);
}

/// A class name corrected from its source file is a fixed point of the lookup: the
/// query for the corrected name looks for the same file with the same nested classes,
/// in exactly the package that the file declares, so the file's text matches, and the
/// name read back from it is the corrected name itself. (The declared package holds
/// no `$`.)
pub proof fn lemma_corrected_name_is_fixed(fqcn: Seq<char>, content: Seq<char>)
    requires
        declared_package(content) is Some,
        !declared_package(content)->0.contains('$'),
    ensures
        ({
            let p = declared_package(content)->0;
            let y = qualified_name(p, outer_class_name(fqcn), nesting(fqcn).drop_first());
            &&& outer_class_name(y) == outer_class_name(fqcn)
            &&& nesting(y).drop_first() == nesting(fqcn).drop_first()
            &&& package_part(y) == Some(p)
            &&& source_matches(Some(content), package_part(y))
            &&& qualified_name(package_part(y)->0, outer_class_name(y), nesting(y).drop_first())
                == y
        }),
{
    let p = declared_package(content)->0;
    let parts_x = nesting(fqcn);
    let nested = parts_x.drop_first();
    lemma_split_on_nonempty(fqcn, '$');
    lemma_split_on_pieces(fqcn, '$', '$');
    let outer = parts_x[0];
    let pieces = split_on(outer, '.');
    lemma_split_on_nonempty(outer, '.');
    lemma_split_on_pieces(outer, '.', '$');
    lemma_split_on_pieces(outer, '.', '.');
    let cls = pieces.last();
    assert(cls == pieces[pieces.len() - 1]);
    assert(cls == outer_class_name(fqcn));
    let head = p + seq!['.'] + cls;
    assert(!head.contains('$')) by {
        if head.contains('$') {
            let k = choose|k: int| 0 <= k < head.len() && head[k] == '$';
            if k < p.len() {
                assert(p[k] == '$');
            } else if k > p.len() {
                assert(cls[k - p.len() - 1] == '$');
            }
        }
    }
    let parts_y = seq![head] + nested;
    assert(parts_y[0] == head);
    assert(parts_y.drop_first() =~= nested);
    assert forall|i: int| 0 <= i < parts_y.len() implies !(#[trigger] parts_y[i]).contains('$') by {
        if i > 0 {
            assert(parts_y[i] == parts_x[i]);
        }
    }
    lemma_with_nested_join(parts_y);
    let y = qualified_name(p, cls, nested);
    assert(y == join(parts_y, seq!['$']));
    lemma_split_on_join(parts_y, '$');
    assert(nesting(y) == parts_y);
    lemma_split_on_append(p, '.', cls);
    lemma_split_on_without(cls, '.');
    lemma_split_on_nonempty(p, '.');
    let split_p = split_on(p, '.');
    assert(outer_pieces(y) == split_p + seq![cls]);
    assert((split_p + seq![cls]).drop_last() =~= split_p);
    assert((split_p + seq![cls]).last() == cls);
    reveal_strlit(".");
    assert("."@ =~= seq!['.']);
    lemma_join_split(p, '.');
    assert(package_part(y) == Some(p));
}

// ---------------------------------------------------------------------------
// A whole walk
// ---------------------------------------------------------------------------

/// A directory tree as the walk sees it: each entry with its path and its file name
/// when that is readable text; a directory with its listing, a file with its text when
/// it can be read.
pub enum FsNode {
    Directory { path: Seq<char>, name: Option<Seq<char>>, entries: Seq<FsNode> },
    File { path: Seq<char>, name: Option<Seq<char>>, content: Option<Seq<char>> },
    Other { path: Seq<char>, name: Option<Seq<char>> },
}

/// The path of a node.
pub open spec fn node_path(n: FsNode) -> Seq<char> {
    match n {
        FsNode::Directory { path, .. } => path,
        FsNode::File { path, .. } => path,
        FsNode::Other { path, .. } => path,
    }
}

/// The directory entry that the listing gives for a node.
pub open spec fn node_entry(n: FsNode) -> EntryView {
    match n {
        FsNode::Directory { path, name, .. } => EntryView { path, name, kind: EntryKind::Directory },
        FsNode::File { path, name, .. } => EntryView { path, name, kind: EntryKind::File },
        FsNode::Other { path, name } => EntryView { path, name, kind: EntryKind::Other },
    }
}

/// The listing of a directory (nothing for anything else).
pub open spec fn node_listing(n: FsNode) -> Seq<FsNode> {
    match n {
        FsNode::Directory { entries, .. } => entries,
        _ => Seq::empty(),
    }
}

/// The text of a file, when it can be read.
pub open spec fn node_content(n: FsNode) -> Option<Seq<char>> {
    match n {
        FsNode::File { content, .. } => content,
        _ => None,
    }
}

/// The walk enters this directory: its name is readable and not one of those left out.
pub open spec fn entered(n: FsNode) -> bool {
    match n {
        FsNode::Directory { name: Some(nm), .. } => !skipped_directory(nm),
        _ => false,
    }
}

/// Every directory that a listing names, and that the walk would enter, has a readable
/// name, and so do those inside it.
pub open spec fn names_readable(entries: Seq<FsNode>) -> bool
    decreases entries,
{
    if entries.len() == 0 {
        true
    } else {
        entry_readable(entries[0]) && names_readable(entries.subrange(1, entries.len() as int))
    }
}

/// A directory entry has a readable name, and, when the walk enters it, so do the
/// directories inside it.
pub open spec fn entry_readable(n: FsNode) -> bool
    decreases n,
{
    match n {
        FsNode::Directory { name, entries, .. } => match name {
            Some(nm) => skipped_directory(nm) || names_readable(entries),
            None => false,
        },
        _ => true,
    }
}

/// The files named `target` in the order the walk meets them, each with its text: a
/// directory's own files in listing order, then the directories it enters, the last
/// listed first.
pub open spec fn met_files(n: FsNode, target: Seq<char>) -> Seq<(Seq<char>, Option<Seq<char>>)>
    decreases n,
{
    match n {
        FsNode::Directory { entries, .. } => own_files(entries, target) + sub_files(entries, target),
        _ => Seq::empty(),
    }
}

/// The files named `target` among the entries themselves, in listing order.
pub open spec fn own_files(entries: Seq<FsNode>, target: Seq<char>) -> Seq<
    (Seq<char>, Option<Seq<char>>),
>
    decreases entries.len(),
{
    if entries.len() == 0 {
        Seq::empty()
    } else {
        let head: Seq<(Seq<char>, Option<Seq<char>>)> = match entries[0] {
            FsNode::File { path, name, content } => if name == Some(target) {
                seq![(path, content)]
            } else {
                Seq::empty()
            },
            _ => Seq::empty(),
        };
        head + own_files(entries.drop_first(), target)
    }
}

/// The files named `target` inside the directories among the entries that the walk
/// enters, the last listed directory first.
pub open spec fn sub_files(entries: Seq<FsNode>, target: Seq<char>) -> Seq<
    (Seq<char>, Option<Seq<char>>),
>
    decreases entries,
{
    if entries.len() == 0 {
        Seq::empty()
    } else {
        sub_files(entries.subrange(1, entries.len() as int), target) + if entered(entries[0]) {
            met_files(entries[0], target)
        } else {
            Seq::empty()
        }
    }
}

/// The files named `target` inside the directories still to list, the last one first.
pub open spec fn stack_files(dirs: Seq<FsNode>, target: Seq<char>) -> Seq<
    (Seq<char>, Option<Seq<char>>),
>
    decreases dirs.len(),
{
    if dirs.len() == 0 {
        Seq::empty()
    } else {
        met_files(dirs.last(), target) + stack_files(dirs.drop_last(), target)
    }
}

/// What a walk settles on, given the files of the right name in the order it meets
/// them: the first whose text puts it in the package asked for; else the best match
/// it already had, or the first file met; else nothing.
pub open spec fn settle(
    best: Option<Seq<char>>,
    files: Seq<(Seq<char>, Option<Seq<char>>)>,
    suffix: Option<Seq<char>>,
) -> Option<Seq<char>>
    decreases files.len(),
{
    if files.len() == 0 {
        best
    } else if source_matches(files[0].1, suffix) {
        Some(files[0].0)
    } else {
        settle(
            if best is None {
                Some(files[0].0)
            } else {
                best
            },
            files.drop_first(),
            suffix,
        )
    }
}

/// What walking costs: each entry counts two, and a directory also counts its listing.
pub open spec fn weight(n: FsNode) -> nat
    decreases n,
{
    match n {
        FsNode::Directory { entries, .. } => 2 + weights(entries),
        _ => 2,
    }
}

/// What walking the entries costs.
pub open spec fn weights(entries: Seq<FsNode>) -> nat
    decreases entries,
{
    if entries.len() == 0 {
        0
    } else {
        weight(entries[0]) + weights(entries.subrange(1, entries.len() as int))
    }
}

/// What listing the directories still to list costs.
pub open spec fn pending_weight(dirs: Seq<FsNode>) -> nat
    decreases dirs.len(),
{
    if dirs.len() == 0 {
        0
    } else {
        pending_weight(dirs.drop_last()) + (weight(dirs.last()) - 1) as nat
    }
}

/// The walk as its caller runs it with the steps of `WorkspaceSearch`, over a directory
/// tree: `dirs` are the directories still to list (the nodes behind `s.pending`) and
/// `listing` the entries of the directory being listed that are not looked at yet.
/// Each entry is visited; a file whose text is asked for is read and handed over; when
/// the listing is done the next directory is taken; the walk ends with a result, with
/// nothing, or, when no directory is left, with the best match.
pub open spec fn walk_from(dirs: Seq<FsNode>, s: SearchView, listing: Seq<FsNode>) -> Option<
    Seq<char>,
>
    decreases pending_weight(dirs) + weights(listing),
{
    if listing.len() > 0 {
        let e = listing[0];
        let visited = visit_spec(s, node_entry(e));
        proof {
            assert(listing.drop_first() == listing.subrange(1, listing.len() as int));
            assert(weights(listing) == weight(e) + weights(listing.drop_first()));
            assert(weight(e) >= 2);
            assert(dirs.push(e).drop_last() =~= dirs);
            assert(dirs.push(e).last() == e);
            assert(pending_weight(dirs.push(e)) == pending_weight(dirs) + weight(e) - 1);
        }
        match visited.1 {
            StepView::Continue => walk_from(
                if entered(e) {
                    dirs.push(e)
                } else {
                    dirs
                },
                visited.0,
                listing.drop_first(),
            ),
            StepView::Abandon => None,
            StepView::Found(p) => Some(p),
            StepView::ReadPackage(_) => {
                let read = package_read_spec(visited.0, node_content(e));
                match read.1 {
                    Some(f) => Some(f),
                    None => walk_from(dirs, read.0, listing.drop_first()),
                }
            },
        }
    } else {
        let next = next_directory_spec(s);
        if next.1 is None || dirs.len() == 0 {
            s.best
        } else {
            walk_from(dirs.drop_last(), next.0, node_listing(dirs.last()))
        }
    }
}

/// The paths of the directories still to list.
pub open spec fn dir_paths(dirs: Seq<FsNode>) -> Seq<Seq<char>> {
    dirs.map_values(|d: FsNode| node_path(d))
}

/// A walk state that stands for the directories `dirs` with no text asked for.
pub open spec fn walk_state_ok(dirs: Seq<FsNode>, s: SearchView) -> bool {
    &&& s.pending == dir_paths(dirs)
    &&& s.reading is None
    &&& forall|i: int|
        0 <= i < dirs.len() ==> (#[trigger] dirs[i]) is Directory && names_readable(
            node_listing(dirs[i]),
        )
}

/// From any state, the walk settles on what `settle` picks among the files still to
/// be met.
proof fn lemma_walk_from(dirs: Seq<FsNode>, s: SearchView, listing: Seq<FsNode>)
    requires
        walk_state_ok(dirs, s),
        names_readable(listing),
    ensures
        walk_from(dirs, s, listing) == settle(
            s.best,
            own_files(listing, s.target_name) + sub_files(listing, s.target_name) + stack_files(
                dirs,
                s.target_name,
            ),
            s.package_suffix,
        ),
    decreases pending_weight(dirs) + weights(listing),
{
    let t = s.target_name;
    if listing.len() > 0 {
        let e = listing[0];
        let rest = listing.drop_first();
        assert(rest == listing.subrange(1, listing.len() as int));
        assert(weights(listing) == weight(e) + weights(rest));
        assert(weight(e) >= 2);
        assert(entry_readable(e) && names_readable(rest));
        let later = own_files(rest, t) + sub_files(rest, t) + stack_files(dirs, t);
        match e {
            FsNode::Directory { path, name, entries } => {
                let nm = name->0;
                assert(own_files(listing, t) =~= own_files(rest, t));
                if skipped_directory(nm) {
                    lemma_walk_from(dirs, s, rest);
                    assert(sub_files(listing, t) =~= sub_files(rest, t));
                    assert(own_files(listing, t) + sub_files(listing, t) + stack_files(dirs, t)
                        =~= later);
                } else {
                    let dirs2 = dirs.push(e);
                    let s2 = SearchView { pending: s.pending.push(path), ..s };
                    assert(dirs2.drop_last() =~= dirs);
                    assert(dirs2.last() == e);
                    assert(pending_weight(dirs2) == pending_weight(dirs) + weight(e) - 1);
                    assert(dir_paths(dirs2) =~= dir_paths(dirs).push(path));
                    assert forall|i: int| 0 <= i < dirs2.len() implies (#[trigger] dirs2[i]) is Directory
                        && names_readable(node_listing(dirs2[i])) by {
                        if i < dirs.len() {
                            assert(dirs2[i] == dirs[i]);
                        }
                    }
                    lemma_walk_from(dirs2, s2, rest);
                    assert(stack_files(dirs2, t) == met_files(e, t) + stack_files(dirs, t));
                    assert(sub_files(listing, t) == sub_files(rest, t) + met_files(e, t));
                    assert(own_files(rest, t) + sub_files(rest, t) + stack_files(dirs2, t)
                        =~= own_files(listing, t) + sub_files(listing, t) + stack_files(dirs, t));
                }
            },
            FsNode::File { path, name, content } => {
                assert(sub_files(listing, t) =~= sub_files(rest, t));
                if name == Some(t) {
                    let all = own_files(listing, t) + sub_files(listing, t) + stack_files(dirs, t);
                    assert(own_files(listing, t) == seq![(path, content)] + own_files(rest, t));
                    assert(all =~= seq![(path, content)] + later);
                    assert(all[0] == (path, content));
                    assert(all.drop_first() =~= later);
                    if s.package_suffix is None {
                    } else {
                        let s1 = SearchView { reading: Some(path), ..s };
                        if !source_matches(content, s.package_suffix) {
                            let s2 = SearchView {
                                best: if s.best is None {
                                    Some(path)
                                } else {
                                    s.best
                                },
                                reading: None,
                                ..s
                            };
                            lemma_walk_from(dirs, s2, rest);
                        }
                    }
                } else {
                    assert(own_files(listing, t) =~= own_files(rest, t));
                    lemma_walk_from(dirs, s, rest);
                    assert(own_files(listing, t) + sub_files(listing, t) + stack_files(dirs, t)
                        =~= later);
                }
            },
            FsNode::Other { .. } => {
                assert(own_files(listing, t) =~= own_files(rest, t));
                assert(sub_files(listing, t) =~= sub_files(rest, t));
                lemma_walk_from(dirs, s, rest);
                assert(own_files(listing, t) + sub_files(listing, t) + stack_files(dirs, t)
                    =~= later);
            },
        }
    } else {
        assert(own_files(listing, t) =~= Seq::<(Seq<char>, Option<Seq<char>>)>::empty());
        assert(sub_files(listing, t) =~= Seq::<(Seq<char>, Option<Seq<char>>)>::empty());
        assert(s.pending.len() == dirs.len());
        if dirs.len() == 0 {
            assert(stack_files(dirs, t) =~= Seq::<(Seq<char>, Option<Seq<char>>)>::empty());
            assert(own_files(listing, t) + sub_files(listing, t) + stack_files(dirs, t)
                =~= Seq::<(Seq<char>, Option<Seq<char>>)>::empty());
        } else {
            let d = dirs.last();
            let front = dirs.drop_last();
            let s1 = SearchView { pending: s.pending.drop_last(), ..s };
            assert(d == dirs[dirs.len() - 1]);
            assert(d is Directory && names_readable(node_listing(d)));
            assert(s.pending.last() == node_path(d));
            assert(dir_paths(front) =~= s.pending.drop_last());
            assert forall|i: int| 0 <= i < front.len() implies (#[trigger] front[i]) is Directory
                && names_readable(node_listing(front[i])) by {
                assert(front[i] == dirs[i]);
            }
            assert(weight(d) == 2 + weights(node_listing(d)));
            lemma_walk_from(front, s1, node_listing(d));
            assert(met_files(d, t) == own_files(node_listing(d), t) + sub_files(node_listing(d), t));
            assert(own_files(node_listing(d), t) + sub_files(node_listing(d), t) + stack_files(front, t)
                =~= own_files(listing, t) + sub_files(listing, t) + stack_files(dirs, t));
        }
    }
}

/// `settle` picks the first file whose text puts it in the package; when there is none,
/// the best match it had, or else the first file.
proof fn lemma_settle(
    best: Option<Seq<char>>,
    files: Seq<(Seq<char>, Option<Seq<char>>)>,
    suffix: Option<Seq<char>>,
)
    ensures
        forall|i: int|
            0 <= i < files.len() && #[trigger] source_matches(files[i].1, suffix) && (forall|j: int|
                0 <= j < i ==> !source_matches(files[j].1, suffix)) ==> settle(best, files, suffix)
                == Some(files[i].0),
        (forall|i: int| 0 <= i < files.len() ==> !#[trigger] source_matches(files[i].1, suffix))
            ==> settle(best, files, suffix) == if best is Some {
            best
        } else if files.len() > 0 {
            Some(files[0].0)
        } else {
            None
        },
    decreases files.len(),
{
    if files.len() > 0 {
        let rest = files.drop_first();
        let best2 = if best is None {
            Some(files[0].0)
        } else {
            best
        };
        lemma_settle(best2, rest, suffix);
        assert forall|i: int|
            0 <= i < files.len() && #[trigger] source_matches(files[i].1, suffix) && (forall|j: int|
                0 <= j < i ==> !source_matches(files[j].1, suffix)) implies settle(best, files, suffix)
            == Some(files[i].0) by {
            if i > 0 {
                assert(!source_matches(files[0].1, suffix));
                assert(rest[i - 1] == files[i]);
                assert forall|j: int| 0 <= j < i - 1 implies !source_matches(rest[j].1, suffix) by {
                    assert(rest[j] == files[j + 1]);
                }
                assert(source_matches(rest[i - 1].1, suffix));
            }
        }
        if forall|i: int| 0 <= i < files.len() ==> !#[trigger] source_matches(files[i].1, suffix) {
            assert(!source_matches(files[0].1, suffix));
            assert forall|i: int| 0 <= i < rest.len() implies !#[trigger] source_matches(
                rest[i].1,
                suffix,
            ) by {
                assert(rest[i] == files[i + 1]);
                assert(!source_matches(files[i + 1].1, suffix));
            }
        }
    }
}

/// Where a walk for the file `target_name` in a package ending in `package_suffix`
/// starts: the root alone to list, as `WorkspaceSearch::new` makes it.
pub open spec fn walk_start(root: FsNode, target_name: Seq<char>, package_suffix: Option<Seq<char>>) -> SearchView {
    SearchView {
        pending: seq![node_path(root)],
        best: None,
        target_name,
        package_suffix,
        reading: None,
    }
}

/// A whole walk over a directory tree, run with the steps of `WorkspaceSearch` from
/// the root, settles on the first file of the right name, in the order the walk meets
/// them, whose text puts it in the package asked for; when there is none, on the first
/// file of the right name it met; and on nothing exactly when it meets no file of that
/// name outside the directories it leaves out. (Every directory the walk would enter
/// has a readable name.)
pub proof fn lemma_whole_walk(root: FsNode, target_name: Seq<char>, package_suffix: Option<Seq<char>>)
    requires
        root is Directory,
        names_readable(node_listing(root)),
    ensures
        ({
            let files = met_files(root, target_name);
            let r = walk_from(
                seq![root],
                walk_start(root, target_name, package_suffix),
                Seq::empty(),
            );
            &&& r == settle(None, files, package_suffix)
            &&& r is None <==> files.len() == 0
            &&& forall|i: int|
                0 <= i < files.len() && #[trigger] source_matches(files[i].1, package_suffix) && (
                forall|j: int| 0 <= j < i ==> !source_matches(files[j].1, package_suffix)) ==> r
                    == Some(files[i].0)
            &&& (forall|i: int|
                0 <= i < files.len() ==> !#[trigger] source_matches(files[i].1, package_suffix))
                && files.len() > 0 ==> r == Some(files[0].0)
        }),
{
    let dirs = seq![root];
    let s = walk_start(root, target_name, package_suffix);
    let none: Seq<FsNode> = Seq::empty();
    let files = met_files(root, target_name);
    assert(dir_paths(dirs) =~= seq![node_path(root)]);
    assert forall|i: int| 0 <= i < dirs.len() implies (#[trigger] dirs[i]) is Directory
        && names_readable(node_listing(dirs[i])) by {
        assert(dirs[i] == root);
    }
    lemma_walk_from(dirs, s, none);
    assert(dirs.drop_last() =~= Seq::<FsNode>::empty());
    assert(stack_files(dirs, target_name) =~= files + stack_files(dirs.drop_last(), target_name));
    assert(own_files(none, target_name) + sub_files(none, target_name) + stack_files(
        dirs,
        target_name,
    ) =~= files);
    lemma_settle(None, files, package_suffix);
    if files.len() > 0 {
        if source_matches(files[0].1, package_suffix) {
            assert(settle(None, files, package_suffix) == Some(files[0].0));
        } else {
            if exists|i: int| 0 <= i < files.len() && #[trigger] source_matches(files[i].1, package_suffix) {
                let k = choose|i: int| 0 <= i < files.len() && #[trigger] source_matches(files[i].1, package_suffix);
                lemma_first_fit(files, package_suffix, k);
            }
        }
    }
}

/// When some file fits, a first one does.
proof fn lemma_first_fit(files: Seq<(Seq<char>, Option<Seq<char>>)>, suffix: Option<Seq<char>>, k: int)
    requires
        0 <= k < files.len(),
        source_matches(files[k].1, suffix),
    ensures
        exists|i: int|
            0 <= i < files.len() && #[trigger] source_matches(files[i].1, suffix) && (forall|j: int|
                0 <= j < i ==> !source_matches(files[j].1, suffix)),
    decreases k,
{
    if exists|j: int| 0 <= j < k && #[trigger] source_matches(files[j].1, suffix) {
        let j = choose|j: int| 0 <= j < k && #[trigger] source_matches(files[j].1, suffix);
        lemma_first_fit(files, suffix, j);
    } else {
        assert(0 <= k < files.len() && source_matches(files[k].1, suffix) && (forall|j: int|
            0 <= j < k ==> !source_matches(files[j].1, suffix)));
    }
}

/// The file that looking up the class `fqcn` settles on: a walk for
/// `<outer class>.java` in the package that the name gives, as `class_file_query`
/// describes it.
pub open spec fn lookup_file(root: FsNode, fqcn: Seq<char>) -> Option<Seq<char>> {
    walk_from(
        seq![root],
        walk_start(root, outer_class_name(fqcn) + ".java"@, package_part(fqcn)),
        Seq::empty(),
    )
}

/// A corrected class name is a fixed point of the whole lookup: when the class's file
/// is the only file of its name that the walk meets, looking up the name settles on
/// that file, whatever package the name gives; looking up the name that the file
/// corrects it to settles on the same file; and the file gives that corrected name
/// back. (The declared package holds no `$`, and every directory the walk would enter
/// has a readable name.)
pub proof fn lemma_lookup_fixed_point(
    root: FsNode,
    fqcn: Seq<char>,
    path: Seq<char>,
    content: Seq<char>,
)
    requires
        root is Directory,
        names_readable(node_listing(root)),
        met_files(root, outer_class_name(fqcn) + ".java"@) == seq![(path, Some(content))],
        declared_package(content) is Some,
        !declared_package(content)->0.contains('$'),
    ensures
        ({
            let p = declared_package(content)->0;
            let y = qualified_name(p, outer_class_name(fqcn), nesting(fqcn).drop_first());
            &&& lookup_file(root, fqcn) == Some(path)
            &&& lookup_file(root, y) == Some(path)
            &&& qualified_name(p, outer_class_name(y), nesting(y).drop_first()) == y
        }),
{
    let p = declared_package(content)->0;
    let y = qualified_name(p, outer_class_name(fqcn), nesting(fqcn).drop_first());
    let name = outer_class_name(fqcn) + ".java"@;
    let files = met_files(root, name);
    lemma_corrected_name_is_fixed(fqcn, content);
    assert(outer_class_name(y) + ".java"@ == name);
    lemma_whole_walk(root, name, package_part(fqcn));
    lemma_whole_walk(root, name, package_part(y));
    assert(files[0] == (path, Some(content)));
    if !source_matches(files[0].1, package_part(fqcn)) {
        assert forall|i: int| 0 <= i < files.len() implies !#[trigger] source_matches(
            files[i].1,
            package_part(fqcn),
        ) by {
            assert(i == 0);
        }
    }
    assert(source_matches(files[0].1, package_part(y)));
}

/// One of the directories the walk leaves out: `.git`, `build`, `target`, `bin`,
/// `.gradle`, `node_modules`, `.idea` or `.settings`.
pub open spec fn tool_directory(name: Seq<char>) -> bool {
    name == ".git"@ || name == "build"@ || name == "target"@ || name == "bin"@ || name
        == ".gradle"@ || name == "node_modules"@ || name == ".idea"@ || name == ".settings"@
}

/// The walk leaves out exactly the eight build and tool directories: visiting any other
/// directory with a readable name (`src`, `main`, `java`, `test`, ...) keeps it to be
/// listed, and visiting one of the eight changes nothing.
pub proof fn lemma_entered_directories(
    s: SearchView,
    path: Seq<char>,
    name: Seq<char>,
    entries: Seq<FsNode>,
)
    ensures
        skipped_directory(name) <==> tool_directory(name),
        entered(FsNode::Directory { path, name: Some(name), entries }) <==> !tool_directory(name),
        !tool_directory(name) ==> visit_spec(
            s,
            EntryView { path, name: Some(name), kind: EntryKind::Directory },
        ) == (SearchView { pending: s.pending.push(path), ..s }, StepView::Continue),
        tool_directory(name) ==> visit_spec(
            s,
            EntryView { path, name: Some(name), kind: EntryKind::Directory },
        ) == (s, StepView::Continue),
{
}

/// A file listed at index `j` is among the files of its name that a listing shows.
proof fn lemma_own_files_has(entries: Seq<FsNode>, target: Seq<char>, j: int)
    requires
        0 <= j < entries.len(),
        entries[j] is File,
        node_entry(entries[j]).name == Some(target),
    ensures
        own_files(entries, target).contains((node_path(entries[j]), node_content(entries[j]))),
    decreases j,
{
    let rest = entries.drop_first();
    let head: Seq<(Seq<char>, Option<Seq<char>>)> = match entries[0] {
        FsNode::File { path, name, content } => if name == Some(target) {
            seq![(path, content)]
        } else {
            Seq::empty()
        },
        _ => Seq::empty(),
    };
    assert(own_files(entries, target) == head + own_files(rest, target));
    let x = (node_path(entries[j]), node_content(entries[j]));
    if j == 0 {
        assert(head == seq![x]);
        assert((head + own_files(rest, target))[0] == x);
    } else {
        assert(rest[j - 1] == entries[j]);
        lemma_own_files_has(rest, target, j - 1);
        let k = choose|k: int| 0 <= k < own_files(rest, target).len() && own_files(rest, target)[k] == x;
        assert((head + own_files(rest, target))[head.len() + k] == x);
    }
}

/// The files met inside a directory entered at index `i` are among those met below
/// the listing.
proof fn lemma_sub_files_has(
    entries: Seq<FsNode>,
    target: Seq<char>,
    i: int,
    x: (Seq<char>, Option<Seq<char>>),
)
    requires
        0 <= i < entries.len(),
        entered(entries[i]),
        met_files(entries[i], target).contains(x),
    ensures
        sub_files(entries, target).contains(x),
    decreases i,
{
    let rest = entries.subrange(1, entries.len() as int);
    if i == 0 {
        let a = sub_files(rest, target);
        let b = met_files(entries[0], target);
        let k = choose|k: int| 0 <= k < b.len() && b[k] == x;
        assert((a + b)[a.len() + k] == x);
    } else {
        assert(rest[i - 1] == entries[i]);
        lemma_sub_files_has(rest, target, i - 1, x);
        let a = sub_files(rest, target);
        let b = if entered(entries[0]) {
            met_files(entries[0], target)
        } else {
            Seq::empty()
        };
        let k = choose|k: int| 0 <= k < a.len() && a[k] == x;
        assert((a + b)[k] == x);
    }
}

/// A file of the target name that lies directly in a directory the walk lists is met;
/// so is one in a directory not named like a build or tool directory (such as `java`)
/// that lies in a listed directory.
pub proof fn lemma_files_met(root: FsNode, target: Seq<char>, i: int, j: int)
    requires
        root is Directory,
        0 <= i < node_listing(root).len(),
    ensures
        ({
            let e = node_listing(root)[i];
            &&& e is File && node_entry(e).name == Some(target) ==> met_files(root, target).contains(
                (node_path(e), node_content(e)),
            )
            &&& e is Directory && node_entry(e).name is Some && !tool_directory(
                node_entry(e).name->0,
            ) && 0 <= j < node_listing(e).len() && node_listing(e)[j] is File && node_entry(
                node_listing(e)[j],
            ).name == Some(target) ==> met_files(root, target).contains(
                (node_path(node_listing(e)[j]), node_content(node_listing(e)[j])),
            )
        }),
{
    let entries = node_listing(root);
    let e = entries[i];
    let all = met_files(root, target);
    assert(all == own_files(entries, target) + sub_files(entries, target));
    if e is File && node_entry(e).name == Some(target) {
        lemma_own_files_has(entries, target, i);
        let x = (node_path(e), node_content(e));
        let k = choose|k: int| 0 <= k < own_files(entries, target).len() && own_files(entries, target)[k] == x;
        assert(all[k] == x);
    }
    if e is Directory && node_entry(e).name is Some && !tool_directory(node_entry(e).name->0) && 0
        <= j < node_listing(e).len() && node_listing(e)[j] is File && node_entry(
        node_listing(e)[j],
    ).name == Some(target) {
        let f = node_listing(e)[j];
        let x = (node_path(f), node_content(f));
        lemma_own_files_has(node_listing(e), target, j);
        assert(met_files(e, target) == own_files(node_listing(e), target) + sub_files(node_listing(e), target));
        let k = choose|k: int| 0 <= k < own_files(node_listing(e), target).len() && own_files(node_listing(e), target)[k] == x;
        assert(met_files(e, target)[k] == x);
        assert(entered(e));
        lemma_sub_files_has(entries, target, i, x);
        let a = own_files(entries, target);
        let k2 = choose|k2: int| 0 <= k2 < sub_files(entries, target).len() && sub_files(entries, target)[k2] == x;
        assert(all[a.len() + k2] == x);
    }
}

} // verus!
