//! Correcting a class name with the language server's workspace symbols.
//!
//! A debug configuration may name its main class loosely (`MyClass`, or with a
//! wrong package). The outer class's simple name is looked up with a
//! `workspace/symbol` request (made by the caller), and the first symbol of that
//! name in the right project that has a container gives the corrected name.
use vstd::prelude::*;
use crate::text::{
    chars_of, contains, contains_text, has_prefix, owned, push_char, replace_char,
    replace_char_text, split_on, split_text, starts_with, text_eq, views,
};
use crate::workspace::{
    append_nested, class_file_query, nesting, opt_view, outer_class_name, with_nested,
};

verus! {

/// Whether a character has the Unicode `Alphabetic` property (what std's
/// `char::is_alphabetic` reports).
pub uninterp spec fn alphabetic(c: char) -> bool;

/// std's `char::is_alphabetic`. The contract names its result `alphabetic(c)` and
/// says nothing more of it: the Unicode table it consults is not restated here.
#[verifier::external_body]
fn is_alphabetic_char(c: char) -> (r: bool)
    ensures
        r == alphabetic(c),
{
    c.is_alphabetic()
}

/// A program name that cannot be a class name: it holds a path separator or starts
/// with an unexpanded `${` variable.
pub open spec fn is_path_like(program: Seq<char>) -> bool {
    program.contains('/') || program.contains('\\') || has_prefix(program, "${"@)
}

/// The class name to ask the language server about, for the program `program`: the
/// outer class's simple name, when the program is not path-like and that name starts
/// with a letter.
pub open spec fn lsp_lookup_name(program: Seq<char>) -> Option<Seq<char>> {
    let name = outer_class_name(program);
    if is_path_like(program) || name.len() == 0 || !alphabetic(name[0]) {
        None
    } else {
        Some(name)
    }
}

/// What to ask the language server for: the outer class's simple name, and the
/// nested classes that follow it in the program name.
pub struct ClassQuery {
    pub outer_class_name: String,
    pub nested: Vec<String>,
}

/// Whether `c` occurs in `s`.
fn has_char(s: &str, c: char) -> (r: bool)
    ensures
        r == s@.contains(c),
{
    let v = chars_of(s);
    let mut i: usize = 0;
    while i < v.len()
        invariant
            v@ == s@,
            i <= v.len(),
            forall|j: int| 0 <= j < i ==> v@[j] != c,
        decreases v.len() - i,
    {
        if v[i] == c {
            return true;
        }
        i = i + 1;
    }
    false
}

/// The query for correcting `program`; `None` when the program cannot name a class.
pub fn lsp_class_query(program: &str) -> (r: Option<ClassQuery>)
    ensures
        r matches Some(q) ==> lsp_lookup_name(program@) == Some(q.outer_class_name@) && views(
            q.nested@,
        ) == nesting(program@).drop_first(),
        r is None ==> lsp_lookup_name(program@) is None,
{
    if has_char(program, '/') || has_char(program, '\\') || starts_with(program, "${") {
        return None;
    }
    let q = class_file_query(program);
    let name = q.class_name;
    if name.as_str().is_empty() {
        return None;
    }
    let first = chars_of(name.as_str())[0];
    if !is_alphabetic_char(first) {
        return None;
    }
    Some(ClassQuery { outer_class_name: name, nested: q.nested })
}

/// A symbol from the language server's answer: its name, its container (the package,
/// for a class) and the URI of the file it is in.
pub struct LspSymbol {
    pub name: String,
    pub container_name: Option<String>,
    pub uri: String,
}

/// A symbol's file lies in the project `project`: its URI holds the project name with
/// dots turned to slashes, or the project name's last dot-separated piece between
/// slashes. Any symbol lies in an unnamed project.
pub open spec fn in_project(uri: Seq<char>, project: Option<Seq<char>>) -> bool {
    match project {
        None => true,
        Some(p) => contains_text(uri, replace_char(p, '.', '/')) || contains_text(
            uri,
            seq!['/'] + split_on(p, '.').last() + seq!['/'],
        ),
    }
}

/// The symbol can correct the class name: it has the outer class's name, lies in the
/// project, and has a container.
pub open spec fn symbol_accepted(s: LspSymbol, name: Seq<char>, project: Option<Seq<char>>) -> bool {
    &&& s.name@ == name
    &&& in_project(s.uri@, project)
    &&& s.container_name is Some
}

/// The corrected class name that an accepted symbol gives: `container.name` (just
/// `name` when the container is empty), then `$n` for each nested class.
pub open spec fn name_in_container(container: Seq<char>, name: Seq<char>, nested: Seq<Seq<char>>) -> Seq<
    char,
> {
    with_nested(
        if container.len() == 0 {
            name
        } else {
            container + seq!['.'] + name
        },
        nested,
    )
}

/// The index of the first accepted symbol among `syms[i..]`.
pub open spec fn first_accepted_from(
    syms: Seq<LspSymbol>,
    name: Seq<char>,
    project: Option<Seq<char>>,
    i: int,
) -> Option<int>
    decreases syms.len() - i,
{
    if i < 0 || i >= syms.len() {
        None
    } else if symbol_accepted(syms[i], name, project) {
        Some(i)
    } else {
        first_accepted_from(syms, name, project, i + 1)
    }
}

/// The corrected class name that the symbols give: that of the first accepted one.
pub open spec fn corrected_name(
    syms: Seq<LspSymbol>,
    name: Seq<char>,
    nested: Seq<Seq<char>>,
    project: Option<Seq<char>>,
) -> Option<Seq<char>> {
    match first_accepted_from(syms, name, project, 0) {
        Some(k) => Some(name_in_container(syms[k].container_name->0@, name, nested)),
        None => None,
    }
}

/// Whether the symbol's file lies in the project.
fn symbol_in_project(uri: &str, project: Option<&str>) -> (r: bool)
    ensures
        r == in_project(uri@, match project {
            Some(p) => Some(p@),
            None => None,
        }),
{
    match project {
        None => true,
        Some(p) => {
            let path_part = replace_char_text(p, '.', '/');
            if contains(uri, path_part.as_str()) {
                return true;
            }
            let pieces = split_text(p, '.');
            let last: usize = pieces.len() - 1;
            assert(views(pieces@)[last as int] == pieces@[last as int]@);
            let mut segment = String::new();
            push_char(&mut segment, '/');
            segment.append(pieces[last].as_str());
            push_char(&mut segment, '/');
            assert(segment@ =~= seq!['/'] + split_on(p@, '.').last() + seq!['/']);
            contains(uri, segment.as_str())
        },
    }
}

/// The corrected name of the class that `query` asks about, from the language
/// server's symbols and the project the program belongs to (if known).
pub fn select_symbol(symbols: &Vec<LspSymbol>, query: &ClassQuery, project: Option<&str>) -> (r:
    Option<String>)
    ensures
        opt_view(r) == corrected_name(
            symbols@,
            query.outer_class_name@,
            views(query.nested@),
            match project {
                Some(p) => Some(p@),
                None => None,
            },
        ),
{
    let ghost proj = match project {
        Some(p) => Some(p@),
        None => None,
    };
    let ghost name = query.outer_class_name@;
    let mut i: usize = 0;
    while i < symbols.len()
        invariant
            i <= symbols.len(),
            first_accepted_from(symbols@, name, proj, 0) == first_accepted_from(
                symbols@,
                name,
                proj,
                i as int,
            ),
            name == query.outer_class_name@,
            proj == match project {
                Some(p) => Some(p@),
                None => None::<Seq<char>>,
            },
        decreases symbols.len() - i,
    {
        let symbol = &symbols[i];
        if text_eq(symbol.name.as_str(), query.outer_class_name.as_str()) && symbol_in_project(
            symbol.uri.as_str(),
            project,
        ) {
            if let Some(container) = &symbol.container_name {
                let mut fqcn = if container.as_str().is_empty() {
                    owned(query.outer_class_name.as_str())
                } else {
                    let mut f = owned(container.as_str());
                    push_char(&mut f, '.');
                    f.append(query.outer_class_name.as_str());
                    assert(f@ =~= container@ + seq!['.'] + name);
                    f
                };
                append_nested(&mut fqcn, &query.nested);
                return Some(fqcn);
            }
        }
        i = i + 1;
    }
    None
}

/// The symbols give a corrected name exactly when one of them has exactly the queried
/// class name, a container, and a file in the project; the name then comes from the
/// first such symbol: its container, `.`, the queried name (the name alone in an empty
/// container), and `$n` for each nested class. A symbol whose name only begins with the
/// queried one, or lies outside the project, or has no container, gives nothing.
pub proof fn lemma_corrected_name_source(
    syms: Seq<LspSymbol>,
    name: Seq<char>,
    nested: Seq<Seq<char>>,
    project: Option<Seq<char>>,
)
    ensures
        corrected_name(syms, name, nested, project) is None <==> forall|k: int|
            0 <= k < syms.len() ==> !(#[trigger] syms[k].name@ == name && syms[k].container_name is Some
                && in_project(syms[k].uri@, project)),
        corrected_name(syms, name, nested, project) matches Some(r) ==> exists|k: int|
            0 <= k < syms.len() && #[trigger] syms[k].name@ == name && syms[k].container_name is Some
                && in_project(syms[k].uri@, project) && (forall|j: int|
                0 <= j < k ==> !(syms[j].name@ == name && syms[j].container_name is Some
                    && in_project(syms[j].uri@, project))) && r == with_nested(
                if syms[k].container_name->0@.len() == 0 {
                    name
                } else {
                    syms[k].container_name->0@ + seq!['.'] + name
                },
                nested,
            ),
{
    lemma_first_accepted_from(syms, name, project, 0);
}

/// `first_accepted_from` finds the first symbol at or after `i` with the name, a
/// container and a file in the project.
proof fn lemma_first_accepted_from(
    syms: Seq<LspSymbol>,
    name: Seq<char>,
    project: Option<Seq<char>>,
    i: int,
)
    requires
        0 <= i,
    ensures
        first_accepted_from(syms, name, project, i) matches Some(k) ==> {
            &&& i <= k < syms.len()
            &&& syms[k].name@ == name && syms[k].container_name is Some && in_project(syms[k].uri@, project)
            &&& forall|j: int| i <= j < k ==> !(#[trigger] syms[j].name@ == name
                && syms[j].container_name is Some && in_project(syms[j].uri@, project))
        },
        first_accepted_from(syms, name, project, i) is None ==> forall|j: int| i <= j < syms.len()
            ==> !(#[trigger] syms[j].name@ == name && syms[j].container_name is Some && in_project(
            syms[j].uri@,
            project,
        )),
    decreases syms.len() - i,
{
    if i < syms.len() {
        lemma_first_accepted_from(syms, name, project, i + 1);
    }
}

} // verus!
