//! Reading the task-helper command line that a run or test task carries, and
//! naming the class it runs.
//!
//! A task command looks like
//! `... java-task-helper run-test-method "<file>" "<package>" "<class>" "<outer>" "<method>"`:
//! after the first subcommand marker, every double-quoted field is one argument.
use vstd::prelude::*;
use crate::text::{
    chars_of, contains_text, find_text, first_match, lemma_first_match_from, matches_at, owned,
    push_char, text_eq, views,
};

verus! {

/// The marker of a `run-class` command, with the spaces around it.
pub open spec fn run_class_marker() -> Seq<char> {
    " run-class "@
}

/// The marker of a `run-test-method` command, with the spaces around it.
pub open spec fn run_test_method_marker() -> Seq<char> {
    " run-test-method "@
}

/// The marker of a `run-test-class` command, with the spaces around it.
pub open spec fn run_test_class_marker() -> Seq<char> {
    " run-test-class "@
}

/// The state of a left-to-right scan for quoted fields: the fields closed so
/// far, the field being read, and whether the scan is inside quotes.
pub type QuoteScan = (Seq<Seq<char>>, Seq<char>, bool);

/// One character of the scan: a `"` opens or closes a field, any other character
/// is kept inside quotes and dropped outside them.
pub open spec fn quote_step(st: QuoteScan, c: char) -> QuoteScan {
    let (fields, current, in_quotes) = st;
    if c == '"' {
        if in_quotes {
            (fields.push(current), Seq::empty(), false)
        } else {
            (fields, current, true)
        }
    } else if in_quotes {
        (fields, current.push(c), true)
    } else {
        (fields, current, false)
    }
}

/// The scan continued over the characters of `t`.
pub open spec fn quote_scan_from(st: QuoteScan, t: Seq<char>) -> QuoteScan
    decreases t.len(),
{
    if t.len() == 0 {
        st
    } else {
        quote_step(quote_scan_from(st, t.drop_last()), t.last())
    }
}

/// The scan of `s` from its start.
pub open spec fn quote_scan(s: Seq<char>) -> QuoteScan {
    quote_scan_from((Seq::empty(), Seq::empty(), false), s)
}

/// The double-quoted fields of `s`, in order; a field whose closing quote is
/// missing is not one of them.
pub open spec fn quoted_fields(s: Seq<char>) -> Seq<Seq<char>> {
    quote_scan(s).0
}

/// What the task helper's arguments are read as: the subcommand named by the first of
/// the markers ` run-class `, ` run-test-method `, ` run-test-class ` that occurs (tried
/// in that order), followed by the quoted fields after that marker; `None` when no marker
/// occurs.
pub open spec fn task_arguments(command: Seq<char>) -> Option<Seq<Seq<char>>> {
    if let Some(i) = first_match(command, run_class_marker()) {
        Some(seq!["run-class"@] + quoted_fields(command.skip(i + run_class_marker().len())))
    } else if let Some(i) = first_match(command, run_test_method_marker()) {
        Some(
            seq!["run-test-method"@] + quoted_fields(
                command.skip(i + run_test_method_marker().len()),
            ),
        )
    } else if let Some(i) = first_match(command, run_test_class_marker()) {
        Some(
            seq!["run-test-class"@] + quoted_fields(
                command.skip(i + run_test_class_marker().len()),
            ),
        )
    } else {
        None
    }
}

/// Splits a task command into its subcommand and the quoted arguments after it.
pub fn parse_args(command: &str) -> (r: Option<Vec<String>>)
    ensures
        r matches Some(v) ==> task_arguments(command@) == Some(views(v@)),
        r is None ==> task_arguments(command@) is None,
{
    let n: usize = command.unicode_len();
    proof {
        lemma_first_match_from(command@, run_class_marker(), 0);
        lemma_first_match_from(command@, run_test_method_marker(), 0);
        lemma_first_match_from(command@, run_test_class_marker(), 0);
    }
    let marker_run_class = " run-class ";
    let marker_test_method = " run-test-method ";
    let marker_test_class = " run-test-class ";
    let (subcommand, start): (&str, usize) = if let Some(idx) = find_text(
        command,
        marker_run_class,
    ) {
        ("run-class", idx + marker_run_class.unicode_len())
    } else if let Some(idx) = find_text(command, marker_test_method) {
        ("run-test-method", idx + marker_test_method.unicode_len())
    } else if let Some(idx) = find_text(command, marker_test_class) {
        ("run-test-class", idx + marker_test_class.unicode_len())
    } else {
        return None;
    };
    let chars = chars_of(command);
    let ghost rest = command@.skip(start as int);
    let mut args: Vec<String> = Vec::new();
    args.push(owned(subcommand));
    let mut current = String::new();
    let mut in_quotes = false;
    let mut i: usize = start;
    assert(rest.take(0) =~= Seq::<char>::empty());
    while i < chars.len()
        invariant
            chars@ == command@,
            start <= i <= chars.len(),
            start <= command@.len(),
            chars@.len() == command@.len(),
            rest == command@.skip(start as int),
            args.len() >= 1,
            args@[0]@ == subcommand@,
            quote_scan(rest.take(i - start)) == (views(args@).drop_first(), current@, in_quotes),
        decreases chars.len() - i,
    {
        let c = chars[i];
        proof {
            lemma_skip_index(command@, start as int, i - start);
        }
        let ghost before = rest.take(i - start);
        assert(rest.take(i - start + 1).drop_last() =~= before);
        assert(rest.take(i - start + 1).last() == c);
        if c == '"' {
            if in_quotes {
                let field = current;
                args.push(field);
                current = String::new();
                in_quotes = false;
            } else {
                in_quotes = true;
            }
        } else if in_quotes {
            push_char(&mut current, c);
        }
        assert(views(args@).drop_first() =~= quote_step(
            quote_scan(before),
            c,
        ).0);
        i = i + 1;
    }
    assert(rest.take(i - start) =~= rest);
    assert(views(args@) =~= seq![subcommand@] + quoted_fields(rest));
    Some(args)
}

/// Indexing after a `skip`.
proof fn lemma_skip_index(s: Seq<char>, k: int, j: int)
    requires
        0 <= k <= s.len(),
        0 <= j < s.len() - k,
    ensures
        s.skip(k).len() == s.len() - k,
        s.skip(k)[j] == s[k + j],
{
}

/// The placeholder that a task carries when its outer class variable is unset.
pub open spec fn unset_outer_class() -> Seq<char> {
    "${ZED_CUSTOM_java_outer_class_name:-}"@
}

/// The fully qualified name of `class`: `package.` when the package is not empty, then
/// `outer$` when an outer class is given (not empty and not the unset placeholder), then
/// the class.
pub open spec fn fully_qualified(package: Seq<char>, class: Seq<char>, outer: Seq<char>) -> Seq<
    char,
> {
    (if package.len() > 0 {
        package.push('.')
    } else {
        Seq::empty()
    }) + (if outer.len() > 0 && outer != unset_outer_class() {
        outer.push('$')
    } else {
        Seq::empty()
    }) + class
}

/// The fully qualified class name that a run or test task names.
pub fn get_fqcn(package: &str, class: &str, outer: &str) -> (r: String)
    ensures
        r@ == fully_qualified(package@, class@, outer@),
{
    let mut fqcn = String::new();
    if !package.is_empty() {
        fqcn.append(package);
        push_char(&mut fqcn, '.');
    }
    if !outer.is_empty() && !text_eq(outer, "${ZED_CUSTOM_java_outer_class_name:-}") {
        fqcn.append(outer);
        push_char(&mut fqcn, '$');
    }
    fqcn.append(class);
    assert(fqcn@ =~= fully_qualified(package@, class@, outer@));
    fqcn
}

// ---------------------------------------------------------------------------
// Laws
// ---------------------------------------------------------------------------

/// The scan over `s + t` is the scan over `t` continued from where `s` left it.
pub proof fn lemma_quote_scan_append(st: QuoteScan, s: Seq<char>, t: Seq<char>)
    ensures
        quote_scan_from(st, s + t) == quote_scan_from(quote_scan_from(st, s), t),
    decreases t.len(),
{
    if t.len() == 0 {
        assert(s + t =~= s);
    } else {
        lemma_quote_scan_append(st, s, t.drop_last());
        assert((s + t).drop_last() =~= s + t.drop_last());
        assert((s + t).last() == t.last());
    }
}

/// Inside quotes, characters other than `"` are collected into the current field.
proof fn lemma_quote_scan_inside(fields: Seq<Seq<char>>, current: Seq<char>, t: Seq<char>)
    requires
        !t.contains('"'),
    ensures
        quote_scan_from((fields, current, true), t) == (fields, current + t, true),
    decreases t.len(),
{
    if t.len() == 0 {
        assert(current + t =~= current);
    } else {
        assert(!t.drop_last().contains('"')) by {
            if t.drop_last().contains('"') {
                let k = choose|k: int| 0 <= k < t.drop_last().len() && t.drop_last()[k] == '"';
                assert(t[k] == '"');
            }
        }
        lemma_quote_scan_inside(fields, current, t.drop_last());
        assert(t.last() != '"') by {
            assert(t[t.len() - 1] == t.last());
        }
        assert((current + t.drop_last()).push(t.last()) =~= current + t);
    }
}

/// Arguments written the way a task command writes them: each one after a space,
/// in double quotes.
pub open spec fn quote_all(fields: Seq<Seq<char>>) -> Seq<char>
    decreases fields.len(),
{
    if fields.len() == 0 {
        Seq::empty()
    } else {
        quote_all(fields.drop_last()) + seq![' ', '"'] + fields.last() + seq!['"']
    }
}

/// Quoting arguments and reading the quoted fields back gives the same arguments, as
/// long as no argument holds a double quote.
pub proof fn lemma_quoted_fields_round_trip(fields: Seq<Seq<char>>)
    requires
        forall|i: int| 0 <= i < fields.len() ==> !(#[trigger] fields[i]).contains('"'),
    ensures
        quoted_fields(quote_all(fields)) == fields,
        quote_scan(quote_all(fields)) == (fields, Seq::<char>::empty(), false),
    decreases fields.len(),
{
    let init: QuoteScan = (Seq::empty(), Seq::empty(), false);
    if fields.len() == 0 {
        assert(quote_all(fields) =~= Seq::<char>::empty());
    } else {
        let front = fields.drop_last();
        let f = fields.last();
        assert(front.push(f) =~= fields);
        assert forall|i: int| 0 <= i < front.len() implies !(#[trigger] front[i]).contains('"') by {
            assert(front[i] == fields[i]);
        }
        lemma_quoted_fields_round_trip(front);
        let a = quote_all(front);
        let open_quote = seq![' ', '"'];
        let close_quote = seq!['"'];
        assert(quote_all(fields) == a + open_quote + f + close_quote);
        lemma_quote_scan_append(init, a + open_quote + f, close_quote);
        lemma_quote_scan_append(init, a + open_quote, f);
        lemma_quote_scan_append(init, a, open_quote);
        // after the opening quote
        assert(open_quote.drop_last() =~= seq![' ']);
        assert(seq![' '].drop_last() =~= Seq::<char>::empty());
        let st0: QuoteScan = (front, Seq::empty(), false);
        assert(quote_scan_from(st0, Seq::empty()) == st0);
        assert(quote_scan_from(st0, seq![' ']) == st0);
        assert(quote_scan_from(st0, open_quote) == (front, Seq::<char>::empty(), true));
        let st1: QuoteScan = (front, f, true);
        assert(quote_scan_from(st1, Seq::empty()) == st1);
        assert(close_quote.last() == '"');
        assert(close_quote.drop_last() =~= Seq::<char>::empty());
        assert(quote_step(st1, '"') == (front.push(f), Seq::<char>::empty(), false));
        assert(quote_scan_from(st1, close_quote) == (fields, Seq::<char>::empty(), false));
        assert(f == fields[fields.len() - 1]);
        lemma_quote_scan_inside(front, Seq::empty(), f);
        assert(Seq::<char>::empty() + f =~= f);
    }
}

/// One argument in double quotes.
pub open spec fn quoted(x: Seq<char>) -> Seq<char> {
    seq!['"'] + x + seq!['"']
}

/// Arguments in double quotes, separated by single spaces.
pub open spec fn quoted_join(fields: Seq<Seq<char>>) -> Seq<char>
    decreases fields.len(),
{
    if fields.len() == 0 {
        Seq::empty()
    } else if fields.len() == 1 {
        quoted(fields[0])
    } else {
        quoted_join(fields.drop_last()) + seq![' '] + quoted(fields.last())
    }
}

/// A space before arguments joined by spaces is a space before each of them.
proof fn lemma_space_before_join(fields: Seq<Seq<char>>)
    requires
        fields.len() > 0,
    ensures
        seq![' '] + quoted_join(fields) == quote_all(fields),
    decreases fields.len(),
{
    let front = fields.drop_last();
    if fields.len() == 1 {
        assert(quote_all(front) =~= Seq::<char>::empty());
        assert(fields.last() == fields[0]);
        assert(seq![' '] + quoted(fields[0]) =~= quote_all(front) + seq![' ', '"'] + fields.last()
            + seq!['"']);
    } else {
        lemma_space_before_join(front);
        assert(seq![' '] + (quoted_join(front) + seq![' '] + quoted(fields.last())) =~= (seq![' ']
            + quoted_join(front)) + seq![' ', '"'] + fields.last() + seq!['"']);
    }
}

/// A space outside quotes is no part of any field.
proof fn lemma_leading_space(t: Seq<char>)
    ensures
        quoted_fields(seq![' '] + t) == quoted_fields(t),
{
    let init: QuoteScan = (Seq::empty(), Seq::empty(), false);
    lemma_quote_scan_append(init, seq![' '], t);
    assert(seq![' '].drop_last() =~= Seq::<char>::empty());
    assert(quote_scan_from(init, Seq::<char>::empty()) == init);
    assert(quote_scan_from(init, seq![' ']) == init);
}

/// A `run-class` command whose arguments are written in double quotes, separated by
/// spaces, reads back as `run-class` followed by those arguments, as long as no
/// argument holds a double quote.
pub proof fn lemma_run_class_arguments(fields: Seq<Seq<char>>)
    requires
        forall|i: int| 0 <= i < fields.len() ==> !(#[trigger] fields[i]).contains('"'),
    ensures
        task_arguments("h run-class "@ + quoted_join(fields)) == Some(
            seq!["run-class"@] + fields,
        ),
{
    let prefix = "h run-class "@;
    let command = prefix + quoted_join(fields);
    let marker = run_class_marker();
    reveal_strlit("h run-class ");
    reveal_strlit(" run-class ");
    assert(prefix.len() == 12);
    assert(marker.len() == 11);
    assert(prefix.subrange(1, 12) =~= marker);
    assert(matches_at(command, marker, 1)) by {
        assert forall|j: int| 0 <= j < marker.len() implies #[trigger] command[1 + j]
            == marker[j] by {
            assert(command[1 + j] == prefix[1 + j]);
            assert(prefix.subrange(1, 12)[j] == prefix[1 + j]);
        }
    }
    assert(!matches_at(command, marker, 0)) by {
        assert(command[0] == prefix[0]);
        assert(command[0int + 0int] != marker[0]);
    }
    lemma_first_match_from(command, marker, 0);
    assert(first_match(command, marker) == Some(1int));
    assert(command.skip(1int + marker.len()) =~= quoted_join(fields));
    if fields.len() == 0 {
        assert(quoted_join(fields) =~= Seq::<char>::empty());
        assert(quote_scan(Seq::<char>::empty()) == (
            Seq::<Seq<char>>::empty(),
            Seq::<char>::empty(),
            false,
        ));
        assert(seq!["run-class"@] + fields =~= seq!["run-class"@]);
    } else {
        lemma_space_before_join(fields);
        lemma_leading_space(quoted_join(fields));
        lemma_quoted_fields_round_trip(fields);
    }
}

/// A marker is a word between two spaces, with no space inside.
spec fn spaced_word(m: Seq<char>) -> bool {
    &&& m.len() >= 2
    &&& m[0] == ' '
    &&& m[m.len() - 1] == ' '
    &&& forall|d: int| 0 < d < m.len() - 1 ==> #[trigger] m[d] != ' '
}

/// The three markers are spaced words.
proof fn lemma_markers_spaced()
    ensures
        spaced_word(run_class_marker()),
        spaced_word(run_test_method_marker()),
        spaced_word(run_test_class_marker()),
{
    reveal_strlit(" run-class ");
    reveal_strlit(" run-test-method ");
    reveal_strlit(" run-test-class ");
    let a = run_class_marker();
    let b = run_test_method_marker();
    let c = run_test_class_marker();
    assert forall|d: int| 0 < d < a.len() - 1 implies #[trigger] a[d] != ' ' by {}
    assert forall|d: int| 0 < d < b.len() - 1 implies #[trigger] b[d] != ' ' by {}
    assert forall|d: int| 0 < d < c.len() - 1 implies #[trigger] c[d] != ' ' by {}
}

/// A marker right after a prefix that holds none (counting the space after it) is
/// found first there.
proof fn lemma_marker_first_at(prefix: Seq<char>, m: Seq<char>, rest: Seq<char>)
    requires
        spaced_word(m),
        !contains_text(prefix + seq![' '], m),
    ensures
        first_match(prefix + m + rest, m) == Some(prefix.len() as int),
{
    let c = prefix + m + rest;
    let p = prefix.len() as int;
    let q = prefix + seq![' '];
    assert forall|j: int| 0 <= j < m.len() implies #[trigger] c[p + j] == m[j] by {}
    assert(matches_at(c, m, p));
    assert forall|j: int| 0 <= j < p implies !matches_at(c, m, j) by {
        if matches_at(c, m, j) {
            if j + m.len() <= p + 1 {
                assert forall|k: int| 0 <= k < m.len() implies #[trigger] q[j + k] == m[k] by {
                    assert(c[j + k] == m[k]);
                    if j + k < p {
                        assert(q[j + k] == prefix[j + k]);
                        assert(c[j + k] == prefix[j + k]);
                    } else {
                        assert(c[p + 0] == m[0]);
                    }
                }
                assert(matches_at(q, m, j));
            } else {
                let d = p - j;
                assert(c[j + d] == m[d]);
                assert(c[p + 0] == m[0]);
                assert(m[d] != ' ');
            }
        }
    }
    lemma_first_match_from(c, m, 0);
}

/// The quoted fields after a marker followed by arguments quoted and joined by spaces
/// are those arguments.
proof fn lemma_fields_after(prefix: Seq<char>, m: Seq<char>, fields: Seq<Seq<char>>)
    requires
        forall|i: int| 0 <= i < fields.len() ==> !(#[trigger] fields[i]).contains('"'),
    ensures
        quoted_fields((prefix + m + quoted_join(fields)).skip(prefix.len() + m.len() as int)) == fields,
{
    let command = prefix + m + quoted_join(fields);
    assert(command.skip(prefix.len() + m.len() as int) =~= quoted_join(fields));
    if fields.len() == 0 {
        assert(quoted_join(fields) =~= Seq::<char>::empty());
        assert(quote_scan(Seq::<char>::empty()) == (
            Seq::<Seq<char>>::empty(),
            Seq::<char>::empty(),
            false,
        ));
        assert(fields =~= Seq::<Seq<char>>::empty());
    } else {
        lemma_space_before_join(fields);
        lemma_leading_space(quoted_join(fields));
        lemma_quoted_fields_round_trip(fields);
    }
}

/// A marker that does not occur is not found.
proof fn lemma_absent_marker(c: Seq<char>, m: Seq<char>)
    requires
        !contains_text(c, m),
    ensures
        first_match(c, m) is None,
{
    lemma_first_match_from(c, m, 0);
}

/// A `run-class` command, after any prefix that holds no ` run-class ` (the space after
/// it counted, quoted text allowed), reads back as `run-class` followed by exactly the
/// arguments written after the marker in double quotes, separated by spaces, as long
/// as no argument holds a double quote.
pub proof fn lemma_run_class_after_prefix(prefix: Seq<char>, fields: Seq<Seq<char>>)
    requires
        forall|i: int| 0 <= i < fields.len() ==> !(#[trigger] fields[i]).contains('"'),
        !contains_text(prefix + seq![' '], " run-class "@),
    ensures
        task_arguments(prefix + " run-class "@ + quoted_join(fields)) == Some(
            seq!["run-class"@] + fields,
        ),
{
    lemma_markers_spaced();
    lemma_marker_first_at(prefix, run_class_marker(), quoted_join(fields));
    lemma_fields_after(prefix, run_class_marker(), fields);
}

/// A `run-test-method` command, after any prefix that holds no ` run-test-method `
/// (the space after it counted, quoted text allowed), reads back as `run-test-method`
/// followed by exactly the arguments written after the marker in double quotes,
/// separated by spaces, as long as no argument holds a double quote and the command
/// holds no ` run-class ` (which is looked for first).
pub proof fn lemma_run_test_method_after_prefix(prefix: Seq<char>, fields: Seq<Seq<char>>)
    requires
        forall|i: int| 0 <= i < fields.len() ==> !(#[trigger] fields[i]).contains('"'),
        !contains_text(prefix + seq![' '], " run-test-method "@),
        !contains_text(prefix + " run-test-method "@ + quoted_join(fields), " run-class "@),
    ensures
        task_arguments(prefix + " run-test-method "@ + quoted_join(fields)) == Some(
            seq!["run-test-method"@] + fields,
        ),
{
    lemma_markers_spaced();
    lemma_absent_marker(prefix + " run-test-method "@ + quoted_join(fields), run_class_marker());
    lemma_marker_first_at(prefix, run_test_method_marker(), quoted_join(fields));
    lemma_fields_after(prefix, run_test_method_marker(), fields);
}

/// A `run-test-class` command, after any prefix that holds no ` run-test-class ` (the
/// space after it counted, quoted text allowed), reads back as `run-test-class`
/// followed by exactly the arguments written after the marker in double quotes,
/// separated by spaces, as long as no argument holds a double quote and the command
/// holds neither ` run-class ` nor ` run-test-method ` (which are looked for first).
pub proof fn lemma_run_test_class_after_prefix(prefix: Seq<char>, fields: Seq<Seq<char>>)
    requires
        forall|i: int| 0 <= i < fields.len() ==> !(#[trigger] fields[i]).contains('"'),
        !contains_text(prefix + seq![' '], " run-test-class "@),
        !contains_text(prefix + " run-test-class "@ + quoted_join(fields), " run-class "@),
        !contains_text(prefix + " run-test-class "@ + quoted_join(fields), " run-test-method "@),
    ensures
        task_arguments(prefix + " run-test-class "@ + quoted_join(fields)) == Some(
            seq!["run-test-class"@] + fields,
        ),
{
    lemma_markers_spaced();
    let c = prefix + " run-test-class "@ + quoted_join(fields);
    lemma_absent_marker(c, run_class_marker());
    lemma_absent_marker(c, run_test_method_marker());
    lemma_marker_first_at(prefix, run_test_class_marker(), quoted_join(fields));
    lemma_fields_after(prefix, run_test_class_marker(), fields);
}

/// The placeholder of an unset outer class names no outer class.
pub proof fn lemma_unset_outer_class_ignored(package: Seq<char>, class: Seq<char>)
    ensures
        fully_qualified(package, class, unset_outer_class()) == fully_qualified(
            package,
            class,
            Seq::empty(),
        ),
{
}

} // verus!
