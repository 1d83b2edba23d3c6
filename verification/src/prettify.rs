//! The value formatter: every script value as human-readable text.
use crate::text::decimal;
use crate::text::decimal_string;
use crate::text::join;
use crate::text::joined;
use crate::text::push_digits;
use crate::text::push_spaces;
use crate::text::spaces;
use crate::text::views;
use crate::value::deepest;
use crate::value::FunctionInfo;
use crate::value::HostObject;
use crate::value::lemma_deepest_covers;
use crate::value::levels;
use crate::value::Value;
use vstd::prelude::*;
use vstd::string::StringExecFns;

verus! {

/// How many levels of nested tables are written out. A table below the
/// last level is rendered as `...`, so the text of a value is finite
/// however deep the value is.
pub const DEPTH_LIMIT: usize = 64;

/// The string `s` as a quoted literal, in which a quote, a backslash and
/// every character that is not printable is written as an escape, as the
/// standard library's `Debug` for `str` does.
pub uninterp spec fn quoted(s: Seq<char>) -> Seq<char>;

/// `Debug` formatting of a `str` from the standard library. The result is
/// the literal that `quoted` names for the same text.
#[verifier::external_body]
fn quote(s: &str) -> (r: String)
    ensures
        r@ == quoted(s@),
{
    format!("{:?}", s)
}

/// The text of a function: its name, if known, and the line of its
/// definition, `???` if unknown.
pub open spec fn function_text(f: FunctionInfo) -> Seq<char> {
    "Function("@ + (match f.name {
        Some(name) => name@ + ", "@,
        None => Seq::empty(),
    }) + "line: "@ + (match f.line {
        Some(line) => decimal(line as int),
        None => "???"@,
    }) + ")"@
}

/// The text of a host object: a thread and a raw pointer each by a word of
/// its own, any other object by one word for all, since scripts cannot
/// look inside one.
pub open spec fn host_text(h: HostObject) -> Seq<char> {
    match h {
        HostObject::Thread => "Thread"@,
        HostObject::Pointer => "Pointer"@,
        _ => "Any"@,
    }
}

/// The text of `v` at indentation `indent`, with `depth` levels of tables
/// written out.
pub open spec fn render(v: Value, indent: usize, depth: nat) -> Seq<char>
    decreases depth, 0nat, 0nat,
{
    match v {
        Value::Nil => "nil"@,
        Value::Bool(b) => if b {
            "true"@
        } else {
            "false"@
        },
        Value::Int(i) => decimal(i as int),
        Value::Float(text) => text@,
        Value::Str(s) => quoted(s@),
        Value::Table(t) => if depth == 0 {
            "..."@
        } else {
            "{\n"@ + render_body(t.entries@, indent, (depth - 1) as nat) + "\n"@ + spaces(
                indent as nat,
            ) + "}"@
        },
        Value::Function(f) => function_text(f),
        Value::HostObject(h) => host_text(h),
        Value::Error(message) => message@,
    }
}

/// The lines between the braces of a table that stands at indentation
/// `indent`: one line for each entry, two spaces deeper than the table
/// (the indentation stops growing at the largest machine integer), with
/// `,` and a line break between two entries. An empty table has one line
/// of two spaces.
pub open spec fn render_body(entries: Seq<(Value, Value)>, indent: usize, depth: nat) -> Seq<char>
    decreases depth, 2nat, 0nat,
{
    if entries.len() == 0 {
        "  "@
    } else {
        render_lines(entries, indent.saturating_add(2), depth, entries.len())
    }
}

/// The lines of the first `n` entries, each at indentation `indent`.
pub open spec fn render_lines(
    entries: Seq<(Value, Value)>,
    indent: usize,
    depth: nat,
    n: nat,
) -> Seq<char>
    decreases depth, 1nat, n,
{
    if n == 0 || n > entries.len() {
        Seq::empty()
    } else if n == 1 {
        render_line(entries[0], indent, depth)
    } else {
        render_lines(entries, indent, depth, (n - 1) as nat) + ",\n"@ + render_line(
            entries[n - 1],
            indent,
            depth,
        )
    }
}

/// One entry: the indentation, the key, ` = ` and the value.
pub open spec fn render_line(entry: (Value, Value), indent: usize, depth: nat) -> Seq<char>
    decreases depth, 0nat, 1nat,
{
    spaces(indent as nat) + render(entry.0, indent, depth) + " = "@ + render(entry.1, indent, depth)
}

/// The text of a function value.
pub fn format_function(f: &FunctionInfo) -> (r: String)
    ensures
        r@ == function_text(*f),
{
    let mut out = String::from_str("Function(");
    match &f.name {
        Some(name) => {
            out.append(name.as_str());
            out.append(", ");
        },
        None => {},
    }
    out.append("line: ");
    match f.line {
        Some(line) => {
            push_digits(&mut out, line as u64);
        },
        None => {
            out.append("???");
        },
    }
    out.append(")");
    proof {
        assert(out@ =~= function_text(*f));
    }
    out
}

/// The text of `value` at indentation `indent`, with `depth` levels of
/// tables written out.
pub fn pformat_bounded(value: &Value, indent: usize, depth: usize) -> (r: String)
    ensures
        r@ == render(*value, indent, depth as nat),
    decreases depth,
{
    match value {
        Value::Nil => String::from_str("nil"),
        Value::Bool(b) => if *b {
            String::from_str("true")
        } else {
            String::from_str("false")
        },
        Value::Int(i) => decimal_string(*i),
        Value::Float(text) => text.clone(),
        Value::Str(s) => quote(s.as_str()),
        Value::Table(t) => {
            if depth == 0 {
                return String::from_str("...");
            }
            let mut out = String::from_str("{\n");
            let n = t.entries.len();
            if n == 0 {
                out.append("  ");
            } else {
                let inner: usize = indent.saturating_add(2);
                let mut i: usize = 0;
                while i < n
                    invariant
                        i <= n,
                        n == t.entries@.len(),
                        depth > 0,
                        inner == indent.saturating_add(2),
                        out@ == "{\n"@ + render_lines(
                            t.entries@,
                            inner,
                            (depth - 1) as nat,
                            i as nat,
                        ),
                    decreases n - i,
                {
                    if i > 0 {
                        out.append(",\n");
                    }
                    push_spaces(&mut out, inner);
                    let key = pformat_bounded(&t.entries[i].0, inner, depth - 1);
                    out.append(key.as_str());
                    out.append(" = ");
                    let item = pformat_bounded(&t.entries[i].1, inner, depth - 1);
                    out.append(item.as_str());
                    proof {
                        let entry = t.entries@[i as int];
                        let d = (depth - 1) as nat;
                        let line = render_line(entry, inner, d);
                        assert(line == spaces(inner as nat) + key@ + " = "@ + item@);
                        if i == 0 {
                            assert(render_lines(t.entries@, inner, d, 1) == line);
                        } else {
                            assert(render_lines(t.entries@, inner, d, (i + 1) as nat)
                                == render_lines(t.entries@, inner, d, i as nat) + ",\n"@
                                + line);
                        }
                        assert(out@ =~= "{\n"@ + render_lines(
                            t.entries@,
                            inner,
                            (depth - 1) as nat,
                            (i + 1) as nat,
                        ));
                    }
                    i += 1;
                }
            }
            out.append("\n");
            push_spaces(&mut out, indent);
            out.append("}");
            proof {
                assert(out@ =~= render(*value, indent, depth as nat));
            }
            out
        },
        Value::Function(f) => format_function(f),
        Value::HostObject(h) => match h {
            HostObject::Thread => String::from_str("Thread"),
            HostObject::Pointer => String::from_str("Pointer"),
            _ => String::from_str("Any"),
        },
        Value::Error(message) => message.clone(),
    }
}

/// The text of `value` at indentation `indent`.
pub fn pformat(value: &Value, indent: usize) -> (r: String)
    ensures
        r@ == render(*value, indent, DEPTH_LIMIT as nat),
{
    pformat_bounded(value, indent, DEPTH_LIMIT)
}

/// The indentation that a script asks for: none where it gives none or a
/// negative number, and at most the largest machine integer.
pub open spec fn indent_of(indent: Option<i64>) -> usize {
    match indent {
        Some(i) => if i < 0 {
            0
        } else if i > usize::MAX {
            usize::MAX
        } else {
            i as usize
        },
        None => 0,
    }
}

/// The texts of the first `n` values, each at indentation 0.
pub open spec fn rendered(values: Seq<Value>, n: nat) -> Seq<Seq<char>> {
    Seq::new(n, |i: int| render(values[i], 0, DEPTH_LIMIT as nat))
}

/// The functions of the script module `pretty`.
pub struct Prettify;

impl Prettify {
    /// The name of the script module.
    pub fn module_name() -> (r: &'static str)
        ensures
            r@ == "pretty"@,
    {
        "pretty"
    }

    /// The line that `pretty.print` writes: the text of each argument,
    /// with a space between each two.
    pub fn pprint(args: &Vec<Value>) -> (r: String)
        ensures
            r@ == joined(rendered(args@, args@.len()), " "@, args@.len()),
    {
        let mut items: Vec<String> = Vec::new();
        let mut i: usize = 0;
        while i < args.len()
            invariant
                i <= args@.len(),
                items@.len() == i,
                forall|j: int|
                    0 <= j < i ==> (#[trigger] items@[j])@ == render(
                        args@[j],
                        0,
                        DEPTH_LIMIT as nat,
                    ),
            decreases args.len() - i,
        {
            items.push(pformat(&args[i], 0));
            i += 1;
        }
        assert(views(items@) =~= rendered(args@, args@.len()));
        join(&items, " ")
    }

    /// What `pretty.stringify` returns: the text of `value` at the
    /// indentation that the script asked for.
    pub fn pstring(value: &Value, indent: Option<i64>) -> (r: String)
        ensures
            r@ == render(*value, indent_of(indent), DEPTH_LIMIT as nat),
    {
        let indent: usize = match indent {
            Some(i) => if i < 0 {
                0
            } else if i as u64 > usize::MAX as u64 {
                usize::MAX
            } else {
                i as usize
            },
            None => 0,
        };
        pformat(value, indent)
    }
}

/// The depth limit cuts nothing from a value that is not deeper than the
/// limit: such a value is written out in full, and has the same text under
/// every larger limit.
pub proof fn lemma_enough_depth(v: Value, indent: usize, depth: nat, more: nat)
    requires
        levels(v) <= depth <= more,
    ensures
        render(v, indent, depth) == render(v, indent, more),
    decreases depth, 0nat, 0nat,
{
    match v {
        Value::Table(t) => {
            if t.entries@.len() > 0 {
                lemma_enough_depth_for_lines(
                    t.entries@,
                    indent.saturating_add(2),
                    (depth - 1) as nat,
                    (more - 1) as nat,
                    t.entries@.len(),
                );
            }
        },
        _ => {},
    }
}

proof fn lemma_enough_depth_for_lines(
    entries: Seq<(Value, Value)>,
    indent: usize,
    depth: nat,
    more: nat,
    n: nat,
)
    requires
        n <= entries.len(),
        deepest(entries, entries.len()) <= depth <= more,
    ensures
        render_lines(entries, indent, depth, n) == render_lines(entries, indent, more, n),
    decreases depth, 1nat, n,
{
    if n > 0 {
        lemma_enough_depth_for_lines(entries, indent, depth, more, (n - 1) as nat);
        lemma_deepest_covers(entries, entries.len(), n - 1);
        lemma_enough_depth(entries[n - 1].0, indent, depth, more);
        lemma_enough_depth(entries[n - 1].1, indent, depth, more);
        assert(render_line(entries[n - 1], indent, depth) == render_line(
            entries[n - 1],
            indent,
            more,
        ));
    }
}

/// The text of a value depends on the value alone: formatting the same
/// value twice gives the same text.
pub proof fn lemma_format_is_deterministic(
    v: Value,
    indent: usize,
    first: Seq<char>,
    second: Seq<char>,
)
    requires
        first == render(v, indent, DEPTH_LIMIT as nat),
        second == render(v, indent, DEPTH_LIMIT as nat),
    ensures
        first == second,
{
}

} // verus!
