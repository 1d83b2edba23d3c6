//! Text for host records: the formatting trait and the field builder that
//! writes a record as a brace block.
use crate::text::join;
use crate::text::joined;
use crate::text::push_spaces;
use crate::text::spaces;
use crate::text::views;
use vstd::prelude::*;
use vstd::string::StringExecFns;

verus! {

/// A host value that can be written as script source text.
pub trait LuaFmt {
    /// The text of the value. `pretty` asks for the multi-line form of a
    /// record, which then stands at nesting level `indent`.
    spec fn lua_text(&self, pretty: bool, indent: usize) -> Seq<char>;

    fn lua_fmt(&self, pretty: bool, indent: usize) -> (r: String)
        ensures
            r@ == self.lua_text(pretty, indent),
    ;
}

impl<F: LuaFmt> LuaFmt for &F {
    open spec fn lua_text(&self, pretty: bool, indent: usize) -> Seq<char> {
        (**self).lua_text(pretty, indent)
    }

    fn lua_fmt(&self, pretty: bool, indent: usize) -> (r: String) {
        (*self).lua_fmt(pretty, indent)
    }
}

/// `s` between two double quotes, nothing escaped.
pub open spec fn in_quotes(s: Seq<char>) -> Seq<char> {
    "\""@ + s + "\""@
}

impl LuaFmt for String {
    open spec fn lua_text(&self, pretty: bool, indent: usize) -> Seq<char> {
        in_quotes(self@)
    }

    fn lua_fmt(&self, pretty: bool, indent: usize) -> (r: String) {
        let mut out = String::from_str("\"");
        out.append(self.as_str());
        out.append("\"");
        out
    }
}

impl LuaFmt for &str {
    open spec fn lua_text(&self, pretty: bool, indent: usize) -> Seq<char> {
        in_quotes(self@)
    }

    fn lua_fmt(&self, pretty: bool, indent: usize) -> (r: String) {
        let mut out = String::from_str("\"");
        out.append(*self);
        out.append("\"");
        out
    }
}

impl LuaFmt for bool {
    open spec fn lua_text(&self, pretty: bool, indent: usize) -> Seq<char> {
        if *self {
            "true"@
        } else {
            "false"@
        }
    }

    fn lua_fmt(&self, pretty: bool, indent: usize) -> (r: String) {
        if *self {
            String::from_str("true")
        } else {
            String::from_str("false")
        }
    }
}

/// What separates the lines of a record: a line break and two spaces for
/// each nesting level in the multi-line form, one space in the compact form.
pub open spec fn line_break(pretty: bool, indent: usize) -> Seq<char> {
    if pretty {
        "\n"@ + spaces(2 * indent as nat)
    } else {
        " "@
    }
}

/// What stands before each field: two more spaces in the multi-line form.
pub open spec fn field_lead(pretty: bool, indent: usize) -> Seq<char> {
    if pretty {
        line_break(pretty, indent) + "  "@
    } else {
        line_break(pretty, indent)
    }
}

/// A field as `name = value`.
pub open spec fn field_text(field: (Seq<char>, Seq<char>)) -> Seq<char> {
    field.0 + " = "@ + field.1
}

/// The brace block of a record with the given fields: an opening brace,
/// the fields with a comma between each two, and a closing brace, on one
/// line or on a line for each.
pub open spec fn struct_text(
    fields: Seq<(Seq<char>, Seq<char>)>,
    pretty: bool,
    indent: usize,
) -> Seq<char> {
    let lead = field_lead(pretty, indent);
    "{"@ + lead + joined(fields.map_values(|f| field_text(f)), ","@ + lead, fields.len())
        + line_break(pretty, indent) + "}"@
}

/// The nesting level of the values inside a record at level `indent`.
/// Nesting stops growing at the largest machine integer.
pub open spec fn inner_level(indent: usize) -> usize {
    indent.saturating_add(1)
}

/// Collects the fields of a record and writes them as a brace block.
pub struct LuaStructFormat {
    fields: Vec<(String, String)>,
    pretty: bool,
    indent: usize,
}

impl LuaStructFormat {
    /// The names and texts of the fields collected so far.
    pub closed spec fn fields(&self) -> Seq<(Seq<char>, Seq<char>)> {
        Seq::new(self.fields@.len(), |i: int| (self.fields@[i].0@, self.fields@[i].1@))
    }

    /// Whether the multi-line form was asked for.
    pub closed spec fn pretty(&self) -> bool {
        self.pretty
    }

    /// The nesting level at which the record stands.
    pub closed spec fn indent(&self) -> usize {
        self.indent
    }

    /// The text that `to_string` gives.
    pub open spec fn text(&self) -> Seq<char> {
        struct_text(self.fields(), self.pretty(), self.indent())
    }

    /// A record without fields.
    pub fn new(pretty: bool, indent: usize) -> (r: Self)
        ensures
            r.fields() == Seq::<(Seq<char>, Seq<char>)>::empty(),
            r.pretty() == pretty,
            r.indent() == indent,
    {
        let r = Self { fields: Vec::new(), pretty, indent };
        assert(r.fields() =~= Seq::<(Seq<char>, Seq<char>)>::empty());
        r
    }

    /// Adds the field `name`, whose value is written one level deeper than
    /// the record.
    pub fn field<T: LuaFmt>(self, name: &str, value: T) -> (r: Self)
        ensures
            r.fields() == self.fields().push(
                (name@, value.lua_text(self.pretty(), inner_level(self.indent()))),
            ),
            r.pretty() == self.pretty(),
            r.indent() == self.indent(),
    {
        let ghost before = self.fields();
        let mut r = self;
        let text = value.lua_fmt(r.pretty, r.indent.saturating_add(1));
        r.fields.push((String::from_str(name), text));
        assert(r.fields() =~= before.push((name@, text@)));
        r
    }

    /// The record as a brace block.
    pub fn to_string(&self) -> (r: String)
        ensures
            r@ == self.text(),
    {
        let mut nl = String::new();
        if self.pretty {
            nl.append("\n");
            push_spaces(&mut nl, self.indent);
            push_spaces(&mut nl, self.indent);
        } else {
            nl.append(" ");
        }
        assert(nl@ =~= line_break(self.pretty, self.indent)) by {
            assert(spaces(self.indent as nat) + spaces(self.indent as nat) =~= spaces(
                2 * self.indent as nat,
            ));
        }
        let mut lead = nl.clone();
        if self.pretty {
            lead.append("  ");
        }
        let mut sep = String::from_str(",");
        sep.append(lead.as_str());
        let mut items: Vec<String> = Vec::new();
        let mut i: usize = 0;
        while i < self.fields.len()
            invariant
                i <= self.fields@.len(),
                items@.len() == i,
                forall|j: int|
                    0 <= j < i ==> (#[trigger] items@[j])@ == field_text(self.fields()[j]),
            decreases self.fields.len() - i,
        {
            let mut item = self.fields[i].0.clone();
            item.append(" = ");
            item.append(self.fields[i].1.as_str());
            items.push(item);
            i += 1;
        }
        let mut out = String::from_str("{");
        out.append(lead.as_str());
        let body = join(&items, sep.as_str());
        out.append(body.as_str());
        out.append(nl.as_str());
        out.append("}");
        proof {
            assert(views(items@) =~= self.fields().map_values(|f| field_text(f)));
            assert(out@ =~= self.text());
        }
        out
    }
}

} // verus!
