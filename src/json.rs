//! The JSON text of a grammar, in the layout the parsing engine reads: the
//! rule table in insertion order, so that the start rule comes first.
use vstd::prelude::*;
use crate::rule::{Rule, RuleView, views, lemma_members_view};
use crate::table::TableView;
use crate::compile::{Grammar, GrammarView, digit, decimal, decimal_text, grammar_spec, generate_grammar};
use crate::schema::{Definition, SchemaError};

verus! {

broadcast use vstd::std_specs::vec::axiom_vec_index_decreases;

/// A lowercase hexadecimal digit.
pub open spec fn hex_digit(d: nat) -> char {
    if d < 10 {
        digit(d)
    } else if d == 10 { 'a' } else if d == 11 { 'b' } else if d == 12 { 'c' }
    else if d == 13 { 'd' } else if d == 14 { 'e' } else { 'f' }
}

/// How one character is written inside a JSON string: quote and backslash
/// escaped, the common control characters in short form, the other control
/// characters as `\u00` and two hex digits, everything else as it is.
pub open spec fn escape_char(c: char) -> Seq<char> {
    if c == '"' {
        seq!['\\', '"']
    } else if c == '\\' {
        seq!['\\', '\\']
    } else if c == '\u{8}' {
        seq!['\\', 'b']
    } else if c == '\t' {
        seq!['\\', 't']
    } else if c == '\n' {
        seq!['\\', 'n']
    } else if c == '\u{c}' {
        seq!['\\', 'f']
    } else if c == '\r' {
        seq!['\\', 'r']
    } else if (c as u32) < 0x20 {
        seq!['\\', 'u', '0', '0', hex_digit((c as u32 / 16) as nat), hex_digit((c as u32 % 16) as nat)]
    } else {
        seq![c]
    }
}

/// The characters of a text, each escaped.
pub open spec fn escaped(s: Seq<char>) -> Seq<char>
    decreases s.len(),
{
    if s.len() == 0 {
        Seq::empty()
    } else {
        escaped(s.drop_last()) + escape_char(s.last())
    }
}

/// The JSON string literal of a text: quotes and escapes included.
pub open spec fn json_quoted(s: Seq<char>) -> Seq<char> {
    seq!['"'] + escaped(s) + seq!['"']
}

/// Relies on serde_json's compact display of `Value::String` to quote and
/// escape a text (`format_escaped_str` and its `ESCAPE` table).
#[verifier::external_body]
fn quote(s: &String) -> (r: String)
    ensures
        r@ == json_quoted(s@),
{
    serde_json::Value::String(s.clone()).to_string()
}

/// The JSON object of a rule.
pub open spec fn rule_json(r: RuleView) -> Seq<char>
    decreases r, 0nat,
{
    match r {
        RuleView::Symbol(n) => "{\"type\":\"SYMBOL\",\"name\":"@ + json_quoted(n) + "}"@,
        RuleView::Sequence(m) => "{\"type\":\"SEQ\",\"members\":["@ + list_json(m, m.len()) + "]}"@,
        RuleView::Choice(m) => "{\"type\":\"CHOICE\",\"members\":["@ + list_json(m, m.len()) + "]}"@,
        RuleView::Repeat(c) => "{\"type\":\"REPEAT\",\"content\":"@ + rule_json(*c) + "}"@,
        RuleView::Repeat1(c) => "{\"type\":\"REPEAT1\",\"content\":"@ + rule_json(*c) + "}"@,
        RuleView::Field(n, c) => "{\"type\":\"FIELD\",\"name\":"@ + json_quoted(n) + ",\"content\":"@ + rule_json(*c) + "}"@,
        RuleView::PrecLeft(l, c) => "{\"type\":\"PREC_LEFT\",\"value\":"@ + decimal(l as nat) + ",\"content\":"@ + rule_json(*c) + "}"@,
        RuleView::Pattern(p) => "{\"type\":\"PATTERN\",\"value\":"@ + json_quoted(p) + "}"@,
        RuleView::StringLiteral(s) => "{\"type\":\"STRING\",\"value\":"@ + json_quoted(s) + "}"@,
        RuleView::Blank => "{\"type\":\"BLANK\"}"@,
    }
}

/// The first `n` rules of `m`, separated by commas.
pub open spec fn list_json(m: Seq<RuleView>, n: nat) -> Seq<char>
    decreases m, n,
{
    if n == 0 || n > m.len() {
        Seq::empty()
    } else if n == 1 {
        rule_json(m[0])
    } else {
        list_json(m, (n - 1) as nat) + ","@ + rule_json(m[n - 1])
    }
}

/// The first `n` entries of a rule table, as members of a JSON object.
pub open spec fn table_json(t: TableView, n: nat) -> Seq<char>
    decreases n,
{
    if n == 0 || n > t.len() {
        Seq::empty()
    } else {
        let entry = json_quoted(t[n - 1].0) + ":"@ + rule_json(t[n - 1].1);
        if n == 1 {
            entry
        } else {
            table_json(t, (n - 1) as nat) + ","@ + entry
        }
    }
}

/// The first `n` extras, as references to their rules.
pub open spec fn extras_json(e: Seq<Seq<char>>, n: nat) -> Seq<char>
    decreases n,
{
    if n == 0 || n > e.len() {
        Seq::empty()
    } else if n == 1 {
        rule_json(RuleView::Symbol(e[0]))
    } else {
        extras_json(e, (n - 1) as nat) + ","@ + rule_json(RuleView::Symbol(e[n - 1]))
    }
}

/// The JSON text of a grammar.
pub open spec fn grammar_json(g: GrammarView) -> Seq<char> {
    "{\"name\":"@ + json_quoted(g.name) + ",\"rules\":{"@ + table_json(g.rules, g.rules.len())
        + "},\"extras\":["@ + extras_json(g.extras, g.extras.len()) + "]}"@
}

/// Appends the JSON object of `r`.
pub fn write_rule(r: &Rule, out: &mut String)
    ensures
        final(out)@ == old(out)@ + rule_json(r@),
    decreases r,
{
    let ghost start = out@;
    match r {
        Rule::Symbol(n) => {
            out.append("{\"type\":\"SYMBOL\",\"name\":");
            out.append(quote(n).as_str());
            out.append("}");
        },
        Rule::Sequence(v) => {
            proof { lemma_members_view(*v); }
            out.append("{\"type\":\"SEQ\",\"members\":[");
            write_members(v, Ghost(*r), out);
            out.append("]}");
        },
        Rule::Choice(v) => {
            proof { lemma_members_view(*v); }
            out.append("{\"type\":\"CHOICE\",\"members\":[");
            write_members(v, Ghost(*r), out);
            out.append("]}");
        },
        Rule::Repeat(c) => {
            out.append("{\"type\":\"REPEAT\",\"content\":");
            write_rule(&**c, out);
            out.append("}");
        },
        Rule::Repeat1(c) => {
            out.append("{\"type\":\"REPEAT1\",\"content\":");
            write_rule(&**c, out);
            out.append("}");
        },
        Rule::Field(n, c) => {
            out.append("{\"type\":\"FIELD\",\"name\":");
            out.append(quote(n).as_str());
            out.append(",\"content\":");
            write_rule(&**c, out);
            out.append("}");
        },
        Rule::PrecLeft(l, c) => {
            out.append("{\"type\":\"PREC_LEFT\",\"value\":");
            out.append(decimal_text(*l as usize).as_str());
            out.append(",\"content\":");
            write_rule(&**c, out);
            out.append("}");
        },
        Rule::Pattern(p) => {
            out.append("{\"type\":\"PATTERN\",\"value\":");
            out.append(quote(p).as_str());
            out.append("}");
        },
        Rule::StringLiteral(s) => {
            out.append("{\"type\":\"STRING\",\"value\":");
            out.append(quote(s).as_str());
            out.append("}");
        },
        Rule::Blank => {
            out.append("{\"type\":\"BLANK\"}");
        },
    }
    assert(out@ =~= start + rule_json(r@));
}

fn write_members(v: &Vec<Rule>, Ghost(parent): Ghost<Rule>, out: &mut String)
    requires
        decreases_to!(parent => *v),
    ensures
        final(out)@ == old(out)@ + list_json(views(v@), v@.len()),
    decreases parent, 0nat,
{
    let ghost start = out@;
    let ghost m = views(v@);
    let mut i: usize = 0;
    assert(out@ =~= start + list_json(m, 0));
    while i < v.len()
        invariant
            i <= v.len(),
            m == views(v@),
            decreases_to!(parent => *v),
            out@ == start + list_json(m, i as nat),
        decreases v.len() - i,
    {
        proof {
            assert(decreases_to!(*v => v[i as int]));
        }
        if i > 0 {
            out.append(",");
        }
        write_rule(&v[i], out);
        assert(m[i as int] == v@[i as int]@);
        assert(out@ =~= start + list_json(m, (i + 1) as nat));
        i = i + 1;
    }
}

impl Grammar {
    /// The JSON text of the grammar.
    pub fn to_json(&self) -> (r: String)
        ensures
            r@ == grammar_json(self@),
    {
        let mut out = String::new();
        out.append("{\"name\":");
        out.append(quote(&self.name).as_str());
        out.append(",\"rules\":{");
        let ghost t = self.rules@;
        let ghost before = out@;
        let mut i: usize = 0;
        let n = self.rules.entries.len();
        assert(out@ =~= before + table_json(t, 0));
        while i < n
            invariant
                i <= n,
                n == self.rules.entries@.len(),
                t == self.rules@,
                out@ == before + table_json(t, i as nat),
            decreases n - i,
        {
            if i > 0 {
                out.append(",");
            }
            let entry = &self.rules.entries[i];
            out.append(quote(&entry.0).as_str());
            out.append(":");
            write_rule(&entry.1, &mut out);
            assert(t[i as int] == (entry.0@, entry.1@));
            assert(out@ =~= before + table_json(t, (i + 1) as nat));
            i = i + 1;
        }
        out.append("},\"extras\":[");
        let ghost e = self@.extras;
        let ghost before2 = out@;
        let mut j: usize = 0;
        assert(out@ =~= before2 + extras_json(e, 0));
        while j < self.extras.len()
            invariant
                j <= self.extras@.len(),
                e == self.extras@.map_values(|s: String| s@),
                out@ == before2 + extras_json(e, j as nat),
            decreases self.extras.len() - j,
        {
            if j > 0 {
                out.append(",");
            }
            let sym = Rule::Symbol(self.extras[j].clone());
            write_rule(&sym, &mut out);
            assert(sym@ == RuleView::Symbol(e[j as int]));
            assert(out@ =~= before2 + extras_json(e, (j + 1) as nat));
            j = j + 1;
        }
        out.append("]}");
        assert(out@ =~= grammar_json(self@));
        out
    }
}

/// Compiles a schema straight to the JSON text of its grammar.
pub fn generate_grammar_json(name: &Option<String>, defs: &Vec<Definition>) -> (r: Result<String, SchemaError>)
    ensures
        match grammar_spec(*name, defs@) {
            Ok(g) => r matches Ok(s) && s@ == grammar_json(g),
            Err(e) => r == Err::<String, SchemaError>(e),
        },
{
    match generate_grammar(name, defs) {
        Ok(g) => Ok(g.to_json()),
        Err(e) => Err(e),
    }
}

} // verus!
