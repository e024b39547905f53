//! The schema-to-grammar compiler: each component is a spec function over the
//! models, and an executable function proved to compute it.
use vstd::prelude::*;
use crate::rule::{Rule, RuleView, views, sequence, choice};
use crate::table::{RuleTable, TableView, keys_distinct, has_key, table_insert, table_get, lemma_insert, lemma_insert_other};
use crate::schema::{
    SchemaError, TypeExpr, LeafMeta, FieldSpec, Record, Variant, DefinitionKind, Definition,
    FieldKind, kind_of, bare_name, wraps_optional_list, is_optional_list, optional_target, list_target, resolve_kind, resolve_bare_name,
    resolve_optional, resolve_list,
};

verus! {

/// The character of a decimal digit.
pub open spec fn digit(d: nat) -> char {
    if d == 0 { '0' } else if d == 1 { '1' } else if d == 2 { '2' } else if d == 3 { '3' }
    else if d == 4 { '4' } else if d == 5 { '5' } else if d == 6 { '6' } else if d == 7 { '7' }
    else if d == 8 { '8' } else { '9' }
}

/// The decimal text of `n`, without leading zeros.
pub open spec fn decimal(n: nat) -> Seq<char>
    decreases n,
{
    if n < 10 {
        seq![digit(n)]
    } else {
        decimal(n / 10) + seq![digit(n % 10)]
    }
}

/// `a_b`: the name of something named `b` inside `a`.
pub open spec fn qualified(a: Seq<char>, b: Seq<char>) -> Seq<char> {
    a + "_"@ + b
}

/// A field is known by its name, or else by its position.
pub open spec fn identity(f: FieldSpec, i: nat) -> Seq<char> {
    match f.ident {
        Some(s) => s@,
        None => decimal(i),
    }
}

/// What one step of the compiler yields: a fragment and the table after it.
pub type Step = Result<(RuleView, TableView), SchemaError>;

/// An executable step agrees with its model.
pub open spec fn step_agrees(r: Result<Rule, SchemaError>, after: TableView, s: Step) -> bool {
    match s {
        Ok((v, t)) => r matches Ok(x) && x@ == v && after == t,
        Err(e) => r == Err::<Rule, SchemaError>(e),
    }
}

/// An executable step that only fills the table agrees with its model.
pub open spec fn fill_agrees(r: Result<(), SchemaError>, after: TableView, s: Result<TableView, SchemaError>) -> bool {
    match s {
        Ok(t) => r is Ok && after == t,
        Err(e) => r == Err::<(), SchemaError>(e),
    }
}

/// Every name of `a` is a name of `b`, and the first name stays first.
pub open spec fn keys_kept(a: TableView, b: TableView) -> bool {
    &&& forall|k: Seq<char>| #[trigger] has_key(a, k) ==> has_key(b, k)
    &&& a.len() > 0 ==> b.len() > 0 && b[0].0 == a[0].0
}

pub proof fn lemma_keys_kept_trans(a: TableView, b: TableView, c: TableView)
    requires
        keys_kept(a, b),
        keys_kept(b, c),
    ensures
        keys_kept(a, c),
{
    assert forall|k: Seq<char>| #[trigger] has_key(a, k) implies has_key(c, k) by {
        assert(has_key(b, k));
    }
}

/// A terminal, or a reference to the rule that `ty` names (through its
/// `Option` when `optional`).
pub open spec fn leaf_spec(path: Seq<char>, leaf: Option<LeafMeta>, ty: TypeExpr, optional: bool, t: TableView) -> Step {
    match leaf {
        Some(LeafMeta::Pattern(p)) => Ok((RuleView::Symbol(path), table_insert(t, path, RuleView::Pattern(p@)))),
        Some(LeafMeta::Literal(s)) => Ok((RuleView::Symbol(path), table_insert(t, path, RuleView::StringLiteral(s@)))),
        None => {
            let target = if optional { optional_target(ty) } else { bare_name(ty) };
            match target {
                Ok(n) => Ok((RuleView::Symbol(n), t)),
                Err(e) => Err(e),
            }
        },
    }
}

/// One occurrence of a list's item, named by the list field.
pub open spec fn item_spec(id: Seq<char>, n: Seq<char>) -> RuleView {
    RuleView::Field(id, Box::new(RuleView::Symbol(n)))
}

/// The repetition of a list field.
pub open spec fn list_spec(id: Seq<char>, path: Seq<char>, f: FieldSpec, t: TableView) -> Step {
    match list_target(f.ty) {
        Err(e) => Err(e),
        Ok(n) => match f.delimiter {
            None => Ok((
                if f.non_empty {
                    RuleView::Repeat1(Box::new(item_spec(id, n)))
                } else {
                    RuleView::Repeat(Box::new(item_spec(id, n)))
                },
                t,
            )),
            Some(d) => match leaf_spec(qualified(path, "delimiter"@), d.leaf, d.ty, false, t) {
                Err(e) => Err(e),
                Ok((dr, t2)) => {
                    let m = RuleView::Sequence(seq![
                        item_spec(id, n),
                        RuleView::Repeat(Box::new(RuleView::Sequence(seq![dr, item_spec(id, n)]))),
                    ]);
                    Ok((if f.non_empty { m } else { RuleView::Choice(seq![RuleView::Blank, m]) }, t2))
                },
            },
        },
    }
}

/// How a field's content is placed in its record.
pub open spec fn wrap_field(k: FieldKind, id: Seq<char>, c: RuleView) -> RuleView {
    if k == FieldKind::List {
        c
    } else if k == FieldKind::Optional {
        RuleView::Choice(seq![RuleView::Blank, RuleView::Field(id, Box::new(c))])
    } else {
        RuleView::Field(id, Box::new(c))
    }
}

/// The fragment of field `f`, at position `i` of the record at `path`. An
/// `Option` of a list is refused before anything else, terminal or not.
pub open spec fn field_spec(path: Seq<char>, f: FieldSpec, i: nat, t: TableView) -> Step {
    if wraps_optional_list(f.ty) {
        Err(SchemaError::OptionalList)
    } else {
        field_content_spec(path, f, i, t)
    }
}

/// The fragment of a field whose type is no `Option` of a list.
pub open spec fn field_content_spec(path: Seq<char>, f: FieldSpec, i: nat, t: TableView) -> Step {
    let id = identity(f, i);
    let fp = qualified(path, id);
    let k = kind_of(f.ty);
    let content = if k == FieldKind::List && f.leaf is None {
        list_spec(id, fp, f, t)
    } else {
        leaf_spec(fp, f.leaf, f.ty, k == FieldKind::Optional, t)
    };
    match content {
        Err(e) => Err(e),
        Ok((c, t2)) => Ok((wrap_field(k, id, c), t2)),
    }
}

/// The fragments of the first `n` fields, in order.
pub open spec fn fields_spec(path: Seq<char>, fields: Seq<FieldSpec>, n: nat, t: TableView) -> Result<(Seq<RuleView>, TableView), SchemaError>
    decreases n,
{
    if n == 0 {
        Ok((Seq::empty(), t))
    } else {
        match fields_spec(path, fields, (n - 1) as nat, t) {
            Err(e) => Err(e),
            Ok((fr, t1)) => match field_spec(path, fields[n - 1], (n - 1) as nat, t1) {
                Err(e) => Err(e),
                Ok((x, t2)) => Ok((fr.push(x), t2)),
            },
        }
    }
}

/// The rule of a record: its fields in sequence, under its precedence.
pub open spec fn record_rule(frags: Seq<RuleView>, prec: Option<u32>) -> RuleView {
    match prec {
        Some(l) => RuleView::PrecLeft(l, Box::new(RuleView::Sequence(frags))),
        None => RuleView::Sequence(frags),
    }
}

/// The table after the record at `path` is compiled and registered.
pub open spec fn record_spec(path: Seq<char>, r: Record, t: TableView) -> Result<TableView, SchemaError> {
    match fields_spec(path, r.fields@, r.fields@.len(), t) {
        Err(e) => Err(e),
        Ok((frags, t2)) => Ok(table_insert(t2, path, record_rule(frags, r.prec_left))),
    }
}

/// The table after the first `n` variants of union `u`.
pub open spec fn variants_spec(u: Seq<char>, vs: Seq<Variant>, n: nat, t: TableView) -> Result<TableView, SchemaError>
    decreases n,
{
    if n == 0 {
        Ok(t)
    } else {
        match variants_spec(u, vs, (n - 1) as nat, t) {
            Err(e) => Err(e),
            Ok(t1) => record_spec(qualified(u, vs[n - 1].name@), vs[n - 1].body, t1),
        }
    }
}

/// The rule of a union: a choice among its variants' rules, in order.
pub open spec fn union_rule(u: Seq<char>, vs: Seq<Variant>) -> RuleView {
    RuleView::Choice(vs.map_values(|v: Variant| RuleView::Symbol(qualified(u, v.name@))))
}

/// The table after a definition.
pub open spec fn definition_spec(d: Definition, t: TableView) -> Result<TableView, SchemaError> {
    match d.kind {
        DefinitionKind::Record(r) => record_spec(d.name@, r, t),
        DefinitionKind::TaggedUnion(vs) => match variants_spec(d.name@, vs@, vs@.len(), t) {
            Err(e) => Err(e),
            Ok(t2) => Ok(table_insert(t2, d.name@, union_rule(d.name@, vs@))),
        },
    }
}

/// The table after the first `n` definitions.
pub open spec fn definitions_spec(defs: Seq<Definition>, n: nat, t: TableView) -> Result<TableView, SchemaError>
    decreases n,
{
    if n == 0 {
        Ok(t)
    } else {
        match definitions_spec(defs, (n - 1) as nat, t) {
            Err(e) => Err(e),
            Ok(t1) => definition_spec(defs[n - 1], t1),
        }
    }
}

proof fn lemma_fields_err(path: Seq<char>, fields: Seq<FieldSpec>, i: nat, n: nat, t: TableView)
    requires
        i <= n,
        fields_spec(path, fields, i, t) is Err,
    ensures
        fields_spec(path, fields, n, t) == fields_spec(path, fields, i, t),
    decreases n,
{
    if n > i {
        lemma_fields_err(path, fields, i, (n - 1) as nat, t);
    }
}

proof fn lemma_variants_err(u: Seq<char>, vs: Seq<Variant>, i: nat, n: nat, t: TableView)
    requires
        i <= n,
        variants_spec(u, vs, i, t) is Err,
    ensures
        variants_spec(u, vs, n, t) == variants_spec(u, vs, i, t),
    decreases n,
{
    if n > i {
        lemma_variants_err(u, vs, i, (n - 1) as nat, t);
    }
}

proof fn lemma_definitions_err(defs: Seq<Definition>, i: nat, n: nat, t: TableView)
    requires
        i <= n,
        definitions_spec(defs, i, t) is Err,
    ensures
        definitions_spec(defs, n, t) == definitions_spec(defs, i, t),
    decreases n,
{
    if n > i {
        lemma_definitions_err(defs, i, (n - 1) as nat, t);
    }
}

fn digit_text(d: usize) -> (r: &'static str)
    requires
        d < 10,
    ensures
        r@ == seq![digit(d as nat)],
{
    if d == 0 {
        proof { reveal_strlit("0"); }
        "0"
    } else if d == 1 {
        proof { reveal_strlit("1"); }
        "1"
    } else if d == 2 {
        proof { reveal_strlit("2"); }
        "2"
    } else if d == 3 {
        proof { reveal_strlit("3"); }
        "3"
    } else if d == 4 {
        proof { reveal_strlit("4"); }
        "4"
    } else if d == 5 {
        proof { reveal_strlit("5"); }
        "5"
    } else if d == 6 {
        proof { reveal_strlit("6"); }
        "6"
    } else if d == 7 {
        proof { reveal_strlit("7"); }
        "7"
    } else if d == 8 {
        proof { reveal_strlit("8"); }
        "8"
    } else {
        proof { reveal_strlit("9"); }
        "9"
    }
}

/// The decimal text of `n`.
pub fn decimal_text(n: usize) -> (r: String)
    ensures
        r@ == decimal(n as nat),
    decreases n,
{
    let mut s = if n < 10 {
        String::new()
    } else {
        decimal_text(n / 10)
    };
    s.append(digit_text(n % 10));
    proof {
        if n < 10 {
            assert(s@ =~= seq![digit(n as nat)]);
        }
    }
    s
}

/// `a_b`.
pub fn qualify(a: &String, b: &String) -> (r: String)
    ensures
        r@ == qualified(a@, b@),
{
    let mut s = a.clone();
    s.append("_");
    s.append(b.as_str());
    s
}

/// Leaf terminal synthesis: registers the terminal of `leaf` under `path`
/// and refers to it, or refers to the rule that `ty` names.
pub fn compile_leaf(path: String, leaf: &Option<LeafMeta>, ty: &TypeExpr, optional: bool, table: &mut RuleTable) -> (r: Result<Rule, SchemaError>)
    requires
        old(table).wf(),
    ensures
        final(table).wf(),
        keys_kept(old(table)@, final(table)@),
        step_agrees(r, final(table)@, leaf_spec(path@, *leaf, *ty, optional, old(table)@)),
{
    match leaf {
        Some(LeafMeta::Pattern(p)) => {
            proof { lemma_insert(table@, path@, RuleView::Pattern(p@)); }
            table.insert(path.clone(), Rule::Pattern(p.clone()));
            Ok(Rule::Symbol(path))
        },
        Some(LeafMeta::Literal(s)) => {
            proof { lemma_insert(table@, path@, RuleView::StringLiteral(s@)); }
            table.insert(path.clone(), Rule::StringLiteral(s.clone()));
            Ok(Rule::Symbol(path))
        },
        None => {
            let target = if optional {
                resolve_optional(ty)
            } else {
                resolve_bare_name(ty)
            };
            match target {
                Ok(n) => Ok(Rule::Symbol(n)),
                Err(e) => Err(e),
            }
        },
    }
}

fn item_rule(id: &String, n: &String) -> (r: Rule)
    ensures
        r@ == item_spec(id@, n@),
{
    let sym = Rule::Symbol(n.clone());
    assert(sym@ == RuleView::Symbol(n@));
    Rule::Field(id.clone(), Box::new(sym))
}

/// List synthesis: the repetition of a list field, with its delimiter
/// registered under `{path}_delimiter`.
pub fn compile_list(id: &String, path: &String, f: &FieldSpec, table: &mut RuleTable) -> (r: Result<Rule, SchemaError>)
    requires
        old(table).wf(),
    ensures
        final(table).wf(),
        keys_kept(old(table)@, final(table)@),
        step_agrees(r, final(table)@, list_spec(id@, path@, *f, old(table)@)),
{
    let n = match resolve_list(&f.ty) {
        Ok(n) => n,
        Err(e) => {
            return Err(e);
        },
    };
    match &f.delimiter {
        None => {
            let item = item_rule(id, &n);
            if f.non_empty {
                Ok(Rule::Repeat1(Box::new(item)))
            } else {
                Ok(Rule::Repeat(Box::new(item)))
            }
        },
        Some(d) => {
            let dpath = qualify(path, &String::from_str("delimiter"));
            let dr = match compile_leaf(dpath, &d.leaf, &d.ty, false, table) {
                Ok(x) => x,
                Err(e) => {
                    return Err(e);
                },
            };
            let ghost drv = dr@;
            let first = item_rule(id, &n);
            let again = item_rule(id, &n);
            let pair = vec![dr, again];
            assert(views(pair@) =~= seq![drv, item_spec(id@, n@)]);
            let inner = sequence(pair);
            let ghost innerv = inner@;
            let outer = vec![first, Rule::Repeat(Box::new(inner))];
            assert(views(outer@) =~= seq![item_spec(id@, n@), RuleView::Repeat(Box::new(innerv))]);
            let m = sequence(outer);
            if f.non_empty {
                Ok(m)
            } else {
                let ghost mv = m@;
                let alts = vec![Rule::Blank, m];
                assert(views(alts@) =~= seq![RuleView::Blank, mv]);
                Ok(choice(alts))
            }
        },
    }
}

/// Record compiler, one field: its content, placed by its outer shape.
pub fn compile_field(path: &String, f: &FieldSpec, i: usize, table: &mut RuleTable) -> (r: Result<Rule, SchemaError>)
    requires
        old(table).wf(),
    ensures
        final(table).wf(),
        keys_kept(old(table)@, final(table)@),
        step_agrees(r, final(table)@, field_spec(path@, *f, i as nat, old(table)@)),
{
    if is_optional_list(&f.ty) {
        return Err(SchemaError::OptionalList);
    }
    let id = match &f.ident {
        Some(s) => s.clone(),
        None => decimal_text(i),
    };
    let fp = qualify(path, &id);
    let k = resolve_kind(&f.ty);
    let content = if k == FieldKind::List && f.leaf.is_none() {
        compile_list(&id, &fp, f, table)
    } else {
        compile_leaf(fp, &f.leaf, &f.ty, k == FieldKind::Optional, table)
    };
    let c = match content {
        Ok(c) => c,
        Err(e) => {
            return Err(e);
        },
    };
    if k == FieldKind::List {
        Ok(c)
    } else {
        let core = Rule::Field(id, Box::new(c));
        if k == FieldKind::Optional {
            let ghost corev = core@;
            let alts = vec![Rule::Blank, core];
            assert(views(alts@) =~= seq![RuleView::Blank, corev]);
            Ok(choice(alts))
        } else {
            Ok(core)
        }
    }
}

/// Record compiler: registers under `path` the sequence of the record's
/// fields, under its precedence if it has one.
pub fn compile_record(path: &String, rec: &Record, table: &mut RuleTable) -> (r: Result<(), SchemaError>)
    requires
        old(table).wf(),
    ensures
        final(table).wf(),
        keys_kept(old(table)@, final(table)@),
        fill_agrees(r, final(table)@, record_spec(path@, *rec, old(table)@)),
        r is Ok ==> has_key(final(table)@, path@),
{
    let ghost t0 = table@;
    let mut frags: Vec<Rule> = Vec::new();
    let mut i: usize = 0;
    assert(views(frags@) =~= Seq::<RuleView>::empty());
    while i < rec.fields.len()
        invariant
            i <= rec.fields.len(),
            table.wf(),
            t0 == old(table)@,
            keys_kept(t0, table@),
            fields_spec(path@, rec.fields@, i as nat, t0) == Ok::<(Seq<RuleView>, TableView), SchemaError>((views(frags@), table@)),
        decreases rec.fields.len() - i,
    {
        let ghost before = table@;
        match compile_field(path, &rec.fields[i], i, table) {
            Ok(x) => {
                let ghost fb = frags@;
                frags.push(x);
                assert(views(frags@) =~= views(fb).push(x@));
            },
            Err(e) => {
                proof {
                    assert(fields_spec(path@, rec.fields@, (i + 1) as nat, t0) is Err);
                    lemma_fields_err(path@, rec.fields@, (i + 1) as nat, rec.fields@.len(), t0);
                    lemma_keys_kept_trans(t0, before, table@);
                }
                return Err(e);
            },
        }
        i = i + 1;
    }
    let ghost fv = views(frags@);
    let seq_rule = sequence(frags);
    let rule = match rec.prec_left {
        Some(l) => Rule::PrecLeft(l, Box::new(seq_rule)),
        None => seq_rule,
    };
    assert(rule@ == record_rule(fv, rec.prec_left));
    proof { lemma_insert(table@, path@, rule@); }
    table.insert(path.clone(), rule);
    Ok(())
}

/// The model of a compiled grammar.
pub struct GrammarView {
    pub name: Seq<char>,
    pub rules: TableView,
    pub extras: Seq<Seq<char>>,
}

/// A compiled grammar: its name, its rule table (the start rule first) and
/// the names of the definitions that may stand between any two tokens.
pub struct Grammar {
    pub name: String,
    pub rules: RuleTable,
    pub extras: Vec<String>,
}

impl View for Grammar {
    type V = GrammarView;

    open spec fn view(&self) -> GrammarView {
        GrammarView {
            name: self.name@,
            rules: self.rules@,
            extras: self.extras@.map_values(|s: String| s@),
        }
    }
}

pub open spec fn is_root() -> spec_fn(Definition) -> bool {
    |d: Definition| d.root
}

pub open spec fn is_extra() -> spec_fn(Definition) -> bool {
    |d: Definition| d.extra
}

/// The definitions marked as root, in order.
pub open spec fn roots(defs: Seq<Definition>) -> Seq<Definition> {
    defs.filter(is_root())
}

/// The names of the definitions marked extra, in declaration order.
pub open spec fn extras_of(defs: Seq<Definition>) -> Seq<Seq<char>> {
    defs.filter(is_extra()).map_values(|d: Definition| d.name@)
}

/// The name of the start rule.
pub open spec fn start_name() -> Seq<char> {
    "source_file"@
}

/// The table before any definition: a placeholder for the start rule, so that
/// it comes first.
pub open spec fn seed() -> TableView {
    seq![(start_name(), RuleView::Blank)]
}

/// The grammar of a schema, or the first error in it.
pub open spec fn grammar_spec(name: Option<String>, defs: Seq<Definition>) -> Result<GrammarView, SchemaError> {
    match name {
        None => Err(SchemaError::MissingGrammarName),
        Some(nm) => if roots(defs).len() == 0 {
            Err(SchemaError::MissingRoot)
        } else if roots(defs).len() > 1 {
            Err(SchemaError::MultipleRoots)
        } else {
            match definitions_spec(defs, defs.len(), seed()) {
                Err(e) => Err(e),
                Ok(t) => Ok(GrammarView {
                    name: nm@,
                    rules: table_insert(t, start_name(), table_get(t, roots(defs)[0].name@)),
                    extras: extras_of(defs),
                }),
            }
        },
    }
}

proof fn lemma_filter_step(s: Seq<Definition>, p: spec_fn(Definition) -> bool, i: int)
    requires
        0 <= i < s.len(),
    ensures
        s.take(i + 1).filter(p) == (if p(s[i]) { s.take(i).filter(p).push(s[i]) } else { s.take(i).filter(p) }),
{
    reveal(Seq::filter);
    assert(s.take(i + 1).drop_last() =~= s.take(i));
    assert(s.take(i + 1).last() == s[i]);
}

/// Registers the rules of one definition.
pub fn compile_definition(d: &Definition, table: &mut RuleTable) -> (r: Result<(), SchemaError>)
    requires
        old(table).wf(),
    ensures
        final(table).wf(),
        keys_kept(old(table)@, final(table)@),
        fill_agrees(r, final(table)@, definition_spec(*d, old(table)@)),
        r is Ok ==> has_key(final(table)@, d.name@),
{
    match &d.kind {
        DefinitionKind::Record(rec) => compile_record(&d.name, rec, table),
        DefinitionKind::TaggedUnion(vs) => {
            let ghost t0 = table@;
            let mut members: Vec<Rule> = Vec::new();
            let mut i: usize = 0;
            while i < vs.len()
                invariant
                    i <= vs.len(),
                    table.wf(),
                    d.kind == DefinitionKind::TaggedUnion(*vs),
                    t0 == old(table)@,
                    keys_kept(t0, table@),
                    variants_spec(d.name@, vs@, i as nat, t0) == Ok::<TableView, SchemaError>(table@),
                    members@.len() == i,
                    forall|j: int| 0 <= j < i ==> #[trigger] members@[j]@ == RuleView::Symbol(qualified(d.name@, vs@[j].name@)),
                decreases vs.len() - i,
            {
                let vpath = qualify(&d.name, &vs[i].name);
                let ghost before = table@;
                match compile_record(&vpath, &vs[i].body, table) {
                    Ok(()) => {},
                    Err(e) => {
                        proof {
                            assert(variants_spec(d.name@, vs@, (i + 1) as nat, t0) == Err::<TableView, SchemaError>(e));
                            lemma_variants_err(d.name@, vs@, (i + 1) as nat, vs@.len(), t0);
                            lemma_keys_kept_trans(t0, before, table@);
                        }
                        return Err(e);
                    },
                }
                proof {
                    lemma_keys_kept_trans(t0, before, table@);
                }
                members.push(Rule::Symbol(vpath));
                i = i + 1;
            }
            assert(views(members@) =~= vs@.map_values(|v: Variant| RuleView::Symbol(qualified(d.name@, v.name@))));
            let rule = choice(members);
            proof { lemma_insert(table@, d.name@, rule@); }
            let ghost before = table@;
            table.insert(d.name.clone(), rule);
            proof {
                lemma_keys_kept_trans(t0, before, table@);
            }
            Ok(())
        },
    }
}

/// Compiles a schema into its grammar: the definitions in declaration order,
/// the root's rule copied to the start rule, and the extras collected.
pub fn generate_grammar(name: &Option<String>, defs: &Vec<Definition>) -> (r: Result<Grammar, SchemaError>)
    ensures
        match grammar_spec(*name, defs@) {
            Ok(g) => r matches Ok(x) && x@ == g && x.rules.wf(),
            Err(e) => r == Err::<Grammar, SchemaError>(e),
        },
        r matches Ok(x) ==> {
            &&& keys_distinct(x.rules@)
            &&& x.rules@[0].0 == start_name()
            &&& has_key(x.rules@, roots(defs@)[0].name@)
            &&& table_get(x.rules@, start_name()) == table_get(x.rules@, roots(defs@)[0].name@)
        },
{
    let nm = match name {
        Some(n) => n,
        None => {
            return Err(SchemaError::MissingGrammarName);
        },
    };
    let mut count: usize = 0;
    let mut root_idx: usize = 0;
    let mut extras: Vec<String> = Vec::new();
    let mut i: usize = 0;
    assert(defs@.take(0) =~= Seq::<Definition>::empty());
    proof { reveal(Seq::filter); }
    assert(extras@.map_values(|s: String| s@) =~= extras_of(defs@.take(0)));
    while i < defs.len()
        invariant
            i <= defs.len(),
            count <= i,
            count == roots(defs@.take(i as int)).len(),
            count > 0 ==> root_idx < i && roots(defs@.take(i as int))[0] == defs@[root_idx as int],
            extras@.map_values(|s: String| s@) == extras_of(defs@.take(i as int)),
        decreases defs.len() - i,
    {
        proof {
            lemma_filter_step(defs@, is_root(), i as int);
            lemma_filter_step(defs@, is_extra(), i as int);
        }
        let ghost eb = extras@;
        if defs[i].root {
            if count == 0 {
                root_idx = i;
            }
            count = count + 1;
        }
        if defs[i].extra {
            let nm_i = defs[i].name.clone();
            extras.push(nm_i);
            proof {
                let prev = defs@.take(i as int).filter(is_extra());
                assert(defs@.take(i + 1).filter(is_extra()) == prev.push(defs@[i as int]));
                assert(prev.push(defs@[i as int]).map_values(|d: Definition| d.name@) =~= prev.map_values(|d: Definition| d.name@).push(nm_i@));
                assert(extras@ == eb.push(nm_i));
                assert(extras@.map_values(|s: String| s@) =~= eb.map_values(|s: String| s@).push(nm_i@));
            }
        } else {
            assert(extras@.map_values(|s: String| s@) =~= extras_of(defs@.take(i + 1)));
        }
        i = i + 1;
    }
    assert(defs@.take(defs@.len() as int) =~= defs@);
    if count == 0 {
        return Err(SchemaError::MissingRoot);
    }
    if count > 1 {
        return Err(SchemaError::MultipleRoots);
    }
    let mut table = RuleTable::new();
    proof { lemma_insert(table@, start_name(), RuleView::Blank); }
    table.insert(String::from_str("source_file"), Rule::Blank);
    assert(table@ =~= seed());
    let mut i: usize = 0;
    while i < defs.len()
        invariant
            i <= defs.len(),
            table.wf(),
            *name == Some(*nm),
            roots(defs@).len() == 1,
            definitions_spec(defs@, i as nat, seed()) == Ok::<TableView, SchemaError>(table@),
            table@.len() > 0 && table@[0].0 == start_name(),
            forall|j: int| 0 <= j < i ==> #[trigger] has_key(table@, defs@[j].name@),
        decreases defs.len() - i,
    {
        let ghost before = table@;
        match compile_definition(&defs[i], &mut table) {
            Ok(()) => {},
            Err(e) => {
                proof {
                    assert(definitions_spec(defs@, (i + 1) as nat, seed()) is Err);
                    lemma_definitions_err(defs@, (i + 1) as nat, defs@.len(), seed());
                }
                return Err(e);
            },
        }
        proof {
            assert forall|j: int| 0 <= j < i + 1 implies #[trigger] has_key(table@, defs@[j].name@) by {
                if j < i {
                    assert(has_key(before, defs@[j].name@));
                }
            }
        }
        i = i + 1;
    }
    let root = &defs[root_idx].name;
    assert(has_key(table@, defs@[root_idx as int].name@));
    let rule = match table.get(root) {
        Some(x) => x,
        None => {
            proof { assert(false); }
            return Err(SchemaError::MissingRoot);
        },
    };
    proof {
        lemma_insert(table@, start_name(), rule@);
        if defs@[root_idx as int].name@ != start_name() {
            lemma_insert_other(table@, start_name(), rule@, defs@[root_idx as int].name@);
        }
    }
    let ghost tfinal = table@;
    table.insert(String::from_str("source_file"), rule);
    let g = Grammar { name: nm.clone(), rules: table, extras };
    proof {
        assert(roots(defs@).len() == 1);
        assert(roots(defs@)[0].name@ == defs@[root_idx as int].name@);
        assert(definitions_spec(defs@, defs@.len(), seed()) == Ok::<TableView, SchemaError>(tfinal));
        assert(g@.rules == table_insert(tfinal, start_name(), table_get(tfinal, roots(defs@)[0].name@)));
        assert(g@.extras == extras_of(defs@));
    }
    Ok(g)
}

} // verus!
