//! Properties of the compiler that relate its parts, proved over the models.
use vstd::prelude::*;
use crate::rule::RuleView;
use crate::table::{TableView, table_insert};
use crate::schema::{FieldSpec, Record, Definition, FieldKind, kind_of, optional_target};
use crate::json::grammar_json;
use crate::compile::{grammar_spec, field_spec, fields_spec, record_spec, identity};

verus! {

/// Compiling is a function of the schema alone: equal schemas give equal
/// grammars, with the same JSON text character for character, or the same
/// error.
pub proof fn lemma_deterministic(n1: Option<String>, d1: Seq<Definition>, n2: Option<String>, d2: Seq<Definition>)
    requires
        n1 == n2,
        d1 == d2,
    ensures
        grammar_spec(n1, d1) == grammar_spec(n2, d2),
        grammar_spec(n1, d1) matches Ok(g1) ==> grammar_spec(n2, d2) matches Ok(g2) && grammar_json(g1) == grammar_json(g2),
{
}

/// A field of shape `Option<T>` without leaf metadata compiles to
/// `Choice[Blank, Field(name, Symbol(T))]`, and registers nothing.
pub proof fn lemma_optional_field(path: Seq<char>, f: FieldSpec, i: nat, t: TableView, target: Seq<char>)
    requires
        f.leaf is None,
        kind_of(f.ty) == FieldKind::Optional,
        optional_target(f.ty) == Ok::<Seq<char>, crate::schema::SchemaError>(target),
    ensures
        field_spec(path, f, i, t) == Ok::<(RuleView, TableView), crate::schema::SchemaError>((
            RuleView::Choice(seq![RuleView::Blank, RuleView::Field(identity(f, i), Box::new(RuleView::Symbol(target)))]),
            t,
        )),
{
}

/// A record whose only field is of shape `Option<T>`, without leaf metadata
/// or precedence, registers `Sequence[Choice[Blank, Field(name, Symbol(T))]]`.
pub proof fn lemma_optional_record(path: Seq<char>, r: Record, t: TableView, target: Seq<char>)
    requires
        r.fields@.len() == 1,
        r.prec_left is None,
        r.fields@[0].leaf is None,
        kind_of(r.fields@[0].ty) == FieldKind::Optional,
        optional_target(r.fields@[0].ty) == Ok::<Seq<char>, crate::schema::SchemaError>(target),
    ensures
        record_spec(path, r, t) == Ok::<TableView, crate::schema::SchemaError>(table_insert(
            t,
            path,
            RuleView::Sequence(seq![RuleView::Choice(seq![
                RuleView::Blank,
                RuleView::Field(identity(r.fields@[0], 0), Box::new(RuleView::Symbol(target))),
            ])]),
        )),
{
    lemma_optional_field(path, r.fields@[0], 0, t, target);
    assert(fields_spec(path, r.fields@, 0, t) == Ok::<(Seq<RuleView>, TableView), crate::schema::SchemaError>((Seq::empty(), t)));
    assert(Seq::<RuleView>::empty().push(
        RuleView::Choice(seq![RuleView::Blank, RuleView::Field(identity(r.fields@[0], 0), Box::new(RuleView::Symbol(target)))]),
    ) =~= seq![RuleView::Choice(seq![
        RuleView::Blank,
        RuleView::Field(identity(r.fields@[0], 0), Box::new(RuleView::Symbol(target))),
    ])]);
}

/// Left precedence wraps exactly the sequence that the same fields give
/// without it: the record registers `PrecLeft(level, s)` where it would
/// otherwise register `s`, and fails alike.
pub proof fn lemma_prec_left_wraps(path: Seq<char>, r: Record, level: u32, t: TableView)
    requires
        r.prec_left == Some(level),
    ensures
        match record_spec(path, Record { fields: r.fields, prec_left: None }, t) {
            Ok(plain) => exists|s: RuleView, t2: TableView| {
                &&& plain == table_insert(t2, path, s)
                &&& record_spec(path, r, t) == Ok::<TableView, crate::schema::SchemaError>(
                    table_insert(t2, path, RuleView::PrecLeft(level, Box::new(s))),
                )
            },
            Err(e) => record_spec(path, r, t) == Err::<TableView, crate::schema::SchemaError>(e),
        },
{
    if let Ok((frags, t2)) = fields_spec(path, r.fields@, r.fields@.len(), t) {
        let s = RuleView::Sequence(frags);
        assert(record_spec(path, Record { fields: r.fields, prec_left: None }, t) == Ok::<TableView, crate::schema::SchemaError>(
            table_insert(t2, path, s),
        ));
    }
}

} // verus!
