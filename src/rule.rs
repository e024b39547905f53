//! Grammar rules: the executable tree and its mathematical model.
use vstd::prelude::*;

verus! {

broadcast use vstd::std_specs::vec::axiom_vec_index_decreases;

/// The abstract value of a rule, over sequences of characters.
pub enum RuleView {
    Symbol(Seq<char>),
    Sequence(Seq<RuleView>),
    Choice(Seq<RuleView>),
    Repeat(Box<RuleView>),
    Repeat1(Box<RuleView>),
    Field(Seq<char>, Box<RuleView>),
    PrecLeft(u32, Box<RuleView>),
    Pattern(Seq<char>),
    StringLiteral(Seq<char>),
    Blank,
}

/// One node of the emitted grammar.
#[derive(Debug, PartialEq)]
pub enum Rule {
    Symbol(String),
    Sequence(Vec<Rule>),
    Choice(Vec<Rule>),
    Repeat(Box<Rule>),
    Repeat1(Box<Rule>),
    Field(String, Box<Rule>),
    PrecLeft(u32, Box<Rule>),
    Pattern(String),
    StringLiteral(String),
    Blank,
}

impl View for Rule {
    type V = RuleView;

    open spec fn view(&self) -> RuleView
        decreases self, 0nat,
    {
        match self {
            Rule::Symbol(s) => RuleView::Symbol(s@),
            Rule::Sequence(v) => RuleView::Sequence(members_view(*v, v@.len())),
            Rule::Choice(v) => RuleView::Choice(members_view(*v, v@.len())),
            Rule::Repeat(b) => RuleView::Repeat(Box::new((**b).view())),
            Rule::Repeat1(b) => RuleView::Repeat1(Box::new((**b).view())),
            Rule::Field(n, b) => RuleView::Field(n@, Box::new((**b).view())),
            Rule::PrecLeft(l, b) => RuleView::PrecLeft(*l, Box::new((**b).view())),
            Rule::Pattern(s) => RuleView::Pattern(s@),
            Rule::StringLiteral(s) => RuleView::StringLiteral(s@),
            Rule::Blank => RuleView::Blank,
        }
    }
}

/// The models of the first `n` members.
pub open spec fn members_view(v: Vec<Rule>, n: nat) -> Seq<RuleView>
    decreases v, n,
{
    if n == 0 || n > v@.len() {
        Seq::empty()
    } else {
        members_view(v, (n - 1) as nat).push(v@[n - 1].view())
    }
}

/// The models of a sequence of rules, member by member.
pub open spec fn views(v: Seq<Rule>) -> Seq<RuleView> {
    v.map_values(|r: Rule| r@)
}

proof fn lemma_members_prefix(v: Vec<Rule>, n: nat)
    requires
        n <= v@.len(),
    ensures
        members_view(v, n) == views(v@.take(n as int)),
    decreases n,
{
    if n > 0 {
        lemma_members_prefix(v, (n - 1) as nat);
        assert(views(v@.take(n as int)) =~= views(v@.take(n - 1)).push(v@[n - 1]@));
    } else {
        assert(views(v@.take(0)) =~= Seq::<RuleView>::empty());
    }
}

pub proof fn lemma_members_view(v: Vec<Rule>)
    ensures
        Rule::Sequence(v)@ == RuleView::Sequence(views(v@)),
        Rule::Choice(v)@ == RuleView::Choice(views(v@)),
{
    lemma_members_prefix(v, v@.len());
    assert(v@.take(v@.len() as int) =~= v@);
}

/// `Sequence` over the given members.
pub fn sequence(v: Vec<Rule>) -> (r: Rule)
    ensures
        r@ == RuleView::Sequence(views(v@)),
{
    proof { lemma_members_view(v); }
    Rule::Sequence(v)
}

/// `Choice` over the given members.
pub fn choice(v: Vec<Rule>) -> (r: Rule)
    ensures
        r@ == RuleView::Choice(views(v@)),
{
    proof { lemma_members_view(v); }
    Rule::Choice(v)
}

impl Rule {
    /// A deep copy, equal in value and independent of the original.
    pub fn copy(&self) -> (r: Rule)
        ensures
            r@ == self@,
        decreases self,
    {
        match self {
            Rule::Symbol(s) => Rule::Symbol(s.clone()),
            Rule::Sequence(v) => {
                proof { lemma_members_view(*v); }
                sequence(copy_members(v, Ghost(*self)))
            },
            Rule::Choice(v) => {
                proof { lemma_members_view(*v); }
                choice(copy_members(v, Ghost(*self)))
            },
            Rule::Repeat(b) => Rule::Repeat(Box::new((**b).copy())),
            Rule::Repeat1(b) => Rule::Repeat1(Box::new((**b).copy())),
            Rule::Field(n, b) => Rule::Field(n.clone(), Box::new((**b).copy())),
            Rule::PrecLeft(l, b) => Rule::PrecLeft(*l, Box::new((**b).copy())),
            Rule::Pattern(s) => Rule::Pattern(s.clone()),
            Rule::StringLiteral(s) => Rule::StringLiteral(s.clone()),
            Rule::Blank => Rule::Blank,
        }
    }
}

fn copy_members(v: &Vec<Rule>, Ghost(parent): Ghost<Rule>) -> (r: Vec<Rule>)
    requires
        decreases_to!(parent => *v),
    ensures
        views(r@) == views(v@),
    decreases parent, 0nat,
{
    let mut out: Vec<Rule> = Vec::new();
    let mut i: usize = 0;
    while i < v.len()
        invariant
            i <= v.len(),
            decreases_to!(parent => *v),
            out@.len() == i,
            forall|j: int| 0 <= j < i ==> out@[j]@ == v@[j]@,
        decreases v.len() - i,
    {
        proof {
            assert(decreases_to!(*v => v[i as int]));
        }
        let c = v[i].copy();
        out.push(c);
        i = i + 1;
    }
    assert(views(out@) =~= views(v@));
    out
}

} // verus!
