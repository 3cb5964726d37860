//! What processes do.

use crate::actions::{
    cond_head, condition, embedded_rule, equal_terms, in_args, in_channel, in_message,
    insert_action, let_definition, let_head, lookup_head, more_definitions, out_args, pattern,
    sapic_action,
};
use crate::ast::{ActionM, CombM, ConditionM, FactM, FormulaM, ProcessM, TermM, VarM};
use crate::error::ErrorM;
use crate::facts::fact;
use crate::formulas::formula;
use crate::laws::tokens::{inside, law_one_word_at_a_place, lemma_spaced, reads, word};
use crate::processes::{
    acting, action_process, branches, call, comb_process, defined, definitions_body, diff_enabled,
    equiv_lemma, export_item, joined, joiner, located, more_processes, parameters, plain_process,
    process, process_body, process_def, replicated, toplevel_process, typed,
};
use crate::state::{group_steps, PS};
use crate::terms::{term, term_args};
use crate::text::alphanumeric;
use crate::tokens::export_at;
use crate::vars::variable;
use vstd::prelude::*;

verus! {

broadcast use {group_steps, crate::tokens::group_lexer};

/// Whether a process is read at `s` as `p`, up to `e`.
#[verifier::opaque]
pub open spec fn process_at(s: PS, p: ProcessM, e: PS) -> bool {
    inside(s) && reads(s, process(s), p, e)
}

/// Whether a process that is not joined to another is read at `s` as `p`, up to
/// `e`.
#[verifier::opaque]
pub open spec fn part_at(s: PS, p: ProcessM, e: PS) -> bool {
    inside(s) && reads(s, action_process(s), p, e)
}

/// What comes behind the first process of a decision: behind `else` the process
/// that is read there, and the null process where there is no `else`.
pub open spec fn other_at(s: PS, q: ProcessM, e: PS) -> bool {
    if s.kw("else"@).0 {
        process(s.kw("else"@).1) == (Ok::<ProcessM, ErrorM>(q), e)
    } else {
        q == ProcessM::Null && e == s
    }
}

proof fn lemma_branches(s: PS, c: CombM, p: ProcessM, e: PS, q: ProcessM, f: PS)
    requires
        process_at(s, p, e),
        other_at(e, q, f),
    ensures
        branches(s, c) == (
            Ok::<ProcessM, ErrorM>(
                ProcessM::Comb { comb: c, left: Box::new(p), right: Box::new(q) },
            ),
            f,
        ),
{
    reveal(process_at);
    reveal(joined);
}

/// A condition decides between two processes: the one behind `then` is the
/// left one, the one behind `else` the right one. Without `else` the right one
/// does nothing.
pub proof fn law_conditions_decide(
    s: PS,
    c: CombM,
    t: PS,
    p: ProcessM,
    e: PS,
    q: ProcessM,
    f: PS,
)
    requires
        inside(s),
        s.kw("if"@).0,
        !s.kw("lookup"@).0,
        reads(s.kw("if"@).1, cond_head(s.kw("if"@).1), c, t),
        process_at(t, p, e),
        other_at(e, q, f),
    ensures
        comb_process(s).1 == f,
        comb_process(s).0 matches Ok(r) && r is Comb && r->comb == c && *r->left == p && *r->right
            == q,
{
    lemma_branches(t, c, p, e, q, f);
}

/// A lookup decides in the same way: the left process is the one for a value
/// that was found.
pub proof fn law_lookups_decide(
    s: PS,
    c: CombM,
    t: PS,
    p: ProcessM,
    e: PS,
    q: ProcessM,
    f: PS,
)
    requires
        inside(s),
        s.kw("lookup"@).0,
        reads(s.kw("lookup"@).1, lookup_head(s.kw("lookup"@).1), c, t),
        process_at(t, p, e),
        other_at(e, q, f),
    ensures
        comb_process(s).1 == f,
        comb_process(s).0 matches Ok(r) && r is Comb && r->comb == c && *r->left == p && *r->right
            == q,
{
    lemma_branches(t, c, p, e, q, f);
}

/// The head of a lookup: the term that is looked up, and the variable behind
/// `as` for what is found.
pub proof fn law_heads_of_lookups(s: PS, t: TermM, e: PS, v: VarM, f: PS)
    requires
        term(s) == (Ok::<TermM, ErrorM>(t), e),
        e.kw("as"@).0,
        variable(e.kw("as"@).1) == (Ok::<VarM, ErrorM>(v), f),
        f.kw("in"@).0,
    ensures
        lookup_head(s) == (Ok::<CombM, ErrorM>(CombM::Lookup(t, v)), f.kw("in"@).1),
{
    reveal(lookup_head);
}

/// The head of a condition: two terms with `=` between them are compared;
/// where no two such terms stand, the condition is a formula.
pub proof fn law_heads_of_conditions(s: PS)
    ensures
        cond_head(s).0 matches Ok(c) ==> {
            &&& c is Cond
            &&& (equal_terms(s).0 is Ok ==> c->Cond_0 == equal_terms(s).0->Ok_0 && c->Cond_0 is Eq)
            &&& (equal_terms(s).0 is Err ==> c->Cond_0 is Formula && formula(
                equal_terms(s).1.to(s.at),
            ).0 == Ok::<FormulaM, ErrorM>(c->Cond_0->Formula_0))
        },
{
    reveal(cond_head);
    reveal(condition);
    reveal(equal_terms);
}

pub proof fn law_compared_terms(s: PS, a: TermM, e: PS, b: TermM, f: PS)
    requires
        term(s) == (Ok::<TermM, ErrorM>(a), e),
        e.punct("="@).0,
        term(e.punct("="@).1) == (Ok::<TermM, ErrorM>(b), f),
    ensures
        equal_terms(s) == (Ok::<ConditionM, ErrorM>(ConditionM::Eq(a, b)), f),
{
    reveal(equal_terms);
}

/// Definitions around a process, the first outermost: each binds its pattern to
/// its value in what is left of it, and leads to `q` on the right.
pub open spec fn bindings(bs: Seq<(TermM, TermM)>, p: ProcessM, q: ProcessM) -> ProcessM
    decreases bs.len(),
{
    if bs.len() == 0 {
        p
    } else {
        ProcessM::Comb {
            comb: CombM::Let { pat: bs[0].0, value: bs[0].1 },
            left: Box::new(bindings(bs.drop_first(), p, q)),
            right: Box::new(q),
        }
    }
}

proof fn lemma_bindings_end(bs: Seq<(TermM, TermM)>, p: ProcessM, q: ProcessM)
    requires
        bs.len() > 0,
    ensures
        bindings(bs, p, q) == bindings(
            bs.drop_last(),
            ProcessM::Comb {
                comb: CombM::Let { pat: bs.last().0, value: bs.last().1 },
                left: Box::new(p),
                right: Box::new(q),
            },
            q,
        ),
    decreases bs.len(),
{
    let c = ProcessM::Comb {
        comb: CombM::Let { pat: bs.last().0, value: bs.last().1 },
        left: Box::new(p),
        right: Box::new(q),
    };
    if bs.len() == 1 {
        assert(bs.drop_first().len() == 0 && bs.drop_last().len() == 0);
        assert(bindings(bs.drop_first(), p, q) == p);
        assert(bindings(bs.drop_last(), c, q) == c);
    } else {
        lemma_bindings_end(bs.drop_first(), p, q);
        assert(bs.drop_first().drop_last() =~= bs.drop_last().drop_first());
        assert(bs.drop_first().last() == bs.last());
        assert(bs.drop_last()[0] == bs[0]);
    }
}

proof fn lemma_bindings(bs: Seq<(TermM, TermM)>, p: ProcessM, q: ProcessM)
    ensures
        defined(bs, p, q) == bindings(bs, p, q),
    decreases bs.len(),
{
    if bs.len() > 0 {
        reveal(joined);
        lemma_bindings_end(bs, p, q);
        lemma_bindings(
            bs.drop_last(),
            ProcessM::Comb {
                comb: CombM::Let { pat: bs.last().0, value: bs.last().1 },
                left: Box::new(p),
                right: Box::new(q),
            },
            q,
        );
    }
}

/// Definitions bind what is behind them, the first one outermost. Each leads to
/// the process behind `else` where its pattern does not match.
pub proof fn law_definitions_bind(
    s: PS,
    bs: Seq<(TermM, TermM)>,
    t: PS,
    p: ProcessM,
    e: PS,
    q: ProcessM,
    f: PS,
)
    requires
        inside(s),
        s.kw("let"@).0,
        !s.kw("lookup"@).0,
        !s.kw("if"@).0,
        reads(s.kw("let"@).1, let_head(s.kw("let"@).1), bs, t),
        process_at(t, p, e),
        other_at(e, q, f),
    ensures
        comb_process(s) == (Ok::<ProcessM, ErrorM>(bindings(bs, p, q)), f),
{
    lemma_bindings(bs, p, q);
    lemma_definitions_body(t, bs, p, e, q, f);
}

proof fn lemma_definitions_body(
    s: PS,
    bs: Seq<(TermM, TermM)>,
    p: ProcessM,
    e: PS,
    q: ProcessM,
    f: PS,
)
    requires
        process_at(s, p, e),
        other_at(e, q, f),
    ensures
        definitions_body(s, bs) == (Ok::<ProcessM, ErrorM>(defined(bs, p, q)), f),
{
    reveal(process_at);
}

/// A definition is the pattern before `=` and the value behind it.
pub proof fn law_definitions(s: PS, a: TermM, e: PS, b: TermM, f: PS)
    requires
        pattern(s) == (Ok::<TermM, ErrorM>(a), e),
        e.punct("="@).0,
        term(e.punct("="@).1) == (Ok::<TermM, ErrorM>(b), f),
    ensures
        let_definition(s) == (Ok::<(TermM, TermM), ErrorM>((a, b)), f),
{
    reveal(let_definition);
}

/// The definitions of a `let` come in the order in which they are written.
pub proof fn law_definitions_in_order(s: PS, d: (TermM, TermM), e: PS)
    requires
        let_definition(s) == (Ok::<(TermM, TermM), ErrorM>(d), e),
    ensures
        let_head(s).0 matches Ok(bs) ==> bs.len() > 0 && bs[0] == d,
{
    reveal(let_head);
    lemma_definitions_kept(e, seq![d]);
    let bs = more_definitions(e, seq![d]).0;
    assert(bs.take(1)[0] == bs[0]);
}

proof fn lemma_definitions_kept(s: PS, acc: Seq<(TermM, TermM)>)
    ensures
        acc.len() <= more_definitions(s, acc).0.len(),
        more_definitions(s, acc).0.take(acc.len() as int) == acc,
    decreases s.rem(),
{
    let w = s.punct(","@).1.ws();
    if w.at_kw("in"@) {
        assert(acc.take(acc.len() as int) =~= acc);
    } else {
        match let_definition(w) {
            (Ok(d), s1) => if w.fwd(s1) && w.at < s1.at {
                lemma_definitions_kept(s1, acc.push(d));
                let all = more_definitions(s1, acc.push(d)).0;
                assert(all.take(acc.len() as int) =~= all.take(acc.len() as int + 1).take(
                    acc.len() as int,
                ));
                assert(acc.push(d).take(acc.len() as int) =~= acc);
            } else {
                assert(acc.take(acc.len() as int) =~= acc);
            },
            (Err(_), s1) => {
                assert(acc.take(acc.len() as int) =~= acc);
            },
        }
    }
}

/// `||` and `|` run two processes side by side, and `+` chooses between them.
pub proof fn law_joiners(s: PS)
    requires
        inside(s),
    ensures
        s.punct("||"@).0 ==> joiner(s) == (Some(CombM::Parallel), s.punct("||"@).1),
        !s.punct("||"@).0 && s.punct("|"@).0 ==> joiner(s) == (
            Some(CombM::Parallel),
            s.punct("|"@).1,
        ),
        !s.punct("|"@).0 && s.punct("+"@).0 ==> joiner(s) == (Some(CombM::Ndc), s.punct("+"@).1),
        !s.punct("|"@).0 && !s.punct("+"@).0 ==> joiner(s).0 is None,
{
    reveal_strlit("||");
    reveal_strlit("|");
    crate::laws::tokens::law_tokens_stand_in_the_text(s, "||"@);
    crate::laws::tokens::law_tokens_stand_in_the_text(s, "|"@);
    lemma_spaced(s, "||"@);
    lemma_spaced(s, "|"@);
    lemma_spaced(s, "+"@);
    let b = crate::tokens::ws_end(s.src, s.at);
    if s.punct("||"@).0 {
        assert(s.src[b] == '|');
        assert(s.src[b + 1] == '|');
    }
    if s.punct("|"@).0 {
        assert(s.src[b] == '|');
        if b + 1 < s.src.len() && s.src[b + 1] == '|' {
            assert(crate::laws::tokens::written(s.src, b, "||"@));
        }
    }
    if s.ws().peek() == Some('|') {
        assert(crate::laws::tokens::written(s.src, b, "|"@));
    }
}

/// The processes joined from the left, each by what stands before it.
pub open spec fn joined_up(ps: Seq<ProcessM>, cs: Seq<CombM>) -> ProcessM
    decreases ps.len(),
{
    if ps.len() <= 1 {
        ps[0]
    } else {
        ProcessM::Comb {
            comb: cs[ps.len() - 2],
            left: Box::new(joined_up(ps.drop_last(), cs)),
            right: Box::new(ps.last()),
        }
    }
}

/// Whether processes are read at the states `at`, each up to one of `ends`,
/// where the joiner `cs[i]` stands between the process `i` and the next.
pub open spec fn joined_at(
    at: Seq<PS>,
    ps: Seq<ProcessM>,
    ends: Seq<PS>,
    cs: Seq<CombM>,
) -> bool {
    &&& 0 < ps.len() == at.len() == ends.len() == cs.len() + 1
    &&& forall|i: int| 0 <= i < ps.len() ==> part_at(#[trigger] at[i], ps[i], ends[i])
    &&& forall|i: int|
        0 <= i < ps.len() - 1 ==> joiner(#[trigger] ends[i]) == (Some(cs[i]), at[i + 1])
    &&& joiner(ends.last()).0 is None
}

proof fn lemma_joined_step(e: PS, c: CombM, m: PS, a: ProcessM, b: ProcessM, f: PS)
    requires
        joiner(e) == (Some(c), m),
        part_at(m, b, f),
    ensures
        more_processes(e, a) == more_processes(
            f,
            ProcessM::Comb { comb: c, left: Box::new(a), right: Box::new(b) },
        ),
{
    reveal(part_at);
    reveal(joined);
}

proof fn lemma_joined_at(
    at: Seq<PS>,
    ps: Seq<ProcessM>,
    ends: Seq<PS>,
    cs: Seq<CombM>,
    k: int,
)
    requires
        joined_at(at, ps, ends, cs),
        0 <= k < ps.len(),
    ensures
        more_processes(ends[k], joined_up(ps.take(k + 1), cs)).0 == Ok::<ProcessM, ErrorM>(
            joined_up(ps, cs),
        ),
    decreases ps.len() - k,
{
    if k + 1 < ps.len() {
        assert(ps.take(k + 2).drop_last() =~= ps.take(k + 1));
        assert(ps.take(k + 2).last() == ps[k + 1]);
        assert(part_at(at[k + 1], ps[k + 1], ends[k + 1]));
        assert(joiner(ends[k]) == (Some(cs[k]), at[k + 1]));
        lemma_joined_step(
            ends[k],
            cs[k],
            at[k + 1],
            joined_up(ps.take(k + 1), cs),
            ps[k + 1],
            ends[k + 1],
        );
        lemma_joined_at(at, ps, ends, cs, k + 1);
    } else {
        assert(ps.take(k + 1) =~= ps);
    }
}

/// Processes with joiners between them are joined from the left.
pub proof fn law_processes_join_from_the_left(
    at: Seq<PS>,
    ps: Seq<ProcessM>,
    ends: Seq<PS>,
    cs: Seq<CombM>,
)
    requires
        joined_at(at, ps, ends, cs),
    ensures
        process_body(at[0]).0 == Ok::<ProcessM, ErrorM>(joined_up(ps, cs)),
{
    assert(part_at(at[0], ps[0], ends[0]));
    reveal(part_at);
    lemma_joined_at(at, ps, ends, cs, 0);
    assert(ps.take(1)[0] == ps[0]);
}

/// What is read as a process is what is read where a colon behind a variable
/// names a type.
pub proof fn law_types_in_processes(s: PS)
    ensures
        process(s).0 == process_body(typed(s)).0,
        typed(s).mode.sapic,
        typed(s).at == s.at && typed(s).src == s.src,
        process(s).1.mode == s.mode,
{
}

/// `!` repeats the process behind it, and nothing else does.
pub proof fn law_replication(s: PS)
    requires
        inside(s),
    ensures
        s.punct("!"@).0 ==> (action_process(s).0 is Ok <==> process(s.punct("!"@).1).0 is Ok),
        s.punct("!"@).0 && action_process(s).0 is Ok ==> action_process(s).0->Ok_0
            == ProcessM::Replication(Box::new(process(s.punct("!"@).1).0->Ok_0)),
        !s.punct("!"@).0 ==> action_process(s) == comb_process(s.ws()),
{
    reveal(replicated);
    lemma_spaced(s, "!"@);
}

/// `0` does nothing.
pub proof fn law_the_null_process(s: PS)
    requires
        inside(s),
    ensures
        s.punct("0"@).0 ==> plain_process(s) == (
            Ok::<ProcessM, ErrorM>(ProcessM::Null),
            s.punct("0"@).1,
        ),
{
}

/// A process in parentheses is the process between them; `@` and a term behind
/// them say where it runs.
pub proof fn law_processes_in_parentheses(s: PS, p: ProcessM, e: PS)
    requires
        inside(s),
        !s.punct("0"@).0,
        s.punct("("@).0,
        process_at(s.punct("("@).1, p, e),
        e.punct(")"@).0,
    ensures
        ({
            let c = e.punct(")"@).1;
            &&& !c.punct("@"@).0 ==> plain_process(s) == (Ok::<ProcessM, ErrorM>(p), c.ws())
            &&& c.punct("@"@).0 && term(c.punct("@"@).1).0 is Ok ==> plain_process(s) == (
                Ok::<ProcessM, ErrorM>(
                    ProcessM::AtAnnotation(Box::new(p), term(c.punct("@"@).1).0->Ok_0),
                ),
                term(c.punct("@"@).1).1,
            )
        }),
{
    reveal(process_at);
    reveal(located);
    lemma_spaced(s, "0"@);
    lemma_spaced(s, "("@);
    lemma_spaced(e.punct(")"@).1, "@"@);
}

/// An action comes before the process behind its `;`, and before the null
/// process where there is none.
pub proof fn law_actions_come_first(s: PS, a: ActionM, e: PS)
    requires
        inside(s),
        !s.punct("0"@).0,
        !s.punct("("@).0,
        reads(s.ws(), sapic_action(s.ws()), Some(a), e),
    ensures
        !e.punct(";"@).0 ==> plain_process(s).0 == Ok::<ProcessM, ErrorM>(
            ProcessM::Action { action: a, body: Box::new(ProcessM::Null) },
        ),
        e.punct(";"@).0 ==> (plain_process(s).0 is Ok <==> action_process(
            e.punct(";"@).1,
        ).0 is Ok),
        e.punct(";"@).0 && plain_process(s).0 is Ok ==> plain_process(s).0->Ok_0
            == (ProcessM::Action {
            action: a,
            body: Box::new(action_process(e.punct(";"@).1).0->Ok_0),
        }),
{
    reveal(acting);
    lemma_spaced(s, "0"@);
    lemma_spaced(s, "("@);
}

/// A name that is no action calls the process of that name, with the terms
/// between the parentheses behind it.
pub proof fn law_calls(s: PS, name: Seq<char>, e: PS)
    requires
        s.name() == (Some(name), e),
    ensures
        !e.punct("("@).0 ==> call(s).0 == Ok::<ProcessM, ErrorM>(
            ProcessM::Call { name, args: Seq::empty() },
        ),
        e.punct("("@).0 && term_args(e.punct("("@).1).0 is Ok ==> call(s).0 == Ok::<
            ProcessM,
            ErrorM,
        >(ProcessM::Call { name, args: term_args(e.punct("("@).1).0->Ok_0 }),
{
    reveal(call);
}

/// The process of a theory is the one behind `process:`.
pub proof fn law_the_process_of_a_theory(s: PS)
    ensures
        toplevel_process(s).0 is Ok ==> s.kw("process"@).0 && s.kw("process"@).1.punct(":"@).0
            && toplevel_process(s) == process(s.kw("process"@).1.punct(":"@).1),
{
    reveal(toplevel_process);
}

/// A named process: its name, its parameters, and the process behind `=`.
pub proof fn law_named_processes(s: PS)
    ensures
        process_def(s).0 matches Ok(d) ==> {
            let n = s.kw("let"@).1;
            let p = parameters(n.ident().1);
            &&& s.kw("let"@).0
            &&& n.ident().0 == Ok::<Seq<char>, ErrorM>(d.name)
            &&& p.0 == Ok::<Option<Seq<VarM>>, ErrorM>(d.vars)
            &&& d.vars is Some <==> n.ident().1.punct("("@).0
            &&& p.1.punct("="@).0
            &&& process(p.1.punct("="@).1).0 == Ok::<ProcessM, ErrorM>(d.body)
        },
{
    reveal(process_def);
    reveal(parameters);
}

/// An equivalence is of the two processes that stand behind it, in their order;
/// a diff equivalence of the two sides of one process.
pub proof fn law_equivalences_of_processes(s: PS)
    ensures
        equiv_lemma(s, false).0 matches Ok(x) ==> {
            let b = s.kw("equivLemma"@).1.punct(":"@).1;
            &&& x is EquivLemma
            &&& process(b).0 == Ok::<ProcessM, ErrorM>(x->EquivLemma_0)
            &&& process(process(b).1).0 == Ok::<ProcessM, ErrorM>(x->EquivLemma_1)
        },
        equiv_lemma(s, true).0 matches Ok(x) ==> {
            let b = s.kw("diffEquivLemma"@).1.punct(":"@).1;
            &&& x is DiffEquivLemma
            &&& process(diff_enabled(b)).0 == Ok::<ProcessM, ErrorM>(x->DiffEquivLemma_0)
            &&& diff_enabled(b).sig.enable_diff
        },
{
    reveal(equiv_lemma);
}

/// An exported text: its tag, and the text behind the colon.
pub proof fn law_exports(s: PS)
    ensures
        export_item(s).0 matches Ok(x) ==> {
            let n = s.kw("export"@).1.ident();
            let b = n.1.punct(":"@).1;
            &&& x is Export
            &&& n.0 == Ok::<Seq<char>, ErrorM>(x->tag)
            &&& export_at(b.src, b.at) matches Some((text, _)) && x->Export_body == text
        },
{
    reveal(export_item);
}

spec fn action_words() -> Seq<Seq<char>> {
    seq!["new"@, "insert"@, "delete"@, "in"@, "out"@, "lock"@, "unlock"@, "event"@]
}

proof fn lemma_distinct()
    ensures
        forall|a: int, b: int|
            0 <= a < b < 8 ==> #[trigger] action_words()[a] != #[trigger] action_words()[b],
{
    reveal_strlit("new");
    reveal_strlit("insert");
    reveal_strlit("delete");
    reveal_strlit("in");
    reveal_strlit("out");
    reveal_strlit("lock");
    reveal_strlit("unlock");
    reveal_strlit("event");
    let w = action_words();
    assert(w[0].len() == 3 && w[1].len() == 6 && w[2].len() == 6 && w[3].len() == 2 && w[4].len()
        == 3 && w[5].len() == 4 && w[6].len() == 6 && w[7].len() == 5);
    assert(w[0][0] == 'n' && w[4][0] == 'o' && w[1][0] == 'i' && w[2][0] == 'd' && w[6][0]
        == 'u');
}

/// What each word for an action does: `new` makes a value, `insert` and
/// `delete` change the store, `in` and `out` receive and send, `lock` and
/// `unlock` guard, and `event` raises a fact.
pub proof fn law_words_for_actions(s: PS)
    requires
        inside(s),
        sapic_action(s).0 is Ok,
    ensures
        s.kw("new"@).0 ==> (sapic_action(s).0->Ok_0 matches Some(a) && a is New
            && variable(s.kw("new"@).1).0 == Ok::<VarM, ErrorM>(a->New_0)),
        s.kw("delete"@).0 ==> (sapic_action(s).0->Ok_0 matches Some(a) && a is Delete
            && term(s.kw("delete"@).1).0 == Ok::<TermM, ErrorM>(a->Delete_0)),
        s.kw("lock"@).0 ==> (sapic_action(s).0->Ok_0 matches Some(a) && a is Lock && term(
            s.kw("lock"@).1,
        ).0 == Ok::<TermM, ErrorM>(a->Lock_0)),
        s.kw("unlock"@).0 ==> (sapic_action(s).0->Ok_0 matches Some(a) && a is Unlock
            && term(s.kw("unlock"@).1).0 == Ok::<TermM, ErrorM>(a->Unlock_0)),
        s.kw("event"@).0 ==> (sapic_action(s).0->Ok_0 matches Some(a) && a is Event
            && fact(s.kw("event"@).1).0 == Ok::<FactM, ErrorM>(a->Event_0)),
        s.kw("insert"@).0 ==> (sapic_action(s).0->Ok_0 matches Some(a) && a is Insert && {
            let k = term(s.kw("insert"@).1);
            &&& k.0 == Ok::<TermM, ErrorM>(a->Insert_0)
            &&& k.1.punct(","@).0
            &&& term(k.1.punct(","@).1).0 == Ok::<TermM, ErrorM>(a->Insert_1)
        }),
        s.kw("in"@).0 ==> (sapic_action(s).0->Ok_0 matches Some(a) && a is ChIn && in_args(
            s.kw("in"@).1,
        ).0 == Ok::<(Option<TermM>, TermM), ErrorM>((a->ChIn_chan, a->ChIn_msg))),
        s.kw("out"@).0 ==> (sapic_action(s).0->Ok_0 matches Some(a) && a is ChOut
            && out_args(s.kw("out"@).1).0 == Ok::<(Option<TermM>, TermM), ErrorM>(
            (a->ChOut_chan, a->ChOut_msg),
        )),
{
    reveal(sapic_action);
    reveal(insert_action);
    lemma_action_words(s);
    lemma_distinct();
    lemma_spaced(s, "new"@);
    lemma_spaced(s, "insert"@);
    lemma_spaced(s, "delete"@);
    lemma_spaced(s, "in"@);
    lemma_spaced(s, "out"@);
    lemma_spaced(s, "lock"@);
    lemma_spaced(s, "unlock"@);
    lemma_spaced(s, "event"@);
    let ws = action_words();
    assert(ws[0] == "new"@ && ws[1] == "insert"@ && ws[2] == "delete"@ && ws[3] == "in"@ && ws[4]
        == "out"@ && ws[5] == "lock"@ && ws[6] == "unlock"@ && ws[7] == "event"@);
}

proof fn lemma_action_words(s: PS)
    requires
        inside(s),
    ensures
        forall|j: Seq<char>, k: Seq<char>|
            action_words().contains(j) && action_words().contains(k) && #[trigger] s.kw(j).0
                && #[trigger] s.kw(k).0 ==> j == k,
{
    let ws = action_words();
    lemma_are_words();
    assert forall|j: Seq<char>, k: Seq<char>|
        ws.contains(j) && ws.contains(k) && #[trigger] s.kw(j).0 && #[trigger] s.kw(k).0 implies j
        == k by {
        law_one_word_at_a_place(s, j, k);
    }
}

proof fn lemma_are_words()
    ensures
        forall|k: Seq<char>| #[trigger] action_words().contains(k) ==> word(k),
{
    reveal(alphanumeric);
    reveal_strlit("new");
    reveal_strlit("insert");
    reveal_strlit("delete");
    reveal_strlit("in");
    reveal_strlit("out");
    reveal_strlit("lock");
    reveal_strlit("unlock");
    reveal_strlit("event");
    assert(word("new"@));
    assert(word("insert"@));
    assert(word("delete"@));
    assert(word("in"@));
    assert(word("out"@));
    assert(word("lock"@));
    assert(word("unlock"@));
    assert(word("event"@));
}

/// What is sent: with two terms, the first is the channel and the second the
/// message; with one, it is the message.
pub proof fn law_messages_sent(s: PS, a: TermM, e: PS)
    requires
        s.punct("("@).0,
        term(s.punct("("@).1) == (Ok::<TermM, ErrorM>(a), e),
    ensures
        !e.punct(","@).0 && out_args(s).0 is Ok ==> out_args(s).0->Ok_0 == (None::<TermM>, a),
        e.punct(","@).0 && out_args(s).0 is Ok ==> out_args(s).0->Ok_0.0 == Some(a) && term(
            e.punct(","@).1,
        ).0 == Ok::<TermM, ErrorM>(out_args(s).0->Ok_0.1),
{
    reveal(out_args);
}

/// What is received: a message alone, or a channel and a message.
pub proof fn law_messages_received(s: PS)
    requires
        s.punct("("@).0,
        in_args(s).0 is Ok,
    ensures
        ({
            let b = s.punct("("@).1;
            let (chan, msg) = in_args(s).0->Ok_0;
            &&& chan is None ==> pattern(b).0 == Ok::<TermM, ErrorM>(msg)
            &&& chan matches Some(c) ==> {
                let r = in_message(b).1.to(b.at);
                &&& in_message(b).0 is Err
                &&& term(r).0 == Ok::<TermM, ErrorM>(c)
                &&& term(r).1.punct(","@).0
                &&& pattern(term(r).1.punct(","@).1).0 == Ok::<TermM, ErrorM>(msg)
            }
        }),
{
    reveal(in_args);
    reveal(in_message);
    reveal(in_channel);
}

/// A rule inside a process: its premises, actions and conclusions are those
/// that stand before, in and behind its arrow.
pub proof fn law_rules_inside_processes(s: PS, from: int)
    ensures
        embedded_rule(s, from).0 matches Ok(Some(a)) ==> {
            let p = crate::rules::bracket_facts(s);
            let r = crate::rules::arrow(p.1);
            &&& a is Msr
            &&& p.0 == Ok::<Seq<FactM>, ErrorM>(a->prems)
            &&& r.0 == Ok::<(Seq<FactM>, Seq<FormulaM>), ErrorM>((a->acts, a->restrictions))
            &&& crate::rules::bracket_facts(r.1).0 == Ok::<Seq<FactM>, ErrorM>(a->concs)
        },
{
    reveal(embedded_rule);
}

} // verus!
