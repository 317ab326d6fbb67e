//! The whole pipeline on one schema: load every variant, resolve each one,
//! and compile the examples into test cases, keeping the declared order.

use vstd::prelude::*;
use crate::render::{fits, resolved_strategy_fits};
use crate::resolve::{loaded_schema_keeps_names_and_arity, resolve, resolve_variant, GenError, GenErrorKind, Strategy, StrategyView};
use crate::schema::{
    annotated_views, load_schema, load_schema_exec, variant_views, AnnotatedVariant, AnnotatedVariantView, SyntaxError,
    SyntaxErrorView,
    Variant, VariantView,
};
use crate::testgen::{case_views, compile_tests, schema_cases, TestCase, TestCaseView};

verus! {

/// The renderer table and the test cases generated from a schema.
#[derive(Debug)]
pub struct Generated {
    /// One strategy per variant, in declaration order.
    pub strategies: Vec<Strategy>,
    /// One case per example, variants in declaration order.
    pub tests: Vec<TestCase>,
}

/// Why a schema produced nothing.
#[derive(Debug)]
pub enum GenerationError {
    /// An annotation was refused.
    Syntax(SyntaxError),
    /// A variant has no strategy.
    Resolution(GenError),
}

pub enum GenerationErrorView {
    Syntax(SyntaxErrorView),
    Resolution(Seq<char>, GenErrorKind),
}

pub open spec fn strategy_views(ss: Seq<Strategy>) -> Seq<StrategyView> {
    ss.map_values(|s: Strategy| s@)
}

/// The strategies of all variants, or the first variant without one.
pub open spec fn resolve_all(vs: Seq<VariantView>) -> Result<Seq<StrategyView>, (Seq<char>, GenErrorKind)>
    decreases vs.len(),
{
    if vs.len() == 0 {
        Ok(Seq::empty())
    } else {
        match resolve_all(vs.drop_last()) {
            Ok(done) => match resolve(vs.last()) {
                Ok(s) => Ok(done.push(s)),
                Err(k) => Err((vs.last().name, k)),
            },
            Err(e) => Err(e),
        }
    }
}

/// What a schema generates: its strategies and its test cases, or the first
/// error, syntax before resolution.
pub open spec fn generated(vs: Seq<AnnotatedVariantView>) -> Result<(Seq<StrategyView>, Seq<TestCaseView>), GenerationErrorView> {
    match load_schema(vs) {
        Err(e) => Err(GenerationErrorView::Syntax(e)),
        Ok(loaded) => match resolve_all(loaded) {
            Err((name, k)) => Err(GenerationErrorView::Resolution(name, k)),
            Ok(ss) => Ok((ss, schema_cases(loaded))),
        },
    }
}

proof fn lemma_resolve_prefix_err(vs: Seq<VariantView>, i: int)
    requires
        0 <= i <= vs.len(),
        resolve_all(vs.subrange(0, i)) is Err,
    ensures
        resolve_all(vs) == resolve_all(vs.subrange(0, i)),
    decreases vs.len() - i,
{
    if i < vs.len() {
        assert(vs.drop_last().subrange(0, i) =~= vs.subrange(0, i));
        lemma_resolve_prefix_err(vs.drop_last(), i);
    } else {
        assert(vs.subrange(0, i) =~= vs);
    }
}

fn resolve_all_exec(vs: &Vec<Variant>) -> (r: Result<Vec<Strategy>, GenError>)
    ensures
        match resolve_all(variant_views(vs@)) {
            Ok(ss) => r matches Ok(rs) && strategy_views(rs@) == ss,
            Err((name, k)) => r matches Err(e) && e.variant@ == name && e.kind == k,
        },
{
    let mut out: Vec<Strategy> = Vec::new();
    let mut i: usize = 0;
    proof {
        assert(variant_views(vs@).subrange(0, 0) =~= Seq::<VariantView>::empty());
        assert(strategy_views(out@) =~= Seq::<StrategyView>::empty());
    }
    while i < vs.len()
        invariant
            i <= vs@.len(),
            resolve_all(variant_views(vs@).subrange(0, i as int)) == Ok::<Seq<StrategyView>, (Seq<char>, GenErrorKind)>(strategy_views(out@)),
        decreases vs@.len() - i,
    {
        let ghost pre = variant_views(vs@).subrange(0, i + 1);
        assert(pre.drop_last() =~= variant_views(vs@).subrange(0, i as int));
        assert(pre.last() == vs@[i as int]@);
        let ghost before = out@;
        match resolve_variant(&vs[i]) {
            Ok(s) => {
                out.push(s);
                proof {
                    assert(out@.drop_last() =~= before);
                    assert(strategy_views(out@) =~= strategy_views(before).push(out@.last()@));
                }
            },
            Err(e) => {
                proof {
                    lemma_resolve_prefix_err(variant_views(vs@), i + 1);
                    assert(variant_views(vs@).subrange(0, i + 1) =~= pre);
                }
                return Err(e);
            },
        }
        i += 1;
    }
    proof {
        assert(variant_views(vs@).subrange(0, vs@.len() as int) =~= variant_views(vs@));
    }
    Ok(out)
}

/// Compiles a schema: loads every variant's annotations, resolves one
/// strategy per variant, and turns every example into a test case. Nothing
/// is produced when an annotation is refused or a variant has no strategy.
pub fn derive_helper_attr(schema: &Vec<AnnotatedVariant>) -> (r: Result<Generated, GenerationError>)
    ensures
        match generated(annotated_views(schema@)) {
            Ok((ss, ts)) => r matches Ok(g) && strategy_views(g.strategies@) == ss && case_views(g.tests@) == ts,
            Err(GenerationErrorView::Syntax(e)) => r matches Err(GenerationError::Syntax(re)) && re@ == e,
            Err(GenerationErrorView::Resolution(name, k)) => r matches Err(GenerationError::Resolution(re))
                && re.variant@ == name && re.kind == k,
        },
{
    let loaded = match load_schema_exec(schema) {
        Ok(vs) => vs,
        Err(e) => {
            return Err(GenerationError::Syntax(e));
        },
    };
    let strategies = match resolve_all_exec(&loaded) {
        Ok(ss) => ss,
        Err(e) => {
            return Err(GenerationError::Resolution(e));
        },
    };
    let tests = compile_tests(&loaded);
    Ok(Generated { strategies, tests })
}


proof fn lemma_resolve_all(vs: Seq<VariantView>)
    requires
        resolve_all(vs) is Ok,
    ensures
        resolve_all(vs)->Ok_0.len() == vs.len(),
        forall|k: int| 0 <= k < vs.len() ==> resolve(vs[k]) == Ok::<StrategyView, GenErrorKind>(#[trigger] resolve_all(vs)->Ok_0[k]),
    decreases vs.len(),
{
    if vs.len() > 0 {
        lemma_resolve_all(vs.drop_last());
        let ss = resolve_all(vs)->Ok_0;
        let pre = resolve_all(vs.drop_last())->Ok_0;
        assert forall|k: int| 0 <= k < vs.len() implies resolve(vs[k]) == Ok::<StrategyView, GenErrorKind>(#[trigger] ss[k]) by {
            if k < pre.len() {
                assert(ss[k] == pre[k]);
                assert(vs.drop_last()[k] == vs[k]);
            }
        }
    }
}

/// A generated schema has one renderer per declared variant, in order, and
/// each reads only fields that its declaration has: an instance gives one
/// text per declared field, ignored fields included, and rendering it with
/// that many texts meets `render`'s precondition.
pub proof fn generated_strategies_fit(avs: Seq<AnnotatedVariantView>)
    requires
        generated(avs) is Ok,
    ensures
        generated(avs)->Ok_0.0.len() == avs.len(),
        forall|k: int| 0 <= k < avs.len() ==> fits(#[trigger] generated(avs)->Ok_0.0[k], avs[k].fields.len()),
{
    let vs = load_schema(avs)->Ok_0;
    loaded_schema_keeps_names_and_arity(avs);
    lemma_resolve_all(vs);
    assert(resolve_all(vs) is Ok);
    let ss = generated(avs)->Ok_0.0;
    assert(ss == resolve_all(vs)->Ok_0);
    assert forall|k: int| 0 <= k < avs.len() implies fits(#[trigger] ss[k], avs[k].fields.len()) by {
        assert(resolve(vs[k]) == Ok::<StrategyView, GenErrorKind>(ss[k]));
        resolved_strategy_fits(vs[k]);
    }
}

} // verus!
