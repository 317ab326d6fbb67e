//! The renderer (strategy and field texts to tokens) and the token assembler
//! (tokens to one command-line string), with the laws that tie them to the
//! resolver.

use vstd::prelude::*;
use vstd::string::*;
use crate::resolve::{
    first_custom, last_template, display_name, resolve, shown, compile_template, hole_slot,
    label_index, piece_views, index_views, placeholder, prepend, Piece, PieceView, Strategy, StrategyView,
};
use crate::resolve::resolve_variant;
use crate::schema::{load_variant, load_variant_exec, AnnotatedVariant, AnnotatedVariantView, DirectiveView, FieldView, Shape, VariantView};
use crate::text::{join, join_strings, views};

verus! {

pub open spec fn piece_text(p: PieceView, vals: Seq<Seq<char>>) -> Seq<char> {
    match p {
        PieceView::Text(s) => s,
        PieceView::Slot(k) => vals[k as int],
    }
}

/// A template's pieces with the field texts put in.
pub open spec fn fill(ps: Seq<PieceView>, vals: Seq<Seq<char>>) -> Seq<char>
    decreases ps.len(),
{
    if ps.len() == 0 {
        Seq::empty()
    } else {
        fill(ps.drop_last(), vals) + piece_text(ps.last(), vals)
    }
}

/// The position of the first space at or after `i`, or the length.
pub open spec fn first_space(t: Seq<char>, i: int) -> int
    decreases t.len() - i,
{
    if 0 <= i < t.len() && t[i] != ' ' {
        first_space(t, i + 1)
    } else {
        i
    }
}

/// `t` cut at its first space into the text before and the text after; `t`
/// alone when it holds no space.
pub open spec fn split_first_space(t: Seq<char>) -> Seq<Seq<char>> {
    let k = first_space(t, 0);
    if k < t.len() {
        seq![t.subrange(0, k), t.subrange(k + 1, t.len() as int)]
    } else {
        seq![t]
    }
}

pub open spec fn select(ks: Seq<nat>, vals: Seq<Seq<char>>) -> Seq<Seq<char>> {
    ks.map_values(|k: nat| vals[k as int])
}

/// The tokens of a variant rendered with strategy `st` from its field texts.
/// A custom strategy has none: its function renders the instance instead.
pub open spec fn render_tokens(st: StrategyView, vals: Seq<Seq<char>>) -> Seq<Seq<char>> {
    match st {
        StrategyView::Custom(_) => Seq::empty(),
        StrategyView::Template(ps) => split_first_space(fill(ps, vals)),
        StrategyView::DefaultUnit(n) => seq![n],
        StrategyView::DefaultPositional(n, ks) => seq![n, join(seq![' '], select(ks, vals))],
    }
}

/// One token stays as it is; more become the first token, a space, and the
/// others joined by spaces inside one pair of double quotes.
pub open spec fn cli_joined(tokens: Seq<Seq<char>>) -> Seq<char> {
    if tokens.len() == 0 {
        Seq::empty()
    } else if tokens.len() == 1 {
        tokens[0]
    } else {
        tokens[0] + seq![' ', '"'] + join(seq![' '], tokens.drop_first()) + seq!['"']
    }
}

pub open spec fn slots_below(ps: Seq<PieceView>, n: nat) -> bool {
    forall|j: int| 0 <= j < ps.len() ==> (#[trigger] ps[j] matches PieceView::Slot(k) ==> k < n)
}

pub open spec fn indices_below(ks: Seq<nat>, n: nat) -> bool {
    forall|j: int| 0 <= j < ks.len() ==> (#[trigger] ks[j]) < n
}

/// Every field that strategy `st` reads is below `n`.
pub open spec fn fits(st: StrategyView, n: nat) -> bool {
    match st {
        StrategyView::Custom(_) => true,
        StrategyView::Template(ps) => slots_below(ps, n),
        StrategyView::DefaultUnit(_) => true,
        StrategyView::DefaultPositional(_, ks) => indices_below(ks, n),
    }
}

fn fill_exec(ps: &Vec<Piece>, vals: &Vec<String>) -> (r: String)
    requires
        forall|j: int| 0 <= j < ps@.len() ==> (#[trigger] ps@[j] matches Piece::Slot(k) ==> k < vals@.len()),
    ensures
        r@ == fill(piece_views(ps@), views(vals@)),
{
    let mut r = String::new();
    let mut i: usize = 0;
    proof {
        assert(piece_views(ps@.subrange(0, 0)) =~= Seq::<PieceView>::empty());
    }
    while i < ps.len()
        invariant
            i <= ps.len(),
            forall|j: int| 0 <= j < ps@.len() ==> (#[trigger] ps@[j] matches Piece::Slot(k) ==> k < vals@.len()),
            r@ == fill(piece_views(ps@.subrange(0, i as int)), views(vals@)),
        decreases ps.len() - i,
    {
        let ghost pre = piece_views(ps@.subrange(0, i + 1));
        assert(pre.drop_last() =~= piece_views(ps@.subrange(0, i as int)));
        assert(pre.last() == ps@[i as int]@);
        match &ps[i] {
            Piece::Text(s) => {
                r.append(s.as_str());
            },
            Piece::Slot(k) => {
                assert(ps@[i as int] matches Piece::Slot(kk) && kk < vals@.len());
                r.append(vals[*k].as_str());
            },
        }
        i += 1;
    }
    proof {
        assert(ps@.subrange(0, ps.len() as int) =~= ps@);
    }
    r
}

/// Cuts `text` at its first space into at most two tokens.
pub fn split_first_space_args(text: &str) -> (r: Vec<String>)
    ensures
        views(r@) == split_first_space(text@),
{
    let n = text.unicode_len();
    let mut k: usize = 0;
    while k < n && text.get_char(k) != ' '
        invariant
            n == text@.len(),
            k <= n,
            first_space(text@, 0) == first_space(text@, k as int),
        decreases n - k,
    {
        k += 1;
    }
    let mut r: Vec<String> = Vec::new();
    if k < n {
        r.push(String::from_str(text.substring_char(0, k)));
        r.push(String::from_str(text.substring_char(k + 1, n)));
    } else {
        r.push(String::from_str(text));
    }
    proof {
        assert(views(r@) =~= split_first_space(text@));
    }
    r
}

fn select_exec(ks: &Vec<usize>, vals: &Vec<String>) -> (r: Vec<String>)
    requires
        forall|j: int| 0 <= j < ks@.len() ==> #[trigger] ks@[j] < vals@.len(),
    ensures
        views(r@) == select(index_views(ks@), views(vals@)),
{
    let mut r: Vec<String> = Vec::new();
    let mut i: usize = 0;
    while i < ks.len()
        invariant
            i <= ks.len(),
            forall|j: int| 0 <= j < ks@.len() ==> #[trigger] ks@[j] < vals@.len(),
            views(r@) =~= select(index_views(ks@.subrange(0, i as int)), views(vals@)),
        decreases ks.len() - i,
    {
        let ghost before = r@;
        r.push(vals[ks[i]].clone());
        proof {
            assert(views(r@) =~= views(before).push(views(vals@)[ks@[i as int] as int]));
            assert(index_views(ks@.subrange(0, i + 1)) =~= index_views(ks@.subrange(0, i as int)).push(ks@[i as int] as nat));
        }
        i += 1;
    }
    proof {
        assert(ks@.subrange(0, ks.len() as int) =~= ks@);
    }
    r
}

/// The tokens of an instance, from its variant's strategy and the texts of
/// all its fields in declaration order (ignored ones included).
pub fn render(st: &Strategy, vals: &Vec<String>) -> (r: Vec<String>)
    requires
        !(st is Custom),
        fits(st@, vals@.len()),
    ensures
        views(r@) == render_tokens(st@, views(vals@)),
{
    match st {
        Strategy::Template(ps) => {
            assert forall|j: int| 0 <= j < ps@.len() implies (#[trigger] ps@[j] matches Piece::Slot(k) ==> k < vals@.len()) by {
                assert(piece_views(ps@)[j] == ps@[j]@);
            }
            let text = fill_exec(ps, vals);
            split_first_space_args(text.as_str())
        },
        Strategy::DefaultUnit(n) => {
            let r = vec![n.clone()];
            assert(views(r@) =~= seq![n@]);
            r
        },
        Strategy::DefaultPositional(n, ks) => {
            assert(st@ == StrategyView::DefaultPositional(n@, index_views(ks@)));
            assert(fits(StrategyView::DefaultPositional(n@, index_views(ks@)), vals@.len()));
            assert(index_views(ks@).len() == ks@.len());
            assert(indices_below(index_views(ks@), vals@.len()));
            assert forall|j: int| 0 <= j < ks@.len() implies #[trigger] ks@[j] < vals@.len() by {
                assert(index_views(ks@)[j] == ks@[j] as nat);
                assert(index_views(ks@)[j] < vals@.len());
            }
            let shown_vals = select_exec(ks, vals);
            proof {
                reveal_strlit(" ");
                assert(" "@ =~= seq![' ']);
            }
            let joined = join_strings(" ", &shown_vals);
            let r = vec![n.clone(), joined];
            assert(views(r@) =~= seq![n@, joined@]);
            r
        },
        Strategy::Custom(_) => Vec::new(),
    }
}

/// Joins a token list into the single command-line string.
pub fn cli_join(tokens: &Vec<String>) -> (r: String)
    ensures
        r@ == cli_joined(views(tokens@)),
{
    if tokens.len() == 0 {
        String::new()
    } else if tokens.len() == 1 {
        tokens[0].clone()
    } else {
        let mut rest: Vec<String> = Vec::new();
        let mut i: usize = 1;
        while i < tokens.len()
            invariant
                1 <= i <= tokens.len(),
                views(rest@) =~= views(tokens@).subrange(1, i as int),
            decreases tokens.len() - i,
        {
            let ghost before = rest@;
            rest.push(tokens[i].clone());
            assert(views(rest@) =~= views(before).push(tokens@[i as int]@));
            i += 1;
        }
        proof {
            reveal_strlit(" \"");
            reveal_strlit(" ");
            reveal_strlit("\"");
            assert(" "@ =~= seq![' ']);
            assert(views(tokens@).drop_first() =~= views(rest@));
        }
        let mut r = tokens[0].clone();
        r.append(" \"");
        let joined = join_strings(" ", &rest);
        r.append(joined.as_str());
        r.append("\"");
        proof {
            assert(" \""@ =~= seq![' ', '"']);
            assert("\""@ =~= seq!['"']);
        }
        r
    }
}


// ---------------------------------------------------------------------------
// Laws

proof fn lemma_only_examples(name: Seq<char>, ds: Seq<DirectiveView>)
    requires
        forall|k: int| 0 <= k < ds.len() ==> (#[trigger] ds[k]) is Test,
    ensures
        first_custom(ds) is None,
        last_template(ds) is None,
        display_name(name, ds) == name,
    decreases ds.len(),
{
    if ds.len() > 0 {
        assert(ds[0] is Test);
        assert(ds.last() is Test);
        assert(ds.last() == ds[ds.len() - 1]);
        assert forall|k: int| 0 <= k < ds.drop_first().len() implies (#[trigger] ds.drop_first()[k]) is Test by {
            assert(ds.drop_first()[k] == ds[k + 1]);
        }
        assert forall|k: int| 0 <= k < ds.drop_last().len() implies (#[trigger] ds.drop_last()[k]) is Test by {
            assert(ds.drop_last()[k] == ds[k]);
        }
        lemma_only_examples(name, ds.drop_first());
        lemma_only_examples(name, ds.drop_last());
    }
}

/// A unit variant whose only directives are examples resolves to the default
/// strategy: it renders to its name alone, and the assembled string is that
/// name.
pub proof fn unit_default_renders_name(v: VariantView)
    requires
        v.shape == Shape::Unit,
        v.fields.len() == 0,
        forall|k: int| 0 <= k < v.directives.len() ==> (#[trigger] v.directives[k]) is Test,
    ensures
        resolve(v) == Ok::<StrategyView, crate::resolve::GenErrorKind>(StrategyView::DefaultUnit(v.name)),
        render_tokens(StrategyView::DefaultUnit(v.name), Seq::empty()) == seq![v.name],
        cli_joined(seq![v.name]) == v.name,
{
    lemma_only_examples(v.name, v.directives);
}

/// A positional variant with two shown fields whose only directives are
/// examples renders as its name, a space, and the two field texts separated
/// by a space inside double quotes.
pub proof fn positional_default_renders_quoted(v: VariantView, a: Seq<char>, b: Seq<char>)
    requires
        v.shape == Shape::Positional,
        v.fields.len() == 2,
        v.fields[0] == (FieldView { label: None, ignore: false }),
        v.fields[1] == (FieldView { label: None, ignore: false }),
        forall|k: int| 0 <= k < v.directives.len() ==> (#[trigger] v.directives[k]) is Test,
    ensures
        resolve(v) == Ok::<StrategyView, crate::resolve::GenErrorKind>(StrategyView::DefaultPositional(v.name, seq![0nat, 1nat])),
        cli_joined(render_tokens(StrategyView::DefaultPositional(v.name, seq![0nat, 1nat]), seq![a, b]))
            == v.name + seq![' ', '"'] + a + seq![' '] + b + seq!['"'],
{
    lemma_only_examples(v.name, v.directives);
    let fs = v.fields;
    assert(fs.drop_last().drop_last() =~= Seq::<FieldView>::empty());
    assert(shown(fs.drop_last().drop_last()) == Seq::<nat>::empty());
    assert(fs.drop_last().last() == fs[0]);
    assert(fs.last() == fs[1]);
    assert(shown(fs.drop_last()) =~= seq![0nat]);
    assert(shown(fs) =~= seq![0nat, 1nat]);
    let picked = select(seq![0nat, 1nat], seq![a, b]);
    assert(picked =~= seq![a, b]);
    assert(picked.drop_last() =~= seq![a]);
    assert(join(seq![' '], picked.drop_last()) == a);
    assert(picked.last() == b);
    assert(join(seq![' '], picked) == a + seq![' '] + b);
    let toks = seq![v.name, a + seq![' '] + b];
    assert(toks.drop_first() =~= seq![a + seq![' '] + b]);
    assert(cli_joined(toks) =~= v.name + seq![' ', '"'] + a + seq![' '] + b + seq!['"']);
}

proof fn lemma_label_index_shown(fs: Seq<FieldView>, l: Seq<char>, k: int)
    ensures
        label_index(fs, l, k) matches Some(j) ==> j < fs.len() && !fs[j as int].ignore,
    decreases fs.len() - k,
{
    if 0 <= k < fs.len() && !(fs[k].label == Some(l) && !fs[k].ignore) {
        lemma_label_index_shown(fs, l, k + 1);
    }
}

proof fn lemma_shown_indices(fs: Seq<FieldView>)
    ensures
        forall|j: int| 0 <= j < shown(fs).len() ==> (#[trigger] shown(fs)[j]) < fs.len() && !fs[shown(fs)[j] as int].ignore,
    decreases fs.len(),
{
    if fs.len() > 0 {
        lemma_shown_indices(fs.drop_last());
        assert forall|j: int| 0 <= j < shown(fs).len() implies (#[trigger] shown(fs)[j]) < fs.len() && !fs[shown(fs)[j] as int].ignore by {
            if j < shown(fs.drop_last()).len() {
                assert(shown(fs)[j] == shown(fs.drop_last())[j]);
                assert(fs.drop_last()[shown(fs)[j] as int] == fs[shown(fs)[j] as int]);
            }
        }
    }
}

proof fn lemma_compiled_slots_shown(t: Seq<char>, i: int, next: nat, shape: Shape, fs: Seq<FieldView>)
    requires
        compile_template(t, i, next, shape, fs) is Ok,
    ensures
        forall|j: int| 0 <= j < compile_template(t, i, next, shape, fs)->Ok_0.len() ==>
            (#[trigger] compile_template(t, i, next, shape, fs)->Ok_0[j] matches PieceView::Slot(k) ==> k < fs.len() && !fs[k as int].ignore),
    decreases t.len() - i,
{
    if 0 <= i < t.len() {
        match placeholder(t, i) {
            Some(l) => {
                let (k, next2) = hole_slot(l, next, shape, fs)->Ok_0;
                lemma_compiled_slots_shown(t, i + l.len() + 2, next2, shape, fs);
                lemma_shown_indices(fs);
                lemma_label_index_shown(fs, l, 0);
                let rest = compile_template(t, i + l.len() + 2, next2, shape, fs)->Ok_0;
                assert forall|j: int| 0 <= j < (seq![PieceView::Slot(k)] + rest).len() implies
                    ((#[trigger] (seq![PieceView::Slot(k)] + rest)[j]) matches PieceView::Slot(m) ==> m < fs.len() && !fs[m as int].ignore) by {
                    if j > 0 {
                        assert((seq![PieceView::Slot(k)] + rest)[j] == rest[j - 1]);
                    }
                }
            },
            None => {
                lemma_compiled_slots_shown(t, i + 1, next, shape, fs);
                let rest = compile_template(t, i + 1, next, shape, fs)->Ok_0;
                let p = PieceView::Text(seq![t[i]]);
                assert forall|j: int| 0 <= j < (seq![p] + rest).len() implies
                    ((#[trigger] (seq![p] + rest)[j]) matches PieceView::Slot(m) ==> m < fs.len() && !fs[m as int].ignore) by {
                    if j > 0 {
                        assert((seq![p] + rest)[j] == rest[j - 1]);
                    }
                }
            },
        }
    }
}

proof fn lemma_fill_agrees(ps: Seq<PieceView>, fs: Seq<FieldView>, vals1: Seq<Seq<char>>, vals2: Seq<Seq<char>>)
    requires
        forall|j: int| 0 <= j < ps.len() ==> (#[trigger] ps[j] matches PieceView::Slot(k) ==> k < fs.len() && !fs[k as int].ignore),
        vals1.len() == fs.len(),
        vals2.len() == fs.len(),
        forall|k: int| 0 <= k < fs.len() && !fs[k].ignore ==> #[trigger] vals1[k] == vals2[k],
    ensures
        fill(ps, vals1) == fill(ps, vals2),
    decreases ps.len(),
{
    if ps.len() > 0 {
        assert(ps.last() == ps[ps.len() - 1]);
        assert forall|j: int| 0 <= j < ps.drop_last().len() implies (#[trigger] ps.drop_last()[j] matches PieceView::Slot(k) ==> k < fs.len() && !fs[k as int].ignore) by {
            assert(ps.drop_last()[j] == ps[j]);
        }
        lemma_fill_agrees(ps.drop_last(), fs, vals1, vals2);
    }
}

/// Ignored fields never reach the rendered text: two sets of field texts
/// that differ only in ignored fields render to the same tokens.
pub proof fn ignored_fields_never_rendered(v: VariantView, vals1: Seq<Seq<char>>, vals2: Seq<Seq<char>>)
    requires
        resolve(v) is Ok,
        vals1.len() == v.fields.len(),
        vals2.len() == v.fields.len(),
        forall|k: int| 0 <= k < v.fields.len() && !v.fields[k].ignore ==> #[trigger] vals1[k] == vals2[k],
    ensures
        render_tokens(resolve(v)->Ok_0, vals1) == render_tokens(resolve(v)->Ok_0, vals2),
{
    let fs = v.fields;
    match resolve(v)->Ok_0 {
        StrategyView::Template(ps) => {
            let p = last_template(v.directives)->Some_0;
            lemma_compiled_slots_shown(p, 0, 0, v.shape, fs);
            lemma_fill_agrees(ps, fs, vals1, vals2);
        },
        StrategyView::DefaultPositional(n, ks) => {
            lemma_shown_indices(fs);
            assert(select(ks, vals1) =~= select(ks, vals2));
        },
        _ => {},
    }
}


/// A resolved strategy reads only fields that the variant has.
pub proof fn resolved_strategy_fits(v: VariantView)
    requires
        resolve(v) is Ok,
    ensures
        fits(resolve(v)->Ok_0, v.fields.len()),
{
    let fs = v.fields;
    match resolve(v)->Ok_0 {
        StrategyView::Template(ps) => {
            let p = last_template(v.directives)->Some_0;
            lemma_compiled_slots_shown(p, 0, 0, v.shape, fs);
        },
        StrategyView::DefaultPositional(n, ks) => {
            lemma_shown_indices(fs);
        },
        _ => {},
    }
}

// ---------------------------------------------------------------------------
// From a declaration to tokens

/// What a declaration gives for an instance: its tokens, the custom function
/// that renders it, or nothing when the declaration does not load or resolve
/// or the field texts do not match its fields.
#[derive(Debug)]
pub enum Outcome {
    Tokens(Vec<String>),
    Custom(String),
    Unrendered,
}

pub enum OutcomeView {
    Tokens(Seq<Seq<char>>),
    Custom(Seq<char>),
    Unrendered,
}

impl View for Outcome {
    type V = OutcomeView;

    open spec fn view(&self) -> OutcomeView {
        match self {
            Outcome::Tokens(t) => OutcomeView::Tokens(views(t@)),
            Outcome::Custom(f) => OutcomeView::Custom(f@),
            Outcome::Unrendered => OutcomeView::Unrendered,
        }
    }
}

pub open spec fn declared_outcome(decl: AnnotatedVariantView, vals: Seq<Seq<char>>) -> OutcomeView {
    match load_variant(decl) {
        Err(_) => OutcomeView::Unrendered,
        Ok(v) => match resolve(v) {
            Err(_) => OutcomeView::Unrendered,
            Ok(StrategyView::Custom(f)) => OutcomeView::Custom(f),
            Ok(st) => if vals.len() == v.fields.len() {
                OutcomeView::Tokens(render_tokens(st, vals))
            } else {
                OutcomeView::Unrendered
            },
        },
    }
}

/// Loads and resolves `decl`, then renders the field texts `vals` with it.
pub fn render_declaration(decl: &AnnotatedVariant, vals: &Vec<String>) -> (r: Outcome)
    ensures
        r@ == declared_outcome(decl@, views(vals@)),
{
    match load_variant_exec(decl) {
        Err(_) => Outcome::Unrendered,
        Ok(v) => match resolve_variant(&v) {
            Err(_) => Outcome::Unrendered,
            Ok(Strategy::Custom(f)) => Outcome::Custom(f),
            Ok(st) => {
                if vals.len() == v.fields.len() {
                    proof {
                        resolved_strategy_fits(v@);
                    }
                    Outcome::Tokens(render(&st, vals))
                } else {
                    Outcome::Unrendered
                }
            },
        },
    }
}

} // verus!
