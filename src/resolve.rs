//! The annotation resolver: picks one render strategy per variant and binds a
//! template's placeholders to the variant's fields.

use vstd::prelude::*;
use vstd::string::*;
use crate::schema::{
    annotate_variant, lemma_loaded_schema_printable, lemma_schema_read_back, load_schema, AnnotatedVariantView, printable_variant, SyntaxErrorView, directive_views, field_views, ident_end, ident_end_exec, opt_view, Directive, DirectiveView, Field,
    FieldView, Shape, Variant, VariantView,
};

verus! {

/// A piece of a compiled template: literal text, or the value of a field.
#[derive(Debug)]
pub enum Piece {
    Text(String),
    Slot(usize),
}

pub enum PieceView {
    Text(Seq<char>),
    Slot(nat),
}

impl View for Piece {
    type V = PieceView;

    open spec fn view(&self) -> PieceView {
        match self {
            Piece::Text(s) => PieceView::Text(s@),
            Piece::Slot(k) => PieceView::Slot(*k as nat),
        }
    }
}

pub open spec fn piece_views(ps: Seq<Piece>) -> Seq<PieceView> {
    ps.map_values(|p: Piece| p@)
}

/// How a variant is rendered, fixed once when its declaration is resolved.
#[derive(Debug)]
pub enum Strategy {
    /// A function of the named kind renders the whole instance.
    Custom(String),
    /// The template's text, split once at its first space.
    Template(Vec<Piece>),
    /// The name alone.
    DefaultUnit(String),
    /// The name, then the listed fields' texts joined by spaces.
    DefaultPositional(String, Vec<usize>),
}

pub enum StrategyView {
    Custom(Seq<char>),
    Template(Seq<PieceView>),
    DefaultUnit(Seq<char>),
    DefaultPositional(Seq<char>, Seq<nat>),
}

pub open spec fn index_views(ks: Seq<usize>) -> Seq<nat> {
    ks.map_values(|k: usize| k as nat)
}

impl View for Strategy {
    type V = StrategyView;

    open spec fn view(&self) -> StrategyView {
        match self {
            Strategy::Custom(s) => StrategyView::Custom(s@),
            Strategy::Template(ps) => StrategyView::Template(piece_views(ps@)),
            Strategy::DefaultUnit(n) => StrategyView::DefaultUnit(n@),
            Strategy::DefaultPositional(n, ks) => StrategyView::DefaultPositional(n@, index_views(ks@)),
        }
    }
}

/// Why a variant's declaration cannot be rendered.
#[derive(Clone, Copy, PartialEq, Eq, Structural, Debug)]
pub enum GenErrorKind {
    /// A variant with named fields has no template.
    MissingTemplate,
    /// The fields do not match the declared shape (labels on positional
    /// fields, a unit variant with fields, unlabelled named fields).
    UnsupportedShape,
    /// The template's placeholders do not fit the fields.
    PlaceholderMismatch,
}

/// A declaration that cannot be rendered, and the variant it belongs to.
#[derive(Debug)]
pub struct GenError {
    pub variant: String,
    pub kind: GenErrorKind,
}

/// The terminal state of a variant's resolution.
#[derive(Clone, Copy, PartialEq, Eq, Structural, Debug)]
pub enum ResolutionState {
    CustomResolved,
    TemplateResolved,
    DefaultResolved,
    Error,
}

pub open spec fn state_of(r: Result<StrategyView, GenErrorKind>) -> ResolutionState {
    match r {
        Ok(StrategyView::Custom(_)) => ResolutionState::CustomResolved,
        Ok(StrategyView::Template(_)) => ResolutionState::TemplateResolved,
        Ok(_) => ResolutionState::DefaultResolved,
        Err(_) => ResolutionState::Error,
    }
}

// ---------------------------------------------------------------------------
// Picking the directives

/// The function of the first `with` directive.
pub open spec fn first_custom(ds: Seq<DirectiveView>) -> Option<Seq<char>>
    decreases ds.len(),
{
    if ds.len() == 0 {
        None
    } else {
        match ds[0] {
            DirectiveView::Custom(f) => Some(f),
            _ => first_custom(ds.drop_first()),
        }
    }
}

/// The pattern of the last template directive: a later template replaces an
/// earlier one.
pub open spec fn last_template(ds: Seq<DirectiveView>) -> Option<Seq<char>>
    decreases ds.len(),
{
    if ds.len() == 0 {
        None
    } else {
        match ds.last() {
            DirectiveView::Template(p) => Some(p),
            _ => last_template(ds.drop_last()),
        }
    }
}

/// The name that the default strategy uses: that of the last `rename`, else
/// the variant's own.
pub open spec fn display_name(name: Seq<char>, ds: Seq<DirectiveView>) -> Seq<char>
    decreases ds.len(),
{
    if ds.len() == 0 {
        name
    } else {
        match ds.last() {
            DirectiveView::Rename(n) => n,
            _ => display_name(name, ds.drop_last()),
        }
    }
}

/// Whether the fields carry labels exactly as the shape asks.
pub open spec fn shape_fits(shape: Shape, fs: Seq<FieldView>) -> bool {
    match shape {
        Shape::Unit => fs.len() == 0,
        Shape::Positional => forall|k: int| 0 <= k < fs.len() ==> (#[trigger] fs[k]).label is None,
        Shape::Named => forall|k: int| 0 <= k < fs.len() ==> (#[trigger] fs[k]).label is Some,
    }
}

/// The indices of the fields that are not ignored, in declaration order.
pub open spec fn shown(fs: Seq<FieldView>) -> Seq<nat>
    decreases fs.len(),
{
    if fs.len() == 0 {
        Seq::empty()
    } else if fs.last().ignore {
        shown(fs.drop_last())
    } else {
        shown(fs.drop_last()).push((fs.len() - 1) as nat)
    }
}

/// The first field, from `k` on, that has label `l` and is not ignored.
pub open spec fn label_index(fs: Seq<FieldView>, l: Seq<char>, k: int) -> Option<nat>
    decreases fs.len() - k,
{
    if k < 0 || k >= fs.len() {
        None
    } else if fs[k].label == Some(l) && !fs[k].ignore {
        Some(k as nat)
    } else {
        label_index(fs, l, k + 1)
    }
}

// ---------------------------------------------------------------------------
// Templates

/// The label of a placeholder `{}` or `{label}` at `i` (empty for `{}`); the
/// placeholder ends two characters after its label.
pub open spec fn placeholder(t: Seq<char>, i: int) -> Option<Seq<char>> {
    if 0 <= i < t.len() && t[i] == '{' {
        let e = ident_end(t, i + 1);
        if i + 1 <= e < t.len() && t[e] == '}' {
            Some(t.subrange(i + 1, e))
        } else {
            None
        }
    } else {
        None
    }
}

/// The field that a placeholder with label `l` takes, when `next` positional
/// placeholders came before it, and the count after it.
pub open spec fn hole_slot(l: Seq<char>, next: nat, shape: Shape, fs: Seq<FieldView>) -> Result<(nat, nat), GenErrorKind> {
    if l.len() == 0 {
        if next < shown(fs).len() {
            Ok((shown(fs)[next as int], next + 1))
        } else {
            Err(GenErrorKind::PlaceholderMismatch)
        }
    } else if shape == Shape::Named {
        match label_index(fs, l, 0) {
            Some(k) => Ok((k, next)),
            None => Err(GenErrorKind::PlaceholderMismatch),
        }
    } else {
        Err(GenErrorKind::PlaceholderMismatch)
    }
}

pub open spec fn prepend(p: PieceView, r: Result<Seq<PieceView>, GenErrorKind>) -> Result<Seq<PieceView>, GenErrorKind> {
    match r {
        Ok(ps) => Ok(seq![p] + ps),
        Err(e) => Err(e),
    }
}

/// The pieces of template `t` from position `i` on. A positional or unit
/// variant must use each shown field exactly once, through `{}`.
pub open spec fn compile_template(t: Seq<char>, i: int, next: nat, shape: Shape, fs: Seq<FieldView>) -> Result<Seq<PieceView>, GenErrorKind>
    decreases t.len() - i,
{
    if i < 0 || i >= t.len() {
        if shape != Shape::Named && next != shown(fs).len() {
            Err(GenErrorKind::PlaceholderMismatch)
        } else {
            Ok(Seq::empty())
        }
    } else {
        match placeholder(t, i) {
            Some(l) => match hole_slot(l, next, shape, fs) {
                Ok((k, next2)) => prepend(PieceView::Slot(k), compile_template(t, i + l.len() + 2, next2, shape, fs)),
                Err(x) => Err(x),
            },
            None => prepend(PieceView::Text(seq![t[i]]), compile_template(t, i + 1, next, shape, fs)),
        }
    }
}

/// The strategy of a variant, or why it has none.
pub open spec fn resolve(v: VariantView) -> Result<StrategyView, GenErrorKind> {
    match first_custom(v.directives) {
        Some(f) => Ok(StrategyView::Custom(f)),
        None => if !shape_fits(v.shape, v.fields) {
            Err(GenErrorKind::UnsupportedShape)
        } else {
            match last_template(v.directives) {
                Some(p) => match compile_template(p, 0, 0, v.shape, v.fields) {
                    Ok(ps) => Ok(StrategyView::Template(ps)),
                    Err(x) => Err(x),
                },
                None => match v.shape {
                    Shape::Named => Err(GenErrorKind::MissingTemplate),
                    Shape::Unit => Ok(StrategyView::DefaultUnit(display_name(v.name, v.directives))),
                    Shape::Positional => Ok(StrategyView::DefaultPositional(display_name(v.name, v.directives), shown(v.fields))),
                },
            }
        }
    }
}

// ---------------------------------------------------------------------------
// Executable resolver

fn first_custom_exec(ds: &Vec<Directive>) -> (r: Option<String>)
    ensures
        opt_view(r) == first_custom(directive_views(ds@)),
{
    let mut i: usize = 0;
    assert(directive_views(ds@).subrange(0, ds@.len() as int) =~= directive_views(ds@));
    while i < ds.len()
        invariant
            i <= ds.len(),
            first_custom(directive_views(ds@)) == first_custom(directive_views(ds@).subrange(i as int, ds@.len() as int)),
        decreases ds.len() - i,
    {
        let ghost rest = directive_views(ds@).subrange(i as int, ds@.len() as int);
        assert(rest.drop_first() =~= directive_views(ds@).subrange(i + 1, ds@.len() as int));
        match &ds[i] {
            Directive::Custom(f) => {
                return Some(f.clone());
            },
            _ => {},
        }
        i += 1;
    }
    None
}

fn last_template_exec(ds: &Vec<Directive>) -> (r: Option<&String>)
    ensures
        match last_template(directive_views(ds@)) {
            Some(p) => r matches Some(s) && s@ == p,
            None => r is None,
        },
{
    let mut i: usize = ds.len();
    assert(directive_views(ds@).subrange(0, ds@.len() as int) =~= directive_views(ds@));
    while i > 0
        invariant
            i <= ds.len(),
            last_template(directive_views(ds@)) == last_template(directive_views(ds@).subrange(0, i as int)),
        decreases i,
    {
        let ghost pre = directive_views(ds@).subrange(0, i as int);
        assert(pre.drop_last() =~= directive_views(ds@).subrange(0, i - 1));
        match &ds[i - 1] {
            Directive::Template(p) => {
                return Some(p);
            },
            _ => {},
        }
        i -= 1;
    }
    None
}

fn display_name_exec(name: &String, ds: &Vec<Directive>) -> (r: String)
    ensures
        r@ == display_name(name@, directive_views(ds@)),
{
    let mut i: usize = ds.len();
    assert(directive_views(ds@).subrange(0, ds@.len() as int) =~= directive_views(ds@));
    while i > 0
        invariant
            i <= ds.len(),
            display_name(name@, directive_views(ds@)) == display_name(name@, directive_views(ds@).subrange(0, i as int)),
        decreases i,
    {
        let ghost pre = directive_views(ds@).subrange(0, i as int);
        assert(pre.drop_last() =~= directive_views(ds@).subrange(0, i - 1));
        match &ds[i - 1] {
            Directive::Rename(n) => {
                return n.clone();
            },
            _ => {},
        }
        i -= 1;
    }
    name.clone()
}

fn shape_fits_exec(shape: Shape, fs: &Vec<Field>) -> (r: bool)
    ensures
        r == shape_fits(shape, field_views(fs@)),
{
    match shape {
        Shape::Unit => fs.len() == 0,
        _ => {
            let named = shape == Shape::Named;
            let mut i: usize = 0;
            while i < fs.len()
                invariant
                    i <= fs.len(),
                    named == (shape == Shape::Named),
                    shape != Shape::Unit,
                    forall|k: int| 0 <= k < i ==> (fs@[k].label is Some) == named,
                decreases fs.len() - i,
            {
                if fs[i].label.is_some() != named {
                    assert(field_views(fs@)[i as int].label is Some == fs@[i as int].label is Some);
                    return false;
                }
                i += 1;
            }
            proof {
                assert forall|k: int| 0 <= k < field_views(fs@).len() implies ((#[trigger] field_views(fs@)[k]).label is Some) == named by {
                    assert(field_views(fs@)[k] == fs@[k]@);
                }
            }
            true
        },
    }
}

fn shown_exec(fs: &Vec<Field>) -> (r: Vec<usize>)
    ensures
        index_views(r@) == shown(field_views(fs@)),
        forall|j: int| 0 <= j < r@.len() ==> r@[j] < fs@.len(),
{
    let mut out: Vec<usize> = Vec::new();
    let mut i: usize = 0;
    proof {
        assert(field_views(fs@.subrange(0, 0)) =~= Seq::<FieldView>::empty());
        assert(index_views(out@) =~= Seq::<nat>::empty());
    }
    while i < fs.len()
        invariant
            i <= fs.len(),
            index_views(out@) == shown(field_views(fs@.subrange(0, i as int))),
            forall|j: int| 0 <= j < out@.len() ==> out@[j] < i,
        decreases fs.len() - i,
    {
        let ghost pre = field_views(fs@.subrange(0, i + 1));
        assert(pre.drop_last() =~= field_views(fs@.subrange(0, i as int)));
        assert(pre.last() == fs@[i as int]@);
        let ghost before = out@;
        if !fs[i].ignore {
            out.push(i);
            assert(index_views(out@) =~= index_views(before).push(i as nat));
        }
        i += 1;
    }
    proof {
        assert(fs@.subrange(0, fs.len() as int) =~= fs@);
    }
    out
}

fn label_index_exec(fs: &Vec<Field>, l: &str) -> (r: Option<usize>)
    ensures
        match label_index(field_views(fs@), l@, 0) {
            Some(k) => r matches Some(rk) && rk as nat == k && k < fs@.len(),
            None => r is None,
        },
{
    let mut k: usize = 0;
    let target = String::from_str(l);
    while k < fs.len()
        invariant
            k <= fs.len(),
            target@ == l@,
            label_index(field_views(fs@), l@, 0) == label_index(field_views(fs@), l@, k as int),
        decreases fs.len() - k,
    {
        assert(field_views(fs@)[k as int] == fs@[k as int]@);
        match &fs[k].label {
            Some(name) => {
                if !fs[k].ignore && *name == target {
                    return Some(k);
                }
            },
            None => {},
        }
        k += 1;
    }
    None
}

/// Compiles template `t` against the fields of a variant of shape `shape`.
fn compile_template_exec(t: &str, shape: Shape, fs: &Vec<Field>) -> (r: Result<Vec<Piece>, GenErrorKind>)
    ensures
        match compile_template(t@, 0, 0, shape, field_views(fs@)) {
            Ok(ps) => r matches Ok(rp) && piece_views(rp@) == ps,
            Err(k) => r == Err::<Vec<Piece>, GenErrorKind>(k),
        },
{
    let ghost fv = field_views(fs@);
    let order = shown_exec(fs);
    let n = t.unicode_len();
    let mut out: Vec<Piece> = Vec::new();
    let mut i: usize = 0;
    let mut next: usize = 0;
    proof {
        assert(piece_views(out@) =~= Seq::<PieceView>::empty());
        assert(Seq::<PieceView>::empty() + Seq::<PieceView>::empty() =~= Seq::<PieceView>::empty());
    }
    while i < n
        invariant
            n == t@.len(),
            i <= n,
            fv == field_views(fs@),
            index_views(order@) == shown(fv),
            next <= order@.len(),
            compile_template(t@, 0, 0, shape, fv) == match compile_template(t@, i as int, next as nat, shape, fv) {
                Ok(rest) => Ok(piece_views(out@) + rest),
                Err(x) => Err::<Seq<PieceView>, GenErrorKind>(x),
            },
        decreases n - i,
    {
        let ghost before = piece_views(out@);
        let c = t.get_char(i);
        let mut hole: Option<usize> = None;
        if c == '{' {
            let e = ident_end_exec(t, n, i + 1);
            if e < n && t.get_char(e) == '}' {
                hole = Some(e);
            }
        }
        match hole {
            Some(e) => {
                let label = t.substring_char(i + 1, e);
                assert(placeholder(t@, i as int) == Some(label@));
                assert(label@.len() == e - i - 1);
                let ghost old_next = next;
                let slot: usize;
                if e == i + 1 {
                    if next < order.len() {
                        slot = order[next];
                        assert(shown(fv)[next as int] == slot as nat);
                        assert(label@.len() == 0);
                        assert(hole_slot(label@, next as nat, shape, fv) == Ok::<(nat, nat), GenErrorKind>((slot as nat, (next + 1) as nat)));
                        next += 1;
                    } else {
                        return Err(GenErrorKind::PlaceholderMismatch);
                    }
                } else if shape == Shape::Named {
                    match label_index_exec(fs, label) {
                        Some(k) => {
                            assert(label@.len() > 0);
                            assert(label_index(fv, label@, 0) == Some(k as nat));
                            slot = k;
                        },
                        None => {
                            return Err(GenErrorKind::PlaceholderMismatch);
                        },
                    }
                } else {
                    return Err(GenErrorKind::PlaceholderMismatch);
                }
                out.push(Piece::Slot(slot));
                proof {
                    assert(hole_slot(label@, old_next as nat, shape, fv) == Ok::<(nat, nat), GenErrorKind>((slot as nat, next as nat)));
                    assert(compile_template(t@, i as int, old_next as nat, shape, fv) == prepend(PieceView::Slot(slot as nat), compile_template(t@, e + 1, next as nat, shape, fv)));
                    assert(piece_views(out@) =~= before.push(PieceView::Slot(slot as nat)));
                    match compile_template(t@, e + 1, next as nat, shape, fv) {
                        Ok(rest) => {
                            assert(before + (seq![PieceView::Slot(slot as nat)] + rest) =~= piece_views(out@) + rest);
                        },
                        Err(_) => {},
                    }
                }
                i = e + 1;
            },
            None => {
                assert(placeholder(t@, i as int) is None);
                let piece = String::from_str(t.substring_char(i, i + 1));
                out.push(Piece::Text(piece));
                proof {
                    assert(piece@ =~= seq![t@[i as int]]);
                    assert(piece_views(out@) =~= before.push(PieceView::Text(seq![t@[i as int]])));
                    match compile_template(t@, i + 1, next as nat, shape, fv) {
                        Ok(rest) => {
                            assert(before + (seq![PieceView::Text(seq![t@[i as int]])] + rest) =~= piece_views(out@) + rest);
                        },
                        Err(_) => {},
                    }
                }
                i += 1;
            },
        }
    }
    if shape != Shape::Named && next != order.len() {
        return Err(GenErrorKind::PlaceholderMismatch);
    }
    proof {
        assert(piece_views(out@) + Seq::<PieceView>::empty() =~= piece_views(out@));
    }
    Ok(out)
}

/// Resolves a variant's declaration to its render strategy.
pub fn resolve_variant(v: &Variant) -> (r: Result<Strategy, GenError>)
    ensures
        match resolve(v@) {
            Ok(s) => r matches Ok(rs) && rs@ == s,
            Err(k) => r matches Err(e) && e.kind == k && e.variant@ == v.name@,
        },
{
    match first_custom_exec(&v.directives) {
        Some(f) => {
            return Ok(Strategy::Custom(f));
        },
        None => {},
    }
    if !shape_fits_exec(v.shape, &v.fields) {
        return Err(GenError { variant: v.name.clone(), kind: GenErrorKind::UnsupportedShape });
    }
    match last_template_exec(&v.directives) {
        Some(p) => match compile_template_exec(p.as_str(), v.shape, &v.fields) {
            Ok(ps) => Ok(Strategy::Template(ps)),
            Err(k) => Err(GenError { variant: v.name.clone(), kind: k }),
        },
        None => match v.shape {
            Shape::Named => Err(GenError { variant: v.name.clone(), kind: GenErrorKind::MissingTemplate }),
            Shape::Unit => Ok(Strategy::DefaultUnit(display_name_exec(&v.name, &v.directives))),
            Shape::Positional => Ok(Strategy::DefaultPositional(display_name_exec(&v.name, &v.directives), shown_exec(&v.fields))),
        },
    }
}


/// Writing a schema back as annotations and loading the text again keeps the
/// variants in their declared order, and each variant resolves as before:
/// same strategy, same terminal state.
pub proof fn annotations_round_trip(vs: Seq<VariantView>)
    requires
        forall|k: int| 0 <= k < vs.len() ==> printable_variant(#[trigger] vs[k]),
    ensures
        load_schema(vs.map_values(|v: VariantView| annotate_variant(v))) is Ok,
        ({
            let loaded = load_schema(vs.map_values(|v: VariantView| annotate_variant(v)))->Ok_0;
            &&& loaded.len() == vs.len()
            &&& forall|k: int| 0 <= k < vs.len() ==> (#[trigger] loaded[k]).name == vs[k].name
                && resolve(loaded[k]) == resolve(vs[k])
                && state_of(resolve(loaded[k])) == state_of(resolve(vs[k]))
        }),
{
    lemma_schema_read_back(vs);
}


/// Any schema read from annotation text, written back and read again, keeps
/// its variants in order, and each resolves to the same strategy and the
/// same terminal state.
pub proof fn reparsed_schema_resolves_the_same(avs: Seq<AnnotatedVariantView>)
    requires
        load_schema(avs) is Ok,
    ensures
        ({
            let vs = load_schema(avs)->Ok_0;
            let again = load_schema(vs.map_values(|v: VariantView| annotate_variant(v)));
            &&& again == Ok::<Seq<VariantView>, SyntaxErrorView>(vs)
            &&& vs.len() == avs.len()
            &&& forall|k: int| 0 <= k < vs.len() ==> (#[trigger] again->Ok_0[k]).name == avs[k].name
                && state_of(resolve(again->Ok_0[k])) == state_of(resolve(vs[k]))
        }),
{
    lemma_loaded_schema_printable(avs);
    let vs = load_schema(avs)->Ok_0;
    annotations_round_trip(vs);
    lemma_schema_read_back(vs);
    lemma_loaded_names(avs);
    let again = load_schema(vs.map_values(|v: VariantView| annotate_variant(v)));
    assert forall|k: int| 0 <= k < vs.len() implies (#[trigger] again->Ok_0[k]).name == avs[k].name
        && state_of(resolve(again->Ok_0[k])) == state_of(resolve(vs[k])) by {
        assert(again->Ok_0[k] == vs[k]);
    }
}

proof fn lemma_loaded_names(avs: Seq<AnnotatedVariantView>)
    requires
        load_schema(avs) is Ok,
    ensures
        load_schema(avs)->Ok_0.len() == avs.len(),
        forall|k: int| 0 <= k < avs.len() ==> (#[trigger] load_schema(avs)->Ok_0[k]).name == avs[k].name
            && load_schema(avs)->Ok_0[k].fields.len() == avs[k].fields.len(),
    decreases avs.len(),
{
    if avs.len() > 0 {
        lemma_loaded_names(avs.drop_last());
        lemma_loaded_fields_len(avs.last().fields);
        let vs = load_schema(avs)->Ok_0;
        let pre = load_schema(avs.drop_last())->Ok_0;
        assert forall|k: int| 0 <= k < avs.len() implies (#[trigger] vs[k]).name == avs[k].name
            && vs[k].fields.len() == avs[k].fields.len() by {
            if k < pre.len() {
                assert(vs[k] == pre[k]);
                assert(avs.drop_last()[k] == avs[k]);
            }
        }
    }
}

proof fn lemma_loaded_fields_len(fs: Seq<crate::schema::AnnotatedFieldView>)
    requires
        crate::schema::load_fields(fs) is Ok,
    ensures
        crate::schema::load_fields(fs)->Ok_0.len() == fs.len(),
    decreases fs.len(),
{
    if fs.len() > 0 {
        lemma_loaded_fields_len(fs.drop_last());
    }
}

/// Loading keeps each variant's name and number of fields.
pub proof fn loaded_schema_keeps_names_and_arity(avs: Seq<AnnotatedVariantView>)
    requires
        load_schema(avs) is Ok,
    ensures
        load_schema(avs)->Ok_0.len() == avs.len(),
        forall|k: int| 0 <= k < avs.len() ==> (#[trigger] load_schema(avs)->Ok_0[k]).name == avs[k].name
            && load_schema(avs)->Ok_0[k].fields.len() == avs[k].fields.len(),
{
    lemma_loaded_names(avs);
}

} // verus!
