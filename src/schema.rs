//! The annotation schema: variants, fields and directives, the grammar of a
//! directive's text, its loader, and the printer that writes a schema back as
//! annotations.

use vstd::prelude::*;
use vstd::string::*;

verus! {

/// How the fields of a variant are laid out.
#[derive(Clone, Copy, PartialEq, Eq, Structural, Debug)]
pub enum Shape {
    Unit,
    Positional,
    Named,
}

/// One parsed annotation.
#[derive(Debug)]
pub enum Directive {
    /// A format pattern with `{}` and `{label}` placeholders.
    Template(String),
    /// The name of a function that renders the whole instance itself.
    Custom(String),
    /// The name token used by the default strategy.
    Rename(String),
    /// An example: the constructor arguments (with their brackets) and the
    /// expected command-line text.
    Test(Option<String>, String),
    /// Leave a field out of the rendered text.
    Ignore,
}

pub enum DirectiveView {
    Template(Seq<char>),
    Custom(Seq<char>),
    Rename(Seq<char>),
    Test(Option<Seq<char>>, Seq<char>),
    Ignore,
}

pub open spec fn opt_view(o: Option<String>) -> Option<Seq<char>> {
    match o {
        Some(s) => Some(s@),
        None => None,
    }
}

impl View for Directive {
    type V = DirectiveView;

    open spec fn view(&self) -> DirectiveView {
        match self {
            Directive::Template(s) => DirectiveView::Template(s@),
            Directive::Custom(s) => DirectiveView::Custom(s@),
            Directive::Rename(s) => DirectiveView::Rename(s@),
            Directive::Test(a, e) => DirectiveView::Test(opt_view(*a), e@),
            Directive::Ignore => DirectiveView::Ignore,
        }
    }
}

/// A field of a variant: its label (for a named field) and whether it is left
/// out of the rendered text.
#[derive(Debug)]
pub struct Field {
    pub label: Option<String>,
    pub ignore: bool,
}

pub struct FieldView {
    pub label: Option<Seq<char>>,
    pub ignore: bool,
}

impl View for Field {
    type V = FieldView;

    open spec fn view(&self) -> FieldView {
        FieldView { label: opt_view(self.label), ignore: self.ignore }
    }
}

/// A variant of the schema with its parsed directives, in declaration order.
#[derive(Debug)]
pub struct Variant {
    pub name: String,
    pub shape: Shape,
    pub fields: Vec<Field>,
    pub directives: Vec<Directive>,
}

pub struct VariantView {
    pub name: Seq<char>,
    pub shape: Shape,
    pub fields: Seq<FieldView>,
    pub directives: Seq<DirectiveView>,
}

pub open spec fn field_views(fs: Seq<Field>) -> Seq<FieldView> {
    fs.map_values(|f: Field| f@)
}

pub open spec fn directive_views(ds: Seq<Directive>) -> Seq<DirectiveView> {
    ds.map_values(|d: Directive| d@)
}

impl View for Variant {
    type V = VariantView;

    open spec fn view(&self) -> VariantView {
        VariantView {
            name: self.name@,
            shape: self.shape,
            fields: field_views(self.fields@),
            directives: directive_views(self.directives@),
        }
    }
}

pub open spec fn variant_views(vs: Seq<Variant>) -> Seq<VariantView> {
    vs.map_values(|v: Variant| v@)
}

/// A field as written in the source: its label and its annotation texts.
#[derive(Debug)]
pub struct AnnotatedField {
    pub label: Option<String>,
    pub annotations: Vec<String>,
}

pub struct AnnotatedFieldView {
    pub label: Option<Seq<char>>,
    pub annotations: Seq<Seq<char>>,
}

impl View for AnnotatedField {
    type V = AnnotatedFieldView;

    open spec fn view(&self) -> AnnotatedFieldView {
        AnnotatedFieldView {
            label: opt_view(self.label),
            annotations: crate::text::views(self.annotations@),
        }
    }
}

/// A variant as written in the source: name, shape, fields and the texts of
/// its annotations, in order.
#[derive(Debug)]
pub struct AnnotatedVariant {
    pub name: String,
    pub shape: Shape,
    pub fields: Vec<AnnotatedField>,
    pub annotations: Vec<String>,
}

pub struct AnnotatedVariantView {
    pub name: Seq<char>,
    pub shape: Shape,
    pub fields: Seq<AnnotatedFieldView>,
    pub annotations: Seq<Seq<char>>,
}

pub open spec fn annotated_field_views(fs: Seq<AnnotatedField>) -> Seq<AnnotatedFieldView> {
    fs.map_values(|f: AnnotatedField| f@)
}

impl View for AnnotatedVariant {
    type V = AnnotatedVariantView;

    open spec fn view(&self) -> AnnotatedVariantView {
        AnnotatedVariantView {
            name: self.name@,
            shape: self.shape,
            fields: annotated_field_views(self.fields@),
            annotations: crate::text::views(self.annotations@),
        }
    }
}

pub open spec fn annotated_views(vs: Seq<AnnotatedVariant>) -> Seq<AnnotatedVariantView> {
    vs.map_values(|v: AnnotatedVariant| v@)
}

/// Why the text of an annotation was refused.
#[derive(Clone, Copy, PartialEq, Eq, Structural, Debug)]
pub enum SyntaxErrorKind {
    /// The text starts with neither a string literal nor a known keyword.
    UnknownKeyword,
    /// A `keyword = value` form is broken, or text follows a complete directive.
    MalformedPair,
    /// A `test` directive lacks the `=>` before its expected output.
    MissingArrow,
    /// A string literal was required and is absent or unterminated.
    ExpectedString,
    /// `ignore` on a variant, or another directive on a field.
    Misplaced,
}

/// A refused annotation: the variant it belongs to, its text, and why.
#[derive(Debug)]
pub struct SyntaxError {
    pub variant: String,
    pub directive: String,
    pub kind: SyntaxErrorKind,
}

pub struct SyntaxErrorView {
    pub variant: Seq<char>,
    pub directive: Seq<char>,
    pub kind: SyntaxErrorKind,
}

impl View for SyntaxError {
    type V = SyntaxErrorView;

    open spec fn view(&self) -> SyntaxErrorView {
        SyntaxErrorView { variant: self.variant@, directive: self.directive@, kind: self.kind }
    }
}

// ---------------------------------------------------------------------------
// Lexical level

pub open spec fn is_space(c: char) -> bool {
    c == ' ' || c == '\t' || c == '\n' || c == '\r'
}

pub open spec fn is_ident_char(c: char) -> bool {
    ('a' <= c && c <= 'z') || ('A' <= c && c <= 'Z') || ('0' <= c && c <= '9') || c == '_'
}

pub open spec fn is_open(c: char) -> bool {
    c == '(' || c == '[' || c == '{'
}

pub open spec fn is_close(c: char) -> bool {
    c == ')' || c == ']' || c == '}'
}

/// The first position at or after `i` that does not hold white space.
pub open spec fn skip_spaces(t: Seq<char>, i: int) -> int
    decreases t.len() - i,
{
    if 0 <= i < t.len() && is_space(t[i]) {
        skip_spaces(t, i + 1)
    } else {
        i
    }
}

/// The first position at or after `i` that does not hold an identifier character.
pub open spec fn ident_end(t: Seq<char>, i: int) -> int
    decreases t.len() - i,
{
    if 0 <= i < t.len() && is_ident_char(t[i]) {
        ident_end(t, i + 1)
    } else {
        i
    }
}

/// The body of a string literal whose opening quote stands just before `i`:
/// its characters, with each backslash taking the next character literally,
/// and the position after the closing quote. `None` when it is unterminated.
pub open spec fn string_body(t: Seq<char>, i: int) -> Option<(Seq<char>, int)>
    decreases t.len() - i,
{
    if i < 0 || i >= t.len() {
        None
    } else if t[i] == '"' {
        Some((Seq::empty(), i + 1))
    } else if t[i] == '\\' {
        if i + 1 >= t.len() {
            None
        } else {
            match string_body(t, i + 2) {
                Some((s, j)) => Some((seq![t[i + 1]] + s, j)),
                None => None,
            }
        }
    } else {
        match string_body(t, i + 1) {
            Some((s, j)) => Some((seq![t[i]] + s, j)),
            None => None,
        }
    }
}

/// The position just after the bracket that closes a group, scanning from `i`
/// at nesting `depth`; string literals inside are skipped whole.
pub open spec fn group_end(t: Seq<char>, i: int, depth: nat, in_string: bool) -> Option<int>
    decreases t.len() - i,
{
    if i < 0 || i >= t.len() {
        None
    } else if in_string {
        if t[i] == '\\' {
            if i + 1 >= t.len() {
                None
            } else {
                group_end(t, i + 2, depth, true)
            }
        } else if t[i] == '"' {
            group_end(t, i + 1, depth, false)
        } else {
            group_end(t, i + 1, depth, true)
        }
    } else if t[i] == '"' {
        group_end(t, i + 1, depth, true)
    } else if is_open(t[i]) {
        group_end(t, i + 1, depth + 1, false)
    } else if is_close(t[i]) {
        if depth <= 1 {
            Some(i + 1)
        } else {
            group_end(t, i + 1, (depth - 1) as nat, false)
        }
    } else {
        group_end(t, i + 1, depth, false)
    }
}

fn is_space_char(c: char) -> (r: bool)
    ensures
        r == is_space(c),
{
    c == ' ' || c == '\t' || c == '\n' || c == '\r'
}

fn is_ident_char_exec(c: char) -> (r: bool)
    ensures
        r == is_ident_char(c),
{
    ('a' <= c && c <= 'z') || ('A' <= c && c <= 'Z') || ('0' <= c && c <= '9') || c == '_'
}

fn skip_spaces_exec(t: &str, n: usize, i: usize) -> (r: usize)
    requires
        n == t@.len(),
        i <= n,
    ensures
        r == skip_spaces(t@, i as int),
        i <= r <= n,
{
    let mut k = i;
    while k < n && is_space_char(t.get_char(k))
        invariant
            n == t@.len(),
            i <= k <= n,
            skip_spaces(t@, i as int) == skip_spaces(t@, k as int),
        decreases n - k,
    {
        k += 1;
    }
    k
}

pub(crate) fn ident_end_exec(t: &str, n: usize, i: usize) -> (r: usize)
    requires
        n == t@.len(),
        i <= n,
    ensures
        r == ident_end(t@, i as int),
        i <= r <= n,
{
    let mut k = i;
    while k < n && is_ident_char_exec(t.get_char(k))
        invariant
            n == t@.len(),
            i <= k <= n,
            ident_end(t@, i as int) == ident_end(t@, k as int),
        decreases n - k,
    {
        k += 1;
    }
    k
}

fn string_body_exec(t: &str, n: usize, i: usize) -> (r: Option<(String, usize)>)
    requires
        n == t@.len(),
        i <= n,
    ensures
        match string_body(t@, i as int) {
            Some((s, j)) => r matches Some((rs, rj)) && rs@ == s && rj == j && j <= n,
            None => r is None,
        },
{
    let mut acc = String::new();
    let mut k = i;
    while k < n
        invariant
            n == t@.len(),
            i <= k <= n,
            string_body(t@, i as int) == match string_body(t@, k as int) {
                Some((s, j)) => Some((acc@ + s, j)),
                None => None::<(Seq<char>, int)>,
            },
        decreases n - k,
    {
        let c = t.get_char(k);
        if c == '"' {
            proof {
                assert(acc@ + Seq::<char>::empty() =~= acc@);
            }
            return Some((acc, k + 1));
        } else if c == '\\' {
            if k + 1 >= n {
                return None;
            }
            let piece = t.substring_char(k + 1, k + 2);
            proof {
                assert(piece@ =~= seq![t@[k + 1]]);
                match string_body(t@, k + 2) {
                    Some((s, j)) => {
                        assert(acc@ + (seq![t@[k + 1]] + s) =~= (acc@ + piece@) + s);
                    },
                    None => {},
                }
            }
            acc.append(piece);
            k += 2;
        } else {
            let piece = t.substring_char(k, k + 1);
            proof {
                assert(piece@ =~= seq![t@[k as int]]);
                match string_body(t@, k + 1) {
                    Some((s, j)) => {
                        assert(acc@ + (seq![t@[k as int]] + s) =~= (acc@ + piece@) + s);
                    },
                    None => {},
                }
            }
            acc.append(piece);
            k += 1;
        }
    }
    None
}

fn group_end_exec(t: &str, n: usize, i: usize) -> (r: Option<usize>)
    requires
        n == t@.len(),
        1 <= i <= n,
    ensures
        match group_end(t@, i as int, 1, false) {
            Some(j) => r == Some(j as usize) && i < j <= n,
            None => r is None,
        },
{
    let mut k = i;
    let mut depth: usize = 1;
    let mut in_string = false;
    while k < n
        invariant
            n == t@.len(),
            1 <= i <= k <= n,
            1 <= depth <= k - i + 1,
            group_end(t@, i as int, 1, false) == group_end(t@, k as int, depth as nat, in_string),
        decreases n - k,
    {
        let c = t.get_char(k);
        if in_string {
            if c == '\\' {
                if k + 1 >= n {
                    return None;
                }
                k += 2;
            } else {
                if c == '"' {
                    in_string = false;
                }
                k += 1;
            }
        } else if c == '"' {
            in_string = true;
            k += 1;
        } else if c == '(' || c == '[' || c == '{' {
            depth += 1;
            k += 1;
        } else if c == ')' || c == ']' || c == '}' {
            if depth <= 1 {
                return Some(k + 1);
            }
            depth -= 1;
            k += 1;
        } else {
            k += 1;
        }
    }
    None
}


// ---------------------------------------------------------------------------
// Directive grammar

/// A string literal starting at `i`: its contents and the position after it.
pub open spec fn string_value(t: Seq<char>, i: int) -> Result<(Seq<char>, int), SyntaxErrorKind> {
    if 0 <= i < t.len() && t[i] == '"' {
        match string_body(t, i + 1) {
            Some(p) => Ok(p),
            None => Err(SyntaxErrorKind::ExpectedString),
        }
    } else {
        Err(SyntaxErrorKind::ExpectedString)
    }
}

/// `d`, if nothing but white space follows position `j`.
pub open spec fn finish(t: Seq<char>, d: DirectiveView, j: int) -> Result<DirectiveView, SyntaxErrorKind> {
    if skip_spaces(t, j) == t.len() {
        Ok(d)
    } else {
        Err(SyntaxErrorKind::MalformedPair)
    }
}

/// The `= "value"` part that follows a keyword ending at `e`.
pub open spec fn pair_value(t: Seq<char>, e: int) -> Result<(Seq<char>, int), SyntaxErrorKind> {
    let k = skip_spaces(t, e);
    if k < t.len() && t[k] == '=' {
        string_value(t, skip_spaces(t, k + 1))
    } else {
        Err(SyntaxErrorKind::MalformedPair)
    }
}

/// The `=> "expected"` part of a test example, from position `p`.
pub open spec fn test_expected(t: Seq<char>, args: Option<Seq<char>>, p: int) -> Result<DirectiveView, SyntaxErrorKind> {
    let a = skip_spaces(t, p);
    if 0 <= a && a + 1 < t.len() && t[a] == '=' && t[a + 1] == '>' {
        match string_value(t, skip_spaces(t, a + 2)) {
            Ok((s, j)) => finish(t, DirectiveView::Test(args, s), j),
            Err(k) => Err(k),
        }
    } else {
        Err(SyntaxErrorKind::MissingArrow)
    }
}

/// What follows the keyword `test` ending at `e`: `=`, an optional bracketed
/// argument group, `=>` and the expected text.
pub open spec fn test_directive(t: Seq<char>, e: int) -> Result<DirectiveView, SyntaxErrorKind> {
    let k = skip_spaces(t, e);
    if k < t.len() && t[k] == '=' {
        let g = skip_spaces(t, k + 1);
        if g < t.len() && (t[g] == '(' || t[g] == '{') {
            match group_end(t, g + 1, 1, false) {
                Some(ge) => test_expected(t, Some(t.subrange(g, ge)), ge),
                None => Err(SyntaxErrorKind::MalformedPair),
            }
        } else {
            test_expected(t, None, g)
        }
    } else {
        Err(SyntaxErrorKind::MalformedPair)
    }
}

/// The directive that an annotation's text denotes.
#[verifier::opaque]
pub open spec fn parse_directive(t: Seq<char>) -> Result<DirectiveView, SyntaxErrorKind> {
    let i = skip_spaces(t, 0);
    if i < t.len() && t[i] == '"' {
        match string_body(t, i + 1) {
            Some((s, j)) => finish(t, DirectiveView::Template(s), j),
            None => Err(SyntaxErrorKind::ExpectedString),
        }
    } else {
        let e = ident_end(t, i);
        let kw = t.subrange(i, e);
        if kw == "ignore"@ {
            finish(t, DirectiveView::Ignore, e)
        } else if kw == "rename"@ {
            match pair_value(t, e) {
                Ok((s, j)) => finish(t, DirectiveView::Rename(s), j),
                Err(k) => Err(k),
            }
        } else if kw == "with"@ {
            match pair_value(t, e) {
                Ok((s, j)) => finish(t, DirectiveView::Custom(s), j),
                Err(k) => Err(k),
            }
        } else if kw == "test"@ {
            test_directive(t, e)
        } else {
            Err(SyntaxErrorKind::UnknownKeyword)
        }
    }
}

fn same_text(a: &str, b: &str) -> (r: bool)
    ensures
        r == (a@ == b@),
{
    String::from_str(a) == String::from_str(b)
}

fn string_value_exec(t: &str, n: usize, i: usize) -> (r: Result<(String, usize), SyntaxErrorKind>)
    requires
        n == t@.len(),
        i <= n,
    ensures
        match string_value(t@, i as int) {
            Ok((s, j)) => r matches Ok((rs, rj)) && rs@ == s && rj == j && j <= n,
            Err(k) => r == Err::<(String, usize), SyntaxErrorKind>(k),
        },
{
    if i < n && t.get_char(i) == '"' {
        match string_body_exec(t, n, i + 1) {
            Some(p) => Ok(p),
            None => Err(SyntaxErrorKind::ExpectedString),
        }
    } else {
        Err(SyntaxErrorKind::ExpectedString)
    }
}

fn finish_exec(t: &str, n: usize, d: Directive, j: usize) -> (r: Result<Directive, SyntaxErrorKind>)
    requires
        n == t@.len(),
        j <= n,
    ensures
        match finish(t@, d@, j as int) {
            Ok(dv) => r matches Ok(rd) && rd@ == dv,
            Err(k) => r == Err::<Directive, SyntaxErrorKind>(k),
        },
{
    if skip_spaces_exec(t, n, j) == n {
        Ok(d)
    } else {
        Err(SyntaxErrorKind::MalformedPair)
    }
}

fn pair_value_exec(t: &str, n: usize, e: usize) -> (r: Result<(String, usize), SyntaxErrorKind>)
    requires
        n == t@.len(),
        e <= n,
    ensures
        match pair_value(t@, e as int) {
            Ok((s, j)) => r matches Ok((rs, rj)) && rs@ == s && rj == j && j <= n,
            Err(k) => r == Err::<(String, usize), SyntaxErrorKind>(k),
        },
{
    let k = skip_spaces_exec(t, n, e);
    if k < n && t.get_char(k) == '=' {
        let v = skip_spaces_exec(t, n, k + 1);
        string_value_exec(t, n, v)
    } else {
        Err(SyntaxErrorKind::MalformedPair)
    }
}

fn test_expected_exec(t: &str, n: usize, args: Option<String>, p: usize) -> (r: Result<Directive, SyntaxErrorKind>)
    requires
        n == t@.len(),
        p <= n,
    ensures
        match test_expected(t@, opt_view(args), p as int) {
            Ok(dv) => r matches Ok(rd) && rd@ == dv,
            Err(k) => r == Err::<Directive, SyntaxErrorKind>(k),
        },
{
    let a = skip_spaces_exec(t, n, p);
    if a < n && a + 1 < n && t.get_char(a) == '=' && t.get_char(a + 1) == '>' {
        let v = skip_spaces_exec(t, n, a + 2);
        match string_value_exec(t, n, v) {
            Ok((s, j)) => finish_exec(t, n, Directive::Test(args, s), j),
            Err(k) => Err(k),
        }
    } else {
        Err(SyntaxErrorKind::MissingArrow)
    }
}

fn test_directive_exec(t: &str, n: usize, e: usize) -> (r: Result<Directive, SyntaxErrorKind>)
    requires
        n == t@.len(),
        e <= n,
    ensures
        match test_directive(t@, e as int) {
            Ok(dv) => r matches Ok(rd) && rd@ == dv,
            Err(k) => r == Err::<Directive, SyntaxErrorKind>(k),
        },
{
    let k = skip_spaces_exec(t, n, e);
    if k < n && t.get_char(k) == '=' {
        let g = skip_spaces_exec(t, n, k + 1);
        if g < n && (t.get_char(g) == '(' || t.get_char(g) == '{') {
            match group_end_exec(t, n, g + 1) {
                Some(ge) => {
                    let args = String::from_str(t.substring_char(g, ge));
                    test_expected_exec(t, n, Some(args), ge)
                },
                None => Err(SyntaxErrorKind::MalformedPair),
            }
        } else {
            test_expected_exec(t, n, None, g)
        }
    } else {
        Err(SyntaxErrorKind::MalformedPair)
    }
}

/// Parses the text of one annotation.
pub fn parse_directive_text(t: &str) -> (r: Result<Directive, SyntaxErrorKind>)
    ensures
        match parse_directive(t@) {
            Ok(dv) => r matches Ok(rd) && rd@ == dv,
            Err(k) => r == Err::<Directive, SyntaxErrorKind>(k),
        },
{
    reveal(parse_directive);
    let n = t.unicode_len();
    let i = skip_spaces_exec(t, n, 0);
    if i < n && t.get_char(i) == '"' {
        match string_body_exec(t, n, i + 1) {
            Some((s, j)) => finish_exec(t, n, Directive::Template(s), j),
            None => Err(SyntaxErrorKind::ExpectedString),
        }
    } else {
        let e = ident_end_exec(t, n, i);
        let kw = t.substring_char(i, e);
        if same_text(kw, "ignore") {
            finish_exec(t, n, Directive::Ignore, e)
        } else if same_text(kw, "rename") {
            match pair_value_exec(t, n, e) {
                Ok((s, j)) => finish_exec(t, n, Directive::Rename(s), j),
                Err(k) => Err(k),
            }
        } else if same_text(kw, "with") {
            match pair_value_exec(t, n, e) {
                Ok((s, j)) => finish_exec(t, n, Directive::Custom(s), j),
                Err(k) => Err(k),
            }
        } else if same_text(kw, "test") {
            test_directive_exec(t, n, e)
        } else {
            Err(SyntaxErrorKind::UnknownKeyword)
        }
    }
}


// ---------------------------------------------------------------------------
// Loader

/// A variant-level annotation: any directive but `ignore`.
pub open spec fn variant_directive(t: Seq<char>) -> Result<DirectiveView, SyntaxErrorKind> {
    match parse_directive(t) {
        Ok(DirectiveView::Ignore) => Err(SyntaxErrorKind::Misplaced),
        other => other,
    }
}

/// The directives of a variant's annotations, or the first one refused.
pub open spec fn load_directives(ts: Seq<Seq<char>>) -> Result<Seq<DirectiveView>, (Seq<char>, SyntaxErrorKind)>
    decreases ts.len(),
{
    if ts.len() == 0 {
        Ok(Seq::empty())
    } else {
        match load_directives(ts.drop_last()) {
            Ok(ds) => match variant_directive(ts.last()) {
                Ok(d) => Ok(ds.push(d)),
                Err(k) => Err((ts.last(), k)),
            },
            Err(e) => Err(e),
        }
    }
}

/// Whether a field's annotations mark it ignored; each must be `ignore`.
pub open spec fn load_field_marks(ts: Seq<Seq<char>>) -> Result<bool, (Seq<char>, SyntaxErrorKind)>
    decreases ts.len(),
{
    if ts.len() == 0 {
        Ok(false)
    } else {
        match load_field_marks(ts.drop_last()) {
            Ok(_) => match parse_directive(ts.last()) {
                Ok(DirectiveView::Ignore) => Ok(true),
                Ok(_) => Err((ts.last(), SyntaxErrorKind::Misplaced)),
                Err(k) => Err((ts.last(), k)),
            },
            Err(e) => Err(e),
        }
    }
}

pub open spec fn load_fields(fs: Seq<AnnotatedFieldView>) -> Result<Seq<FieldView>, (Seq<char>, SyntaxErrorKind)>
    decreases fs.len(),
{
    if fs.len() == 0 {
        Ok(Seq::empty())
    } else {
        match load_fields(fs.drop_last()) {
            Ok(done) => match load_field_marks(fs.last().annotations) {
                Ok(ignore) => Ok(done.push(FieldView { label: fs.last().label, ignore })),
                Err(e) => Err(e),
            },
            Err(e) => Err(e),
        }
    }
}

/// A variant with its annotations parsed; the variant's own annotations are
/// read before those of its fields.
pub open spec fn load_variant(v: AnnotatedVariantView) -> Result<VariantView, SyntaxErrorView> {
    match load_directives(v.annotations) {
        Err((d, k)) => Err(SyntaxErrorView { variant: v.name, directive: d, kind: k }),
        Ok(ds) => match load_fields(v.fields) {
            Err((d, k)) => Err(SyntaxErrorView { variant: v.name, directive: d, kind: k }),
            Ok(fs) => Ok(VariantView { name: v.name, shape: v.shape, fields: fs, directives: ds }),
        },
    }
}

/// Every variant loaded, in declaration order, or the first refusal.
pub open spec fn load_schema(vs: Seq<AnnotatedVariantView>) -> Result<Seq<VariantView>, SyntaxErrorView>
    decreases vs.len(),
{
    if vs.len() == 0 {
        Ok(Seq::empty())
    } else {
        match load_schema(vs.drop_last()) {
            Ok(done) => match load_variant(vs.last()) {
                Ok(v) => Ok(done.push(v)),
                Err(e) => Err(e),
            },
            Err(e) => Err(e),
        }
    }
}

proof fn lemma_directives_prefix_err(ts: Seq<Seq<char>>, i: int)
    requires
        0 <= i <= ts.len(),
        load_directives(ts.subrange(0, i)) is Err,
    ensures
        load_directives(ts) == load_directives(ts.subrange(0, i)),
    decreases ts.len() - i,
{
    if i < ts.len() {
        assert(ts.drop_last().subrange(0, i) =~= ts.subrange(0, i));
        lemma_directives_prefix_err(ts.drop_last(), i);
    } else {
        assert(ts.subrange(0, i) =~= ts);
    }
}

proof fn lemma_marks_prefix_err(ts: Seq<Seq<char>>, i: int)
    requires
        0 <= i <= ts.len(),
        load_field_marks(ts.subrange(0, i)) is Err,
    ensures
        load_field_marks(ts) == load_field_marks(ts.subrange(0, i)),
    decreases ts.len() - i,
{
    if i < ts.len() {
        assert(ts.drop_last().subrange(0, i) =~= ts.subrange(0, i));
        lemma_marks_prefix_err(ts.drop_last(), i);
    } else {
        assert(ts.subrange(0, i) =~= ts);
    }
}

proof fn lemma_fields_prefix_err(fs: Seq<AnnotatedFieldView>, i: int)
    requires
        0 <= i <= fs.len(),
        load_fields(fs.subrange(0, i)) is Err,
    ensures
        load_fields(fs) == load_fields(fs.subrange(0, i)),
    decreases fs.len() - i,
{
    if i < fs.len() {
        assert(fs.drop_last().subrange(0, i) =~= fs.subrange(0, i));
        lemma_fields_prefix_err(fs.drop_last(), i);
    } else {
        assert(fs.subrange(0, i) =~= fs);
    }
}

proof fn lemma_schema_prefix_err(vs: Seq<AnnotatedVariantView>, i: int)
    requires
        0 <= i <= vs.len(),
        load_schema(vs.subrange(0, i)) is Err,
    ensures
        load_schema(vs) == load_schema(vs.subrange(0, i)),
    decreases vs.len() - i,
{
    if i < vs.len() {
        assert(vs.drop_last().subrange(0, i) =~= vs.subrange(0, i));
        lemma_schema_prefix_err(vs.drop_last(), i);
    } else {
        assert(vs.subrange(0, i) =~= vs);
    }
}

fn load_directives_exec(ts: &Vec<String>) -> (r: Result<Vec<Directive>, (String, SyntaxErrorKind)>)
    ensures
        match load_directives(crate::text::views(ts@)) {
            Ok(ds) => r matches Ok(rd) && directive_views(rd@) == ds,
            Err((d, k)) => r matches Err((rd, rk)) && rd@ == d && rk == k,
        },
{
    let mut out: Vec<Directive> = Vec::new();
    let mut i: usize = 0;
    proof {
        assert(crate::text::views(ts@.subrange(0, 0)) =~= Seq::<Seq<char>>::empty());
        assert(directive_views(out@) =~= Seq::<DirectiveView>::empty());
    }
    while i < ts.len()
        invariant
            i <= ts.len(),
            load_directives(crate::text::views(ts@.subrange(0, i as int))) == Ok::<Seq<DirectiveView>, (Seq<char>, SyntaxErrorKind)>(directive_views(out@)),
        decreases ts.len() - i,
    {
        proof {
            let pre = crate::text::views(ts@.subrange(0, i + 1));
            assert(pre.drop_last() =~= crate::text::views(ts@.subrange(0, i as int)));
            assert(pre.last() == ts@[i as int]@);
        }
        let ghost before = out@;
        match parse_directive_text(ts[i].as_str()) {
            Ok(Directive::Ignore) => {
                proof {
                    lemma_directives_prefix_err(crate::text::views(ts@), i + 1);
                    assert(crate::text::views(ts@).subrange(0, i + 1) =~= crate::text::views(ts@.subrange(0, i + 1)));
                }
                return Err((ts[i].clone(), SyntaxErrorKind::Misplaced));
            },
            Ok(d) => {
                out.push(d);
                proof {
                    assert(out@.drop_last() =~= before);
                    assert(directive_views(out@) =~= directive_views(before).push(out@.last()@));
                }
            },
            Err(k) => {
                proof {
                    lemma_directives_prefix_err(crate::text::views(ts@), i + 1);
                    assert(crate::text::views(ts@).subrange(0, i + 1) =~= crate::text::views(ts@.subrange(0, i + 1)));
                }
                return Err((ts[i].clone(), k));
            },
        }
        i += 1;
    }
    proof {
        assert(ts@.subrange(0, ts.len() as int) =~= ts@);
    }
    Ok(out)
}

fn load_field_marks_exec(ts: &Vec<String>) -> (r: Result<bool, (String, SyntaxErrorKind)>)
    ensures
        match load_field_marks(crate::text::views(ts@)) {
            Ok(b) => r == Ok::<bool, (String, SyntaxErrorKind)>(b),
            Err((d, k)) => r matches Err((rd, rk)) && rd@ == d && rk == k,
        },
{
    let mut i: usize = 0;
    proof {
        assert(crate::text::views(ts@.subrange(0, 0)) =~= Seq::<Seq<char>>::empty());
    }
    while i < ts.len()
        invariant
            i <= ts.len(),
            load_field_marks(crate::text::views(ts@.subrange(0, i as int))) == Ok::<bool, (Seq<char>, SyntaxErrorKind)>(i > 0),
        decreases ts.len() - i,
    {
        proof {
            let pre = crate::text::views(ts@.subrange(0, i + 1));
            assert(pre.drop_last() =~= crate::text::views(ts@.subrange(0, i as int)));
            assert(pre.last() == ts@[i as int]@);
        }
        match parse_directive_text(ts[i].as_str()) {
            Ok(Directive::Ignore) => {},
            Ok(_) => {
                proof {
                    lemma_marks_prefix_err(crate::text::views(ts@), i + 1);
                    assert(crate::text::views(ts@).subrange(0, i + 1) =~= crate::text::views(ts@.subrange(0, i + 1)));
                }
                return Err((ts[i].clone(), SyntaxErrorKind::Misplaced));
            },
            Err(k) => {
                proof {
                    lemma_marks_prefix_err(crate::text::views(ts@), i + 1);
                    assert(crate::text::views(ts@).subrange(0, i + 1) =~= crate::text::views(ts@.subrange(0, i + 1)));
                }
                return Err((ts[i].clone(), k));
            },
        }
        i += 1;
    }
    proof {
        assert(ts@.subrange(0, ts.len() as int) =~= ts@);
    }
    Ok(i > 0)
}

fn clone_label(l: &Option<String>) -> (r: Option<String>)
    ensures
        opt_view(r) == opt_view(*l),
{
    match l {
        Some(s) => Some(s.clone()),
        None => None,
    }
}

/// Parses the annotations of a variant and of its fields.
pub fn load_variant_exec(v: &AnnotatedVariant) -> (r: Result<Variant, SyntaxError>)
    ensures
        match load_variant(v@) {
            Ok(vv) => r matches Ok(rv) && rv@ == vv,
            Err(e) => r matches Err(re) && re@ == e,
        },
{
    let directives = match load_directives_exec(&v.annotations) {
        Ok(ds) => ds,
        Err((d, k)) => {
            return Err(SyntaxError { variant: v.name.clone(), directive: d, kind: k });
        },
    };
    let mut fields: Vec<Field> = Vec::new();
    let mut i: usize = 0;
    proof {
        assert(annotated_field_views(v.fields@.subrange(0, 0)) =~= Seq::<AnnotatedFieldView>::empty());
        assert(field_views(fields@) =~= Seq::<FieldView>::empty());
    }
    while i < v.fields.len()
        invariant
            i <= v.fields.len(),
            load_directives(v@.annotations) == Ok::<Seq<DirectiveView>, (Seq<char>, SyntaxErrorKind)>(directive_views(directives@)),
            load_fields(annotated_field_views(v.fields@.subrange(0, i as int))) == Ok::<Seq<FieldView>, (Seq<char>, SyntaxErrorKind)>(field_views(fields@)),
        decreases v.fields.len() - i,
    {
        proof {
            let pre = annotated_field_views(v.fields@.subrange(0, i + 1));
            assert(pre.drop_last() =~= annotated_field_views(v.fields@.subrange(0, i as int)));
            assert(pre.last() == v.fields@[i as int]@);
        }
        let ghost before = fields@;
        match load_field_marks_exec(&v.fields[i].annotations) {
            Ok(ignore) => {
                fields.push(Field { label: clone_label(&v.fields[i].label), ignore });
                proof {
                    assert(fields@.drop_last() =~= before);
                    assert(field_views(fields@) =~= field_views(before).push(fields@.last()@));
                }
            },
            Err((d, k)) => {
                proof {
                    let pre = annotated_field_views(v.fields@.subrange(0, i + 1));
                    assert(pre.drop_last() =~= annotated_field_views(v.fields@.subrange(0, i as int)));
                    assert(load_field_marks(pre.last().annotations) == Err::<bool, (Seq<char>, SyntaxErrorKind)>((d@, k)));
                    assert(load_fields(pre) == Err::<Seq<FieldView>, (Seq<char>, SyntaxErrorKind)>((d@, k)));
                    lemma_fields_prefix_err(annotated_field_views(v.fields@), i + 1);
                    assert(annotated_field_views(v.fields@).subrange(0, i + 1) =~= annotated_field_views(v.fields@.subrange(0, i + 1)));
                }
                return Err(SyntaxError { variant: v.name.clone(), directive: d, kind: k });
            },
        }
        i += 1;
    }
    proof {
        assert(v.fields@.subrange(0, v.fields.len() as int) =~= v.fields@);
    }
    Ok(Variant { name: v.name.clone(), shape: v.shape, fields, directives })
}

/// Parses every variant of a schema, keeping their order; stops at the first
/// refused annotation.
pub fn load_schema_exec(vs: &Vec<AnnotatedVariant>) -> (r: Result<Vec<Variant>, SyntaxError>)
    ensures
        match load_schema(annotated_views(vs@)) {
            Ok(vv) => r matches Ok(rv) && variant_views(rv@) == vv,
            Err(e) => r matches Err(re) && re@ == e,
        },
{
    let mut out: Vec<Variant> = Vec::new();
    let mut i: usize = 0;
    proof {
        assert(annotated_views(vs@.subrange(0, 0)) =~= Seq::<AnnotatedVariantView>::empty());
        assert(variant_views(out@) =~= Seq::<VariantView>::empty());
    }
    while i < vs.len()
        invariant
            i <= vs.len(),
            load_schema(annotated_views(vs@.subrange(0, i as int))) == Ok::<Seq<VariantView>, SyntaxErrorView>(variant_views(out@)),
        decreases vs.len() - i,
    {
        proof {
            let pre = annotated_views(vs@.subrange(0, i + 1));
            assert(pre.drop_last() =~= annotated_views(vs@.subrange(0, i as int)));
            assert(pre.last() == vs@[i as int]@);
        }
        let ghost before = out@;
        match load_variant_exec(&vs[i]) {
            Ok(v) => {
                out.push(v);
                proof {
                    assert(out@.drop_last() =~= before);
                    assert(variant_views(out@) =~= variant_views(before).push(out@.last()@));
                }
            },
            Err(e) => {
                proof {
                    lemma_schema_prefix_err(annotated_views(vs@), i + 1);
                    assert(annotated_views(vs@).subrange(0, i + 1) =~= annotated_views(vs@.subrange(0, i + 1)));
                }
                return Err(e);
            },
        }
        i += 1;
    }
    proof {
        assert(vs@.subrange(0, vs.len() as int) =~= vs@);
    }
    Ok(out)
}


// ---------------------------------------------------------------------------
// Printer

/// A character as it stands inside a string literal.
pub open spec fn escape_char(c: char) -> Seq<char> {
    if c == '"' || c == '\\' {
        seq!['\\', c]
    } else {
        seq![c]
    }
}

/// `s` with each double quote and backslash preceded by a backslash.
pub open spec fn escape(s: Seq<char>) -> Seq<char>
    decreases s.len(),
{
    if s.len() == 0 {
        Seq::empty()
    } else {
        escape_char(s[0]) + escape(s.drop_first())
    }
}

/// `s` as a string literal.
pub open spec fn quoted(s: Seq<char>) -> Seq<char> {
    seq!['"'] + escape(s) + seq!['"']
}

/// The text of a directive.
pub open spec fn print_directive(d: DirectiveView) -> Seq<char> {
    match d {
        DirectiveView::Template(p) => quoted(p),
        DirectiveView::Custom(f) => seq!['w', 'i', 't', 'h', ' ', '=', ' '] + quoted(f),
        DirectiveView::Rename(n) => seq!['r', 'e', 'n', 'a', 'm', 'e', ' ', '=', ' '] + quoted(n),
        DirectiveView::Test(None, e) => seq!['t', 'e', 's', 't', ' ', '=', ' ', '=', '>', ' '] + quoted(e),
        DirectiveView::Test(Some(a), e) => seq!['t', 'e', 's', 't', ' ', '=', ' '] + a + seq![' ', '=', '>', ' '] + quoted(e),
        DirectiveView::Ignore => seq!['i', 'g', 'n', 'o', 'r', 'e'],
    }
}

pub open spec fn annotate_field(f: FieldView) -> AnnotatedFieldView {
    AnnotatedFieldView {
        label: f.label,
        annotations: if f.ignore {
            seq![seq!['i', 'g', 'n', 'o', 'r', 'e']]
        } else {
            Seq::empty()
        },
    }
}

/// A variant written back as annotations.
pub open spec fn annotate_variant(v: VariantView) -> AnnotatedVariantView {
    AnnotatedVariantView {
        name: v.name,
        shape: v.shape,
        fields: v.fields.map_values(|f: FieldView| annotate_field(f)),
        annotations: v.directives.map_values(|d: DirectiveView| print_directive(d)),
    }
}

/// A bracketed argument group that the grammar reads back whole.
pub open spec fn args_group(a: Seq<char>) -> bool {
    a.len() >= 1 && (a[0] == '(' || a[0] == '{') && group_end(a, 1, 1, false) == Some(a.len() as int)
}

/// A variant-level directive whose text reads back as itself.
pub open spec fn printable(d: DirectiveView) -> bool {
    match d {
        DirectiveView::Ignore => false,
        DirectiveView::Test(Some(a), _) => args_group(a),
        _ => true,
    }
}

pub open spec fn printable_variant(v: VariantView) -> bool {
    forall|k: int| 0 <= k < v.directives.len() ==> printable(#[trigger] v.directives[k])
}

proof fn lemma_escape_push(s: Seq<char>, c: char)
    ensures
        escape(s.push(c)) == escape(s) + escape_char(c),
    decreases s.len(),
{
    if s.len() == 0 {
        assert(s.push(c).drop_first() =~= Seq::<char>::empty());
        assert(s.push(c)[0] == c);
        assert(escape(Seq::<char>::empty()) == Seq::<char>::empty());
        assert(escape(s) == Seq::<char>::empty());
        assert(escape(s.push(c)) =~= escape_char(c));
    } else {
        assert(s.push(c).drop_first() =~= s.drop_first().push(c));
        lemma_escape_push(s.drop_first(), c);
        assert(escape(s.push(c)) =~= escape(s) + escape_char(c));
    }
}

/// Appends `s` to `out` with its double quotes and backslashes escaped.
pub fn push_escaped(out: &mut String, s: &str)
    ensures
        final(out)@ == old(out)@ + escape(s@),
{
    let ghost start = out@;
    let n = s.unicode_len();
    let mut i: usize = 0;
    assert(s@.subrange(0, 0) =~= Seq::<char>::empty());
    assert(start + escape(Seq::<char>::empty()) =~= start);
    while i < n
        invariant
            n == s@.len(),
            i <= n,
            out@ == start + escape(s@.subrange(0, i as int)),
        decreases n - i,
    {
        let c = s.get_char(i);
        if c == '"' || c == '\\' {
            out.append("\\");
        }
        out.append(s.substring_char(i, i + 1));
        proof {
            reveal_strlit("\\");
            assert("\\"@ =~= seq!['\\']);
            let pre = s@.subrange(0, i + 1);
            assert(pre =~= s@.subrange(0, i as int).push(c));
            lemma_escape_push(s@.subrange(0, i as int), c);
            assert(out@ =~= start + escape(pre));
        }
        i += 1;
    }
    assert(s@.subrange(0, n as int) =~= s@);
}

fn push_quoted(out: &mut String, s: &str)
    ensures
        final(out)@ == old(out)@ + quoted(s@),
{
    proof {
        reveal_strlit("\"");
    }
    out.append("\"");
    push_escaped(out, s);
    out.append("\"");
    assert("\""@ =~= seq!['"']);
    assert(out@ =~= old(out)@ + quoted(s@));
}

/// The text of a directive, which the grammar reads back as the directive.
pub fn directive_text(d: &Directive) -> (r: String)
    ensures
        r@ == print_directive(d@),
{
    proof {
        reveal_strlit("with = ");
        reveal_strlit("rename = ");
        reveal_strlit("test = => ");
        reveal_strlit("test = ");
        reveal_strlit(" => ");
        reveal_strlit("ignore");
    }
    let mut r = String::new();
    match d {
        Directive::Template(p) => {
            push_quoted(&mut r, p.as_str());
        },
        Directive::Custom(f) => {
            r.append("with = ");
            push_quoted(&mut r, f.as_str());
        },
        Directive::Rename(n) => {
            r.append("rename = ");
            push_quoted(&mut r, n.as_str());
        },
        Directive::Test(None, e) => {
            r.append("test = => ");
            push_quoted(&mut r, e.as_str());
        },
        Directive::Test(Some(a), e) => {
            r.append("test = ");
            r.append(a.as_str());
            r.append(" => ");
            push_quoted(&mut r, e.as_str());
        },
        Directive::Ignore => {
            r.append("ignore");
        },
    }
    assert(r@ =~= print_directive(d@));
    r
}

/// A variant written back as annotations.
pub fn annotated(v: &Variant) -> (r: AnnotatedVariant)
    ensures
        r@ == annotate_variant(v@),
{
    let mut fields: Vec<AnnotatedField> = Vec::new();
    let mut i: usize = 0;
    while i < v.fields.len()
        invariant
            i <= v.fields@.len(),
            annotated_field_views(fields@) =~= field_views(v.fields@).subrange(0, i as int).map_values(|f: FieldView| annotate_field(f)),
        decreases v.fields@.len() - i,
    {
        let annotations = if v.fields[i].ignore {
            proof {
                reveal_strlit("ignore");
            }
            vec![String::from_str("ignore")]
        } else {
            Vec::new()
        };
        let f = AnnotatedField { label: clone_label(&v.fields[i].label), annotations };
        proof {
            assert(f@ == annotate_field(v.fields@[i as int]@)) by {
                reveal_strlit("ignore");
                assert("ignore"@ =~= seq!['i', 'g', 'n', 'o', 'r', 'e']);
                assert(f@.annotations =~= annotate_field(v.fields@[i as int]@).annotations);
            }
        }
        let ghost before = fields@;
        fields.push(f);
        proof {
            assert(annotated_field_views(fields@) =~= annotated_field_views(before).push(f@));
            assert(field_views(v.fields@).subrange(0, i + 1).map_values(|f: FieldView| annotate_field(f)) =~= field_views(v.fields@).subrange(0, i as int).map_values(|f: FieldView| annotate_field(f)).push(annotate_field(v.fields@[i as int]@)));
        }
        i += 1;
    }
    let mut annotations: Vec<String> = Vec::new();
    let mut j: usize = 0;
    while j < v.directives.len()
        invariant
            j <= v.directives@.len(),
            crate::text::views(annotations@) =~= directive_views(v.directives@).subrange(0, j as int).map_values(|d: DirectiveView| print_directive(d)),
        decreases v.directives@.len() - j,
    {
        let t = directive_text(&v.directives[j]);
        let ghost before = annotations@;
        annotations.push(t);
        proof {
            assert(crate::text::views(annotations@) =~= crate::text::views(before).push(t@));
            assert(directive_views(v.directives@).subrange(0, j + 1).map_values(|d: DirectiveView| print_directive(d)) =~= directive_views(v.directives@).subrange(0, j as int).map_values(|d: DirectiveView| print_directive(d)).push(print_directive(v.directives@[j as int]@)));
        }
        j += 1;
    }
    proof {
        assert(field_views(v.fields@).subrange(0, v.fields@.len() as int) =~= field_views(v.fields@));
        assert(directive_views(v.directives@).subrange(0, v.directives@.len() as int) =~= directive_views(v.directives@));
    }
    AnnotatedVariant { name: v.name.clone(), shape: v.shape, fields, annotations }
}


// ---------------------------------------------------------------------------
// Reading printed text back

proof fn lemma_string_body_escape(p: Seq<char>, s: Seq<char>, rest: Seq<char>)
    ensures
        string_body(p + escape(s) + seq!['"'] + rest, p.len() as int)
            == Some((s, (p.len() + escape(s).len() + 1) as int)),
    decreases s.len(),
{
    let t = p + escape(s) + seq!['"'] + rest;
    let i = p.len() as int;
    if s.len() == 0 {
        assert(escape(s) == Seq::<char>::empty());
        assert(t[i] == '"');
        assert(s =~= Seq::<char>::empty());
    } else {
        let c = s[0];
        let tail = s.drop_first();
        if c == '"' || c == '\\' {
            let p2 = p + seq!['\\', c];
            assert(t =~= p2 + escape(tail) + seq!['"'] + rest);
            lemma_string_body_escape(p2, tail, rest);
            assert(t[i] == '\\');
            assert(t[i + 1] == c);
            assert(seq![c] + tail =~= s);
        } else {
            let p2 = p + seq![c];
            assert(t =~= p2 + escape(tail) + seq!['"'] + rest);
            lemma_string_body_escape(p2, tail, rest);
            assert(t[i] == c);
            assert(seq![c] + tail =~= s);
        }
    }
}

proof fn lemma_group_end_frame(a: Seq<char>, i: int, depth: nat, in_string: bool, p: Seq<char>, rest: Seq<char>)
    requires
        group_end(a, i, depth, in_string) is Some,
    ensures
        group_end(p + a + rest, p.len() + i, depth, in_string) == Some(p.len() + group_end(a, i, depth, in_string)->Some_0),
    decreases a.len() - i,
{
    let t = p + a + rest;
    let j = p.len() + i;
    assert(t[j] == a[i]);
    if in_string {
        if a[i] == '\\' {
            assert(t[j + 1] == a[i + 1]);
            lemma_group_end_frame(a, i + 2, depth, true, p, rest);
        } else if a[i] == '"' {
            lemma_group_end_frame(a, i + 1, depth, false, p, rest);
        } else {
            lemma_group_end_frame(a, i + 1, depth, true, p, rest);
        }
    } else if a[i] == '"' {
        lemma_group_end_frame(a, i + 1, depth, true, p, rest);
    } else if is_open(a[i]) {
        lemma_group_end_frame(a, i + 1, depth + 1, false, p, rest);
    } else if is_close(a[i]) {
        if depth > 1 {
            lemma_group_end_frame(a, i + 1, (depth - 1) as nat, false, p, rest);
        }
    } else {
        lemma_group_end_frame(a, i + 1, depth, false, p, rest);
    }
}

proof fn lemma_ident_run(t: Seq<char>, i: int, e: int)
    requires
        0 <= i <= e <= t.len(),
        forall|k: int| i <= k < e ==> is_ident_char(#[trigger] t[k]),
        e == t.len() || !is_ident_char(t[e]),
    ensures
        ident_end(t, i) == e,
    decreases e - i,
{
    if i < e {
        lemma_ident_run(t, i + 1, e);
    }
}

proof fn lemma_keywords_differ()
    ensures
        "ignore"@ == seq!['i', 'g', 'n', 'o', 'r', 'e'],
        "rename"@ == seq!['r', 'e', 'n', 'a', 'm', 'e'],
        "with"@ == seq!['w', 'i', 't', 'h'],
        "test"@ == seq!['t', 'e', 's', 't'],
{
    reveal_strlit("ignore");
    reveal_strlit("rename");
    reveal_strlit("with");
    reveal_strlit("test");
    assert("ignore"@ =~= seq!['i', 'g', 'n', 'o', 'r', 'e']);
    assert("rename"@ =~= seq!['r', 'e', 'n', 'a', 'm', 'e']);
    assert("with"@ =~= seq!['w', 'i', 't', 'h']);
    assert("test"@ =~= seq!['t', 'e', 's', 't']);
}

/// A keyword `kw` at the start of `t`, followed by a space: `t` reads it as
/// the leading identifier.
proof fn lemma_leading_keyword(t: Seq<char>, kw: Seq<char>)
    requires
        kw.len() >= 1,
        kw.len() < t.len(),
        t.subrange(0, kw.len() as int) == kw,
        forall|k: int| 0 <= k < kw.len() ==> is_ident_char(#[trigger] kw[k]) && kw[k] != '"' && !is_space(kw[k]),
        t[kw.len() as int] == ' ',
    ensures
        skip_spaces(t, 0) == 0,
        t[0] != '"',
        ident_end(t, 0) == kw.len(),
        t.subrange(0, ident_end(t, 0)) == kw,
{
    assert(t[0] == kw[0]);
    assert forall|k: int| 0 <= k < kw.len() implies is_ident_char(#[trigger] t[k]) by {
        assert(t[k] == t.subrange(0, kw.len() as int)[k]);
    }
    lemma_ident_run(t, 0, kw.len() as int);
}

proof fn lemma_read_quoted(p: Seq<char>, s: Seq<char>)
    ensures
        string_value(p + quoted(s), p.len() as int) == Ok::<(Seq<char>, int), SyntaxErrorKind>((s, (p + quoted(s)).len() as int)),
        skip_spaces(p + quoted(s), (p + quoted(s)).len() as int) == (p + quoted(s)).len(),
{
    let t = p + quoted(s);
    assert(t =~= (p + seq!['"']) + escape(s) + seq!['"'] + Seq::<char>::empty());
    lemma_string_body_escape(p + seq!['"'], s, Seq::<char>::empty());
    assert(t[p.len() as int] == '"');
}

proof fn lemma_template_reads_back(s: Seq<char>)
    ensures
        parse_directive(print_directive(DirectiveView::Template(s))) == Ok::<DirectiveView, SyntaxErrorKind>(DirectiveView::Template(s)),
{
    reveal(parse_directive);
    let t = print_directive(DirectiveView::Template(s));
    assert(t =~= seq!['"'] + escape(s) + seq!['"'] + Seq::<char>::empty());
    lemma_string_body_escape(seq!['"'], s, Seq::<char>::empty());
    assert(t[0] == '"');
}

proof fn lemma_custom_reads_back(f: Seq<char>)
    ensures
        parse_directive(print_directive(DirectiveView::Custom(f))) == Ok::<DirectiveView, SyntaxErrorKind>(DirectiveView::Custom(f)),
{
    reveal(parse_directive);
    lemma_keywords_differ();
    let t = print_directive(DirectiveView::Custom(f));
    let head = seq!['w', 'i', 't', 'h', ' ', '=', ' '];
    assert(t.subrange(0, 4) =~= seq!['w', 'i', 't', 'h']);
    lemma_leading_keyword(t, seq!['w', 'i', 't', 'h']);
    assert(t[5] == '=');
    assert(skip_spaces(t, 5) == 5);
    assert(skip_spaces(t, 4) == 5);
    assert(t[7] == '"');
    assert(skip_spaces(t, 7) == 7);
    assert(skip_spaces(t, 6) == 7);
    lemma_read_quoted(head, f);
}

proof fn lemma_rename_reads_back(n: Seq<char>)
    ensures
        parse_directive(print_directive(DirectiveView::Rename(n))) == Ok::<DirectiveView, SyntaxErrorKind>(DirectiveView::Rename(n)),
{
    reveal(parse_directive);
    lemma_keywords_differ();
    let t = print_directive(DirectiveView::Rename(n));
    let head = seq!['r', 'e', 'n', 'a', 'm', 'e', ' ', '=', ' '];
    assert(t.subrange(0, 6) =~= seq!['r', 'e', 'n', 'a', 'm', 'e']);
    lemma_leading_keyword(t, seq!['r', 'e', 'n', 'a', 'm', 'e']);
    assert(t[7] == '=');
    assert(skip_spaces(t, 7) == 7);
    assert(skip_spaces(t, 6) == 7);
    assert(t[9] == '"');
    assert(skip_spaces(t, 9) == 9);
    assert(skip_spaces(t, 8) == 9);
    lemma_read_quoted(head, n);
}

proof fn lemma_bare_example_reads_back(e: Seq<char>)
    ensures
        parse_directive(print_directive(DirectiveView::Test(None, e))) == Ok::<DirectiveView, SyntaxErrorKind>(DirectiveView::Test(None, e)),
{
    reveal(parse_directive);
    lemma_keywords_differ();
    let t = print_directive(DirectiveView::Test(None, e));
    let head = seq!['t', 'e', 's', 't', ' ', '=', ' ', '=', '>', ' '];
    assert(t.subrange(0, 4) =~= seq!['t', 'e', 's', 't']);
    lemma_leading_keyword(t, seq!['t', 'e', 's', 't']);
    assert(t[5] == '=');
    assert(skip_spaces(t, 5) == 5);
    assert(skip_spaces(t, 4) == 5);
    assert(t[7] == '=');
    assert(t[8] == '>');
    assert(skip_spaces(t, 7) == 7);
    assert(skip_spaces(t, 6) == 7);
    assert(t[10] == '"');
    assert(skip_spaces(t, 10) == 10);
    assert(skip_spaces(t, 9) == 10);
    lemma_read_quoted(head, e);
}

proof fn lemma_example_reads_back(a: Seq<char>, e: Seq<char>)
    requires
        args_group(a),
    ensures
        parse_directive(print_directive(DirectiveView::Test(Some(a), e))) == Ok::<DirectiveView, SyntaxErrorKind>(DirectiveView::Test(Some(a), e)),
{
    reveal(parse_directive);
    lemma_keywords_differ();
    let t = print_directive(DirectiveView::Test(Some(a), e));
    let head = seq!['t', 'e', 's', 't', ' ', '=', ' '];
    let arrow = seq![' ', '=', '>', ' '];
    let n = a.len() as int;
    assert(t =~= head + a + (arrow + quoted(e)));
    assert(t.subrange(0, 4) =~= seq!['t', 'e', 's', 't']);
    lemma_leading_keyword(t, seq!['t', 'e', 's', 't']);
    assert(t[5] == '=');
    assert(skip_spaces(t, 5) == 5);
    assert(skip_spaces(t, 4) == 5);
    assert(t[7] == a[0]);
    assert(skip_spaces(t, 7) == 7);
    assert(skip_spaces(t, 6) == 7);
    lemma_group_end_frame(a, 1, 1, false, head, arrow + quoted(e));
    assert(group_end(t, 8, 1, false) == Some(7 + n));
    assert(t.subrange(7, 7 + n) =~= a);
    assert(t[7 + n] == ' ');
    assert(t[8 + n] == '=');
    assert(t[9 + n] == '>');
    assert(skip_spaces(t, 8 + n) == 8 + n);
    assert(skip_spaces(t, 7 + n) == 8 + n);
    assert(t[11 + n] == '"');
    assert(skip_spaces(t, 11 + n) == 11 + n);
    assert(skip_spaces(t, 10 + n) == 11 + n);
    assert(t =~= (head + a + arrow) + quoted(e));
    lemma_read_quoted(head + a + arrow, e);
}

/// Every printable directive reads back as itself.
pub proof fn lemma_print_parse(d: DirectiveView)
    requires
        printable(d),
    ensures
        parse_directive(print_directive(d)) == Ok::<DirectiveView, SyntaxErrorKind>(d),
{
    match d {
        DirectiveView::Template(s) => lemma_template_reads_back(s),
        DirectiveView::Custom(f) => lemma_custom_reads_back(f),
        DirectiveView::Rename(n) => lemma_rename_reads_back(n),
        DirectiveView::Test(None, e) => lemma_bare_example_reads_back(e),
        DirectiveView::Test(Some(a), e) => lemma_example_reads_back(a, e),
        DirectiveView::Ignore => {},
    }
}

proof fn lemma_ignore_reads_back()
    ensures
        parse_directive(seq!['i', 'g', 'n', 'o', 'r', 'e']) == Ok::<DirectiveView, SyntaxErrorKind>(DirectiveView::Ignore),
{
    reveal(parse_directive);
    lemma_keywords_differ();
    let t = seq!['i', 'g', 'n', 'o', 'r', 'e'];
    assert(skip_spaces(t, 0) == 0);
    lemma_ident_run(t, 0, 6);
    assert(t.subrange(0, 6) =~= t);
    assert(skip_spaces(t, 6) == 6);
}

proof fn lemma_directives_read_back(ds: Seq<DirectiveView>)
    requires
        forall|k: int| 0 <= k < ds.len() ==> printable(#[trigger] ds[k]),
    ensures
        load_directives(ds.map_values(|d: DirectiveView| print_directive(d))) == Ok::<Seq<DirectiveView>, (Seq<char>, SyntaxErrorKind)>(ds),
    decreases ds.len(),
{
    let ts = ds.map_values(|d: DirectiveView| print_directive(d));
    if ds.len() == 0 {
        assert(ts.len() == 0);
        assert(ds =~= Seq::<DirectiveView>::empty());
    } else {
        let pre = ds.drop_last();
        assert forall|k: int| 0 <= k < pre.len() implies printable(#[trigger] pre[k]) by {
            assert(pre[k] == ds[k]);
        }
        lemma_directives_read_back(pre);
        assert(ts.drop_last() =~= pre.map_values(|d: DirectiveView| print_directive(d)));
        assert(printable(ds[ds.len() - 1]));
        lemma_print_parse(ds.last());
        assert(ts.last() == print_directive(ds.last()));
        assert(variant_directive(ts.last()) == Ok::<DirectiveView, SyntaxErrorKind>(ds.last()));
        assert(load_directives(ts.drop_last()) == Ok::<Seq<DirectiveView>, (Seq<char>, SyntaxErrorKind)>(pre));
        assert(pre.push(ds.last()) =~= ds);
    }
}

proof fn lemma_fields_read_back(fs: Seq<FieldView>)
    ensures
        load_fields(fs.map_values(|f: FieldView| annotate_field(f))) == Ok::<Seq<FieldView>, (Seq<char>, SyntaxErrorKind)>(fs),
    decreases fs.len(),
{
    let afs = fs.map_values(|f: FieldView| annotate_field(f));
    if fs.len() == 0 {
        assert(afs.len() == 0);
        assert(fs =~= Seq::<FieldView>::empty());
    } else {
        lemma_fields_read_back(fs.drop_last());
        assert(afs.drop_last() =~= fs.drop_last().map_values(|f: FieldView| annotate_field(f)));
        let last = fs.last();
        assert(afs.last() == annotate_field(last));
        let marks = annotate_field(last).annotations;
        assert(afs.last().label == last.label);
        if last.ignore {
            lemma_ignore_reads_back();
            assert(marks.drop_last() =~= Seq::<Seq<char>>::empty());
            assert(load_field_marks(marks.drop_last()) == Ok::<bool, (Seq<char>, SyntaxErrorKind)>(false));
            assert(marks.last() == seq!['i', 'g', 'n', 'o', 'r', 'e']);
            assert(load_field_marks(marks) == Ok::<bool, (Seq<char>, SyntaxErrorKind)>(true));
        } else {
            assert(marks.len() == 0);
            assert(load_field_marks(marks) == Ok::<bool, (Seq<char>, SyntaxErrorKind)>(false));
        }
        assert(load_field_marks(afs.last().annotations) == Ok::<bool, (Seq<char>, SyntaxErrorKind)>(last.ignore));
        assert(load_fields(afs.drop_last()) == Ok::<Seq<FieldView>, (Seq<char>, SyntaxErrorKind)>(fs.drop_last()));
        assert(fs.drop_last().push(FieldView { label: last.label, ignore: last.ignore }) =~= fs);
    }
}

/// A variant written back as annotations loads as the same variant.
pub proof fn lemma_variant_read_back(v: VariantView)
    requires
        printable_variant(v),
    ensures
        load_variant(annotate_variant(v)) == Ok::<VariantView, SyntaxErrorView>(v),
{
    lemma_directives_read_back(v.directives);
    lemma_fields_read_back(v.fields);
}

/// A schema written back as annotations loads as the same schema, with its
/// variants in the same order.
pub proof fn lemma_schema_read_back(vs: Seq<VariantView>)
    requires
        forall|k: int| 0 <= k < vs.len() ==> printable_variant(#[trigger] vs[k]),
    ensures
        load_schema(vs.map_values(|v: VariantView| annotate_variant(v))) == Ok::<Seq<VariantView>, SyntaxErrorView>(vs),
    decreases vs.len(),
{
    let avs = vs.map_values(|v: VariantView| annotate_variant(v));
    if vs.len() == 0 {
        assert(avs.len() == 0);
        assert(vs =~= Seq::<VariantView>::empty());
    } else {
        let pre = vs.drop_last();
        assert forall|k: int| 0 <= k < pre.len() implies printable_variant(#[trigger] pre[k]) by {
            assert(pre[k] == vs[k]);
        }
        lemma_schema_read_back(pre);
        assert(avs.drop_last() =~= pre.map_values(|v: VariantView| annotate_variant(v)));
        assert(printable_variant(vs[vs.len() - 1]));
        lemma_variant_read_back(vs.last());
        assert(avs.last() == annotate_variant(vs.last()));
        assert(load_schema(avs.drop_last()) == Ok::<Seq<VariantView>, SyntaxErrorView>(pre));
        assert(load_variant(avs.last()) == Ok::<VariantView, SyntaxErrorView>(vs.last()));
        assert(pre.push(vs.last()) =~= vs);
    }
}


// ---------------------------------------------------------------------------
// What loads is printable

proof fn lemma_group_end_restrict(t: Seq<char>, i: int, depth: nat, in_string: bool, g: int)
    requires
        0 <= g <= i,
        group_end(t, i, depth, in_string) is Some,
    ensures
        i < group_end(t, i, depth, in_string)->Some_0 <= t.len(),
        group_end(
            t.subrange(g, group_end(t, i, depth, in_string)->Some_0),
            i - g,
            depth,
            in_string,
        ) == Some(group_end(t, i, depth, in_string)->Some_0 - g),
    decreases t.len() - i,
{
    let e = group_end(t, i, depth, in_string)->Some_0;
    if in_string {
        if t[i] == '\\' {
            lemma_group_end_restrict(t, i + 2, depth, true, g);
        } else if t[i] == '"' {
            lemma_group_end_restrict(t, i + 1, depth, false, g);
        } else {
            lemma_group_end_restrict(t, i + 1, depth, true, g);
        }
    } else if t[i] == '"' {
        lemma_group_end_restrict(t, i + 1, depth, true, g);
    } else if is_open(t[i]) {
        lemma_group_end_restrict(t, i + 1, depth + 1, false, g);
    } else if is_close(t[i]) {
        if depth > 1 {
            lemma_group_end_restrict(t, i + 1, (depth - 1) as nat, false, g);
        }
    } else {
        lemma_group_end_restrict(t, i + 1, depth, false, g);
    }
    let a = t.subrange(g, e);
    assert(a[i - g] == t[i]);
    if in_string && t[i] == '\\' {
        assert(a[i - g + 1] == t[i + 1]);
    }
}

/// A parsed directive other than `ignore` is printable: its example
/// arguments, if any, are one bracket group.
proof fn lemma_parsed_printable(t: Seq<char>)
    requires
        parse_directive(t) is Ok,
        !(parse_directive(t)->Ok_0 is Ignore),
    ensures
        printable(parse_directive(t)->Ok_0),
{
    reveal(parse_directive);
    let i = skip_spaces(t, 0);
    let e = ident_end(t, i);
    let k = skip_spaces(t, e);
    let g = skip_spaces(t, k + 1);
    if !(i < t.len() && t[i] == '"') && t.subrange(i, e) == "test"@ && k < t.len() && t[k] == '=' && g < t.len()
        && (t[g] == '(' || t[g] == '{') && group_end(t, g + 1, 1, false) is Some {
        assert(0 <= g) by {
            lemma_skip_spaces_ge(t, 0);
            lemma_ident_end_ge(t, i);
            lemma_skip_spaces_ge(t, e);
            lemma_skip_spaces_ge(t, k + 1);
        }
        lemma_group_end_restrict(t, g + 1, 1, false, g);
        let ge = group_end(t, g + 1, 1, false)->Some_0;
        assert(t.subrange(g, ge)[0] == t[g]);
    }
}

proof fn lemma_skip_spaces_ge(t: Seq<char>, i: int)
    ensures
        skip_spaces(t, i) >= i,
    decreases t.len() - i,
{
    if 0 <= i < t.len() && is_space(t[i]) {
        lemma_skip_spaces_ge(t, i + 1);
    }
}

proof fn lemma_ident_end_ge(t: Seq<char>, i: int)
    ensures
        ident_end(t, i) >= i,
    decreases t.len() - i,
{
    if 0 <= i < t.len() && is_ident_char(t[i]) {
        lemma_ident_end_ge(t, i + 1);
    }
}

proof fn lemma_loaded_directives_printable(ts: Seq<Seq<char>>)
    requires
        load_directives(ts) is Ok,
    ensures
        forall|k: int| 0 <= k < load_directives(ts)->Ok_0.len() ==> printable(#[trigger] load_directives(ts)->Ok_0[k]),
    decreases ts.len(),
{
    if ts.len() > 0 {
        lemma_loaded_directives_printable(ts.drop_last());
        lemma_parsed_printable(ts.last());
        let ds = load_directives(ts)->Ok_0;
        let pre = load_directives(ts.drop_last())->Ok_0;
        assert forall|k: int| 0 <= k < ds.len() implies printable(#[trigger] ds[k]) by {
            if k < pre.len() {
                assert(ds[k] == pre[k]);
            }
        }
    }
}

/// Every variant of a schema that loads is printable, so writing it back and
/// loading the text again gives it back.
pub proof fn lemma_loaded_schema_printable(avs: Seq<AnnotatedVariantView>)
    requires
        load_schema(avs) is Ok,
    ensures
        forall|k: int| 0 <= k < load_schema(avs)->Ok_0.len() ==> printable_variant(#[trigger] load_schema(avs)->Ok_0[k]),
        load_schema(avs)->Ok_0.len() == avs.len(),
    decreases avs.len(),
{
    if avs.len() > 0 {
        lemma_loaded_schema_printable(avs.drop_last());
        lemma_loaded_directives_printable(avs.last().annotations);
        let vs = load_schema(avs)->Ok_0;
        let pre = load_schema(avs.drop_last())->Ok_0;
        assert forall|k: int| 0 <= k < vs.len() implies printable_variant(#[trigger] vs[k]) by {
            if k < pre.len() {
                assert(vs[k] == pre[k]);
            }
        }
    }
}

} // verus!
