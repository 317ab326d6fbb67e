//! The example-to-test compiler: every `test` directive of a schema becomes a
//! named test case, and each case can be written out as a test function.

use vstd::prelude::*;
use vstd::string::*;
use crate::schema::{escape, push_escaped, directive_views, variant_views, Directive, DirectiveView, Variant, VariantView, opt_view};
use crate::text::{decimal, decimal_text, lemma_decimal_digits, lemma_decimal_injective};

verus! {

/// One example of a variant: the test's name, the variant, its constructor
/// arguments with their brackets, and the expected command-line text.
#[derive(Debug)]
pub struct TestCase {
    pub name: String,
    pub variant: String,
    pub args: Option<String>,
    pub expected: String,
}

pub struct TestCaseView {
    pub name: Seq<char>,
    pub variant: Seq<char>,
    pub args: Option<Seq<char>>,
    pub expected: Seq<char>,
}

impl View for TestCase {
    type V = TestCaseView;

    open spec fn view(&self) -> TestCaseView {
        TestCaseView { name: self.name@, variant: self.variant@, args: opt_view(self.args), expected: self.expected@ }
    }
}

pub open spec fn case_views(cs: Seq<TestCase>) -> Seq<TestCaseView> {
    cs.map_values(|c: TestCase| c@)
}

/// `TEST_<variant>_<n>`: the name of the `n`-th example of a variant.
pub open spec fn test_name(variant: Seq<char>, n: nat) -> Seq<char> {
    seq!['T', 'E', 'S', 'T', '_'] + variant + seq!['_'] + decimal(n)
}

/// The cases of the examples among `ds`, numbered from 0 in order.
pub open spec fn variant_cases(name: Seq<char>, ds: Seq<DirectiveView>) -> Seq<TestCaseView>
    decreases ds.len(),
{
    if ds.len() == 0 {
        Seq::empty()
    } else {
        let before = variant_cases(name, ds.drop_last());
        match ds.last() {
            DirectiveView::Test(args, expected) => before.push(
                TestCaseView { name: test_name(name, before.len()), variant: name, args, expected },
            ),
            _ => before,
        }
    }
}

/// The cases of all variants, in declaration order.
pub open spec fn schema_cases(vs: Seq<VariantView>) -> Seq<TestCaseView>
    decreases vs.len(),
{
    if vs.len() == 0 {
        Seq::empty()
    } else {
        schema_cases(vs.drop_last()) + variant_cases(vs.last().name, vs.last().directives)
    }
}

/// Two test names are equal only for the same variant and number: the text
/// after the last `_` is the number, which holds no `_`.
pub proof fn test_name_injective(x: Seq<char>, n: nat, y: Seq<char>, m: nat)
    requires
        test_name(x, n) == test_name(y, m),
    ensures
        x == y,
        n == m,
{
    let s = test_name(x, n);
    let head = seq!['T', 'E', 'S', 'T', '_'];
    lemma_decimal_digits(n);
    lemma_decimal_digits(m);
    let t = test_name(y, m);
    assert(s.len() == 6 + x.len() + decimal(n).len());
    assert(t.len() == 6 + y.len() + decimal(m).len());
    assert(s == (head + x + seq!['_']) + decimal(n));
    assert(t == (head + y + seq!['_']) + decimal(m));
    if x.len() < y.len() {
        let q = 5 + y.len() as int;
        assert(test_name(y, m)[q] == '_');
        assert(s[q] == decimal(n)[q - 6 - x.len()]);
        assert('0' <= decimal(n)[q - 6 - x.len()] <= '9');
    } else if y.len() < x.len() {
        let q = 5 + x.len() as int;
        assert(s[q] == '_');
        assert(test_name(y, m)[q] == decimal(m)[q - 6 - y.len()]);
        assert('0' <= decimal(m)[q - 6 - y.len()] <= '9');
    } else {
        assert(s.subrange(5, 5 + x.len() as int) =~= x);
        assert(test_name(y, m).subrange(5, 5 + y.len() as int) =~= y);
        assert(s.subrange(6 + x.len() as int, s.len() as int) =~= decimal(n));
        assert(test_name(y, m).subrange(6 + y.len() as int, s.len() as int) =~= decimal(m));
        lemma_decimal_injective(n, m);
    }
}

/// Case `c` is named after its variant and some number.
pub open spec fn numbered(c: TestCaseView) -> bool {
    exists|n: nat| #[trigger] test_name(c.variant, n) == c.name
}

/// Case `c` belongs to one of the variants `vs`.
pub open spec fn owned_by(c: TestCaseView, vs: Seq<VariantView>) -> bool {
    exists|j: int| 0 <= j < vs.len() && #[trigger] vs[j].name == c.variant
}

proof fn lemma_variant_cases(name: Seq<char>, ds: Seq<DirectiveView>)
    ensures
        forall|k: int| 0 <= k < variant_cases(name, ds).len() ==>
            (#[trigger] variant_cases(name, ds)[k]).name == test_name(name, k as nat) && variant_cases(name, ds)[k].variant == name,
    decreases ds.len(),
{
    if ds.len() > 0 {
        lemma_variant_cases(name, ds.drop_last());
    }
}

/// In a schema whose variants have distinct names, the generated test cases
/// have distinct names: each is `TEST_<variant>_<n>` for the variant it
/// belongs to and its own number.
pub proof fn test_names_distinct(vs: Seq<VariantView>)
    requires
        forall|i: int, j: int| 0 <= i < j < vs.len() ==> vs[i].name != vs[j].name,
    ensures
        forall|k: int| 0 <= k < schema_cases(vs).len() ==> numbered(#[trigger] schema_cases(vs)[k]),
        forall|k: int| 0 <= k < schema_cases(vs).len() ==> owned_by(#[trigger] schema_cases(vs)[k], vs),
        forall|i: int, j: int| 0 <= i < j < schema_cases(vs).len() ==> schema_cases(vs)[i].name != schema_cases(vs)[j].name,
    decreases vs.len(),
{
    if vs.len() > 0 {
        let pre = vs.drop_last();
        let x = vs.last().name;
        assert forall|i: int, j: int| 0 <= i < j < pre.len() implies pre[i].name != pre[j].name by {
            assert(pre[i] == vs[i] && pre[j] == vs[j]);
        }
        test_names_distinct(pre);
        lemma_variant_cases(x, vs.last().directives);
        let a = schema_cases(pre);
        let b = variant_cases(x, vs.last().directives);
        let c = schema_cases(vs);
        assert(c == a + b);
        let off = a.len() as int;
        assert forall|k: int| 0 <= k < c.len() implies numbered(#[trigger] c[k]) by {
            if k < off {
                assert(c[k] == a[k]);
                assert(numbered(a[k]));
                let n = choose|n: nat| #[trigger] test_name(a[k].variant, n) == a[k].name;
                assert(test_name(c[k].variant, n) == c[k].name);
            } else {
                assert(c[k] == b[k - off]);
                assert(test_name(c[k].variant, (k - off) as nat) == c[k].name);
                assert(numbered(c[k]));
            }
        }
        assert forall|k: int| 0 <= k < c.len() implies owned_by(#[trigger] c[k], vs) by {
            if k < off {
                assert(c[k] == a[k]);
                assert(owned_by(a[k], pre));
                let j = choose|j: int| 0 <= j < pre.len() && #[trigger] pre[j].name == a[k].variant;
                assert(vs[j] == pre[j]);
                assert(vs[j].name == c[k].variant);
            } else {
                assert(c[k] == b[k - off]);
                assert(vs[vs.len() - 1].name == c[k].variant);
                assert(owned_by(c[k], vs));
            }
        }
        assert forall|i: int, j: int| 0 <= i < j < c.len() implies c[i].name != c[j].name by {
            if j < off {
                assert(c[i] == a[i] && c[j] == a[j]);
            } else if i >= off {
                assert(c[i] == b[i - off] && c[j] == b[j - off]);
                if c[i].name == c[j].name {
                    test_name_injective(x, (i - off) as nat, x, (j - off) as nat);
                }
            } else {
                assert(c[i] == a[i] && c[j] == b[j - off]);
                assert(numbered(a[i]) && owned_by(a[i], pre));
                let n = choose|n: nat| #[trigger] test_name(a[i].variant, n) == a[i].name;
                let w = choose|w: int| 0 <= w < pre.len() && #[trigger] pre[w].name == a[i].variant;
                assert(vs[w] == pre[w]);
                assert(vs[w].name != vs[vs.len() - 1].name);
                if c[i].name == c[j].name {
                    test_name_injective(a[i].variant, n, x, (j - off) as nat);
                }
            }
        }
    }
}

fn clone_opt(o: &Option<String>) -> (r: Option<String>)
    ensures
        opt_view(r) == opt_view(*o),
{
    match o {
        Some(s) => Some(s.clone()),
        None => None,
    }
}

fn add_variant_cases(out: &mut Vec<TestCase>, v: &Variant)
    ensures
        case_views(final(out)@) == case_views(old(out)@) + variant_cases(v.name@, directive_views(v.directives@)),
{
    let ghost start = case_views(out@);
    let mut count: u64 = 0;
    let mut i: usize = 0;
    proof {
        assert(directive_views(v.directives@).subrange(0, 0) =~= Seq::<DirectiveView>::empty());
        assert(start + Seq::<TestCaseView>::empty() =~= start);
    }
    while i < v.directives.len()
        invariant
            i <= v.directives@.len(),
            count <= i,
            count as nat == variant_cases(v.name@, directive_views(v.directives@).subrange(0, i as int)).len(),
            case_views(out@) == start + variant_cases(v.name@, directive_views(v.directives@).subrange(0, i as int)),
        decreases v.directives@.len() - i,
    {
        let ghost pre = directive_views(v.directives@).subrange(0, i + 1);
        assert(pre.drop_last() =~= directive_views(v.directives@).subrange(0, i as int));
        assert(pre.last() == v.directives@[i as int]@);
        let ghost before = out@;
        match &v.directives[i] {
            Directive::Test(args, expected) => {
                proof {
                    reveal_strlit("TEST_");
                    reveal_strlit("_");
                }
                let mut name = String::from_str("TEST_");
                name.append(v.name.as_str());
                name.append("_");
                let number = decimal_text(count);
                name.append(number.as_str());
                proof {
                    assert("TEST_"@ =~= seq!['T', 'E', 'S', 'T', '_']);
                    assert("_"@ =~= seq!['_']);
                    assert(name@ =~= test_name(v.name@, count as nat));
                }
                out.push(TestCase { name, variant: v.name.clone(), args: clone_opt(args), expected: expected.clone() });
                count += 1;
                proof {
                    assert(case_views(out@) =~= case_views(before).push(out@.last()@));
                }
            },
            _ => {},
        }
        i += 1;
    }
    proof {
        assert(directive_views(v.directives@).subrange(0, v.directives@.len() as int) =~= directive_views(v.directives@));
    }
}

/// One test case for each example of the schema: the examples of each
/// variant are numbered from 0, and the variants keep their order.
pub fn compile_tests(schema: &Vec<Variant>) -> (r: Vec<TestCase>)
    ensures
        case_views(r@) == schema_cases(variant_views(schema@)),
{
    let mut r: Vec<TestCase> = Vec::new();
    let mut i: usize = 0;
    proof {
        assert(variant_views(schema@).subrange(0, 0) =~= Seq::<VariantView>::empty());
        assert(case_views(r@) =~= Seq::<TestCaseView>::empty());
    }
    while i < schema.len()
        invariant
            i <= schema@.len(),
            case_views(r@) == schema_cases(variant_views(schema@).subrange(0, i as int)),
        decreases schema@.len() - i,
    {
        let ghost pre = variant_views(schema@).subrange(0, i + 1);
        assert(pre.drop_last() =~= variant_views(schema@).subrange(0, i as int));
        assert(pre.last() == schema@[i as int]@);
        add_variant_cases(&mut r, &schema[i]);
        i += 1;
    }
    proof {
        assert(variant_views(schema@).subrange(0, schema@.len() as int) =~= variant_views(schema@));
    }
    r
}

/// The source of a test function for `case`: it builds the instance of
/// `enum_name` from the example's arguments and compares its command-line
/// text with the expected one.
pub open spec fn test_source(case: TestCaseView, enum_name: Seq<char>) -> Seq<char> {
    "#[test]\nfn "@ + case.name + "() {\n    let v = "@ + enum_name + "::"@ + case.variant + match case.args {
        Some(a) => a,
        None => Seq::empty(),
    } + ";\n    assert_eq!(v.expand_cli(), \""@ + escape(case.expected) + "\");\n}\n"@
}

/// Writes out the test function of `case`.
pub fn generate_test(case: &TestCase, enum_name: &str) -> (r: String)
    ensures
        r@ == test_source(case@, enum_name@),
{
    let mut r = String::from_str("#[test]\nfn ");
    r.append(case.name.as_str());
    r.append("() {\n    let v = ");
    r.append(enum_name);
    r.append("::");
    r.append(case.variant.as_str());
    match &case.args {
        Some(a) => r.append(a.as_str()),
        None => {},
    }
    r.append(";\n    assert_eq!(v.expand_cli(), \"");
    push_escaped(&mut r, case.expected.as_str());
    r.append("\");\n}\n");
    proof {
        let a = match case@.args {
            Some(a) => a,
            None => Seq::<char>::empty(),
        };
        assert(r@ =~= test_source(case@, enum_name@));
    }
    r
}

} // verus!
