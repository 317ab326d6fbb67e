//! Tor's subcommands: variants with named fields, some of them ignored.

use vstd::prelude::*;
use crate::render::{declared_outcome, render_declaration, Outcome, OutcomeView};
use crate::schema::{annotated_field_views, AnnotatedField, AnnotatedFieldView, AnnotatedVariant, AnnotatedVariantView, Shape};
use crate::text::{text_of, views};
use crate::utils::ToArg;
use crate::Expand;

verus! {

/// The number of variants of [`TorSubcommand`].
pub const SUBCOMMAND_COUNT: usize = 6;

/// A subcommand given to Tor after its flags.
#[derive(Clone, Debug)]
pub enum TorSubcommand {
    HashPassword { password: String },
    VerifyConfig,
    ListFingerprint,
    Version,
    Keygen { password: Option<String> },
    KeygenNewpass { old_password: Option<String>, new_password: Option<String> },
}

pub open spec fn subcommand_tag(s: TorSubcommand) -> nat {
    match s {
        TorSubcommand::HashPassword { .. } => 0,
        TorSubcommand::VerifyConfig => 1,
        TorSubcommand::ListFingerprint => 2,
        TorSubcommand::Version => 3,
        TorSubcommand::Keygen { .. } => 4,
        TorSubcommand::KeygenNewpass { .. } => 5,
    }
}

pub open spec fn named_field(label: Seq<char>, ignore: bool) -> AnnotatedFieldView {
    AnnotatedFieldView {
        label: Some(label),
        annotations: if ignore {
            seq!["ignore"@]
        } else {
            Seq::empty()
        },
    }
}

/// The declaration of the variant at `tag`.
pub open spec fn subcommand_declaration(tag: nat) -> AnnotatedVariantView {
    if tag == 0 {
        AnnotatedVariantView {
            name: "HashPassword"@,
            shape: Shape::Named,
            fields: seq![named_field("password"@, false)],
            annotations: seq![
                "\"--hash-password {password}\""@,
                "test = { password: \"secret\".into() } => \"--hash-password \\\"secret\\\"\""@,
            ],
        }
    } else if tag == 1 {
        AnnotatedVariantView {
            name: "VerifyConfig"@,
            shape: Shape::Unit,
            fields: Seq::empty(),
            annotations: seq!["\"--verify-config\""@],
        }
    } else if tag == 2 {
        AnnotatedVariantView {
            name: "ListFingerprint"@,
            shape: Shape::Unit,
            fields: Seq::empty(),
            annotations: seq!["\"--list-fingerprint\""@],
        }
    } else if tag == 3 {
        AnnotatedVariantView {
            name: "Version"@,
            shape: Shape::Unit,
            fields: Seq::empty(),
            annotations: seq!["\"--version\""@],
        }
    } else if tag == 4 {
        AnnotatedVariantView {
            name: "Keygen"@,
            shape: Shape::Named,
            fields: seq![named_field("password"@, true)],
            annotations: seq![
                "\"--keygen\""@,
                "test = { password: Some(\"secret\".into()) } => \"--keygen\""@,
            ],
        }
    } else {
        AnnotatedVariantView {
            name: "KeygenNewpass"@,
            shape: Shape::Named,
            fields: seq![named_field("old_password"@, true), named_field("new_password"@, true)],
            annotations: seq!["\"--keygen --newpass\""@],
        }
    }
}

/// The tokens of a subcommand: what its declaration gives for its field texts.
pub open spec fn subcommand_tokens(s: TorSubcommand) -> Seq<Seq<char>> {
    match declared_outcome(subcommand_declaration(subcommand_tag(s)), s.field_args()) {
        OutcomeView::Tokens(t) => t,
        _ => Seq::empty(),
    }
}

fn named_field_exec(label: &str, ignore: bool) -> (r: AnnotatedField)
    ensures
        r@ == named_field(label@, ignore),
{
    let annotations = if ignore {
        vec![text_of("ignore")]
    } else {
        Vec::new()
    };
    let r = AnnotatedField { label: Some(text_of(label)), annotations };
    assert(r@.annotations =~= named_field(label@, ignore).annotations);
    r
}

fn strings(items: Vec<&str>) -> (r: Vec<String>)
    ensures
        views(r@) == items@.map_values(|s: &str| s@),
{
    let mut r: Vec<String> = Vec::new();
    let mut i: usize = 0;
    while i < items.len()
        invariant
            i <= items@.len(),
            views(r@) =~= items@.subrange(0, i as int).map_values(|s: &str| s@),
        decreases items@.len() - i,
    {
        let ghost before = r@;
        r.push(text_of(items[i]));
        assert(views(r@) =~= views(before).push(items@[i as int]@));
        assert(items@.subrange(0, i + 1).map_values(|s: &str| s@) =~= items@.subrange(0, i as int).map_values(|s: &str| s@).push(items@[i as int]@));
        i += 1;
    }
    assert(items@.subrange(0, items@.len() as int) =~= items@);
    r
}

impl TorSubcommand {
    /// The texts of the subcommand's fields, in declaration order.
    pub open spec fn field_args(&self) -> Seq<Seq<char>> {
        match self {
            TorSubcommand::HashPassword { password } => seq![password.arg()],
            TorSubcommand::Keygen { password } => seq![password.arg()],
            TorSubcommand::KeygenNewpass { old_password, new_password } => seq![old_password.arg(), new_password.arg()],
            _ => Seq::empty(),
        }
    }

    pub fn tag(&self) -> (r: usize)
        ensures
            r as nat == subcommand_tag(*self),
    {
        match self {
            TorSubcommand::HashPassword { .. } => 0,
            TorSubcommand::VerifyConfig => 1,
            TorSubcommand::ListFingerprint => 2,
            TorSubcommand::Version => 3,
            TorSubcommand::Keygen { .. } => 4,
            TorSubcommand::KeygenNewpass { .. } => 5,
        }
    }

    pub fn field_texts(&self) -> (r: Vec<String>)
        ensures
            views(r@) == self.field_args(),
    {
        let r = match self {
            TorSubcommand::HashPassword { password } => vec![password.to_arg()],
            TorSubcommand::Keygen { password } => vec![password.to_arg()],
            TorSubcommand::KeygenNewpass { old_password, new_password } => vec![old_password.to_arg(), new_password.to_arg()],
            _ => Vec::new(),
        };
        assert(views(r@) =~= self.field_args());
        r
    }

    /// The declaration of the variant at `tag`.
    pub fn declaration(tag: usize) -> (r: AnnotatedVariant)
        ensures
            r@ == subcommand_declaration(tag as nat),
    {
        let (name, shape, fields, annotations) = if tag == 0 {
            (
                "HashPassword",
                Shape::Named,
                vec![named_field_exec("password", false)],
                strings(vec!["\"--hash-password {password}\"", "test = { password: \"secret\".into() } => \"--hash-password \\\"secret\\\"\""]),
            )
        } else if tag == 1 {
            ("VerifyConfig", Shape::Unit, Vec::new(), strings(vec!["\"--verify-config\""]))
        } else if tag == 2 {
            ("ListFingerprint", Shape::Unit, Vec::new(), strings(vec!["\"--list-fingerprint\""]))
        } else if tag == 3 {
            ("Version", Shape::Unit, Vec::new(), strings(vec!["\"--version\""]))
        } else if tag == 4 {
            (
                "Keygen",
                Shape::Named,
                vec![named_field_exec("password", true)],
                strings(vec!["\"--keygen\"", "test = { password: Some(\"secret\".into()) } => \"--keygen\""]),
            )
        } else {
            (
                "KeygenNewpass",
                Shape::Named,
                vec![named_field_exec("old_password", true), named_field_exec("new_password", true)],
                strings(vec!["\"--keygen --newpass\""]),
            )
        };
        let r = AnnotatedVariant { name: text_of(name), shape, fields, annotations };
        assert(r@.fields =~= subcommand_declaration(tag as nat).fields);
        assert(r@.annotations =~= subcommand_declaration(tag as nat).annotations);
        r
    }

    /// The declarations of all variants, in declaration order.
    pub fn schema() -> (r: Vec<AnnotatedVariant>)
        ensures
            r@.len() == SUBCOMMAND_COUNT,
            forall|k: int| 0 <= k < SUBCOMMAND_COUNT ==> (#[trigger] r@[k])@ == subcommand_declaration(k as nat),
    {
        let mut r: Vec<AnnotatedVariant> = Vec::new();
        let mut tag: usize = 0;
        while tag < SUBCOMMAND_COUNT
            invariant
                tag <= SUBCOMMAND_COUNT,
                r@.len() == tag,
                forall|k: int| 0 <= k < tag ==> (#[trigger] r@[k])@ == subcommand_declaration(k as nat),
            decreases SUBCOMMAND_COUNT - tag,
        {
            r.push(TorSubcommand::declaration(tag));
            tag += 1;
        }
        r
    }
}

/// Every subcommand carries one text per declared field, ignored ones
/// included: the constructor's arity is the declaration's.
pub proof fn subcommand_arity_matches_declaration(s: TorSubcommand)
    ensures
        s.field_args().len() == subcommand_declaration(subcommand_tag(s)).fields.len(),
{
}

impl Expand for TorSubcommand {
    open spec fn tokens(&self) -> Seq<Seq<char>> {
        subcommand_tokens(*self)
    }

    fn expand(&self) -> (r: Vec<String>) {
        let decl = TorSubcommand::declaration(self.tag());
        let vals = self.field_texts();
        match render_declaration(&decl, &vals) {
            Outcome::Tokens(t) => t,
            _ => {
                let r: Vec<String> = Vec::new();
                assert(views(r@) =~= Seq::<Seq<char>>::empty());
                r
            },
        }
    }
}

} // verus!
