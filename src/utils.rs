//! Text forms of field values: the `ToArg` contract, joiners, and the list and
//! optional wrappers.

use vstd::prelude::*;
use vstd::string::*;
use crate::text::{decimal, decimal_text, join, text_of};

verus! {

/// A value with a fixed command-line text.
pub trait ToArg {
    /// The text of the value.
    spec fn arg(&self) -> Seq<char>;

    fn to_arg(&self) -> (r: String)
        ensures
            r@ == self.arg();
}

impl ToArg for String {
    open spec fn arg(&self) -> Seq<char> {
        self@
    }

    fn to_arg(&self) -> (r: String) {
        self.clone()
    }
}

impl ToArg for u16 {
    open spec fn arg(&self) -> Seq<char> {
        decimal(*self as nat)
    }

    fn to_arg(&self) -> (r: String) {
        decimal_text(*self as u64)
    }
}

impl ToArg for u32 {
    open spec fn arg(&self) -> Seq<char> {
        decimal(*self as nat)
    }

    fn to_arg(&self) -> (r: String) {
        decimal_text(*self as u64)
    }
}

impl ToArg for usize {
    open spec fn arg(&self) -> Seq<char> {
        decimal(*self as nat)
    }

    fn to_arg(&self) -> (r: String) {
        decimal_text(*self as u64)
    }
}

/// An absent value has the empty text.
impl ToArg for Option<String> {
    open spec fn arg(&self) -> Seq<char> {
        match self {
            Some(s) => s@,
            None => Seq::empty(),
        }
    }

    fn to_arg(&self) -> (r: String) {
        match self {
            Some(s) => s.clone(),
            None => String::new(),
        }
    }
}

/// The separator put between the items of a list.
pub trait Joiner: Sized {
    spec fn separator() -> Seq<char>;

    fn joiner(&self) -> (r: String)
        ensures
            r@ == Self::separator();

    fn new() -> Self;
}

#[derive(Clone, Debug)]
pub struct CommaJoiner {}

impl Joiner for CommaJoiner {
    open spec fn separator() -> Seq<char> {
        seq![',']
    }

    fn joiner(&self) -> (r: String) {
        proof {
            reveal_strlit(",");
        }
        text_of(",")
    }

    fn new() -> Self {
        CommaJoiner {}
    }
}

#[derive(Clone, Debug)]
pub struct SpaceJoiner {}

impl Joiner for SpaceJoiner {
    open spec fn separator() -> Seq<char> {
        seq![' ']
    }

    fn joiner(&self) -> (r: String) {
        proof {
            reveal_strlit(" ");
        }
        text_of(" ")
    }

    fn new() -> Self {
        SpaceJoiner {}
    }
}

/// A list whose text is its items' texts joined by `J`'s separator.
#[derive(Clone, Debug)]
pub struct DisplayVec<T: ToArg, J: Joiner> {
    vec: Vec<T>,
    joiner: J,
}

pub open spec fn arg_views<T: ToArg>(v: Seq<T>) -> Seq<Seq<char>> {
    v.map_values(|t: T| t.arg())
}

impl<T: ToArg, J: Joiner> DisplayVec<T, J> {
    pub closed spec fn items(&self) -> Seq<T> {
        self.vec@
    }

    /// Wraps `vec`.
    pub fn from_vec(vec: Vec<T>) -> (r: Self)
        ensures
            r.items() == vec@,
    {
        DisplayVec { vec, joiner: J::new() }
    }
}

impl<T: ToArg, J: Joiner> From<Vec<T>> for DisplayVec<T, J> {
    fn from(vec: Vec<T>) -> (r: Self)
        ensures
            r.items() == vec@,
    {
        DisplayVec { vec, joiner: J::new() }
    }
}

impl<T: ToArg, J: Joiner> vstd::std_specs::convert::FromSpecImpl<Vec<T>> for DisplayVec<T, J> {
    open spec fn obeys_from_spec() -> bool {
        false
    }

    open spec fn from_spec(v: Vec<T>) -> Self {
        arbitrary()
    }
}

impl<T: ToArg, J: Joiner> ToArg for DisplayVec<T, J> {
    open spec fn arg(&self) -> Seq<char> {
        join(J::separator(), arg_views(self.items()))
    }

    fn to_arg(&self) -> (r: String) {
        let sep = self.joiner.joiner();
        let mut r = String::new();
        let mut i: usize = 0;
        while i < self.vec.len()
            invariant
                i <= self.vec@.len(),
                sep@ == J::separator(),
                r@ == join(J::separator(), arg_views(self.vec@.subrange(0, i as int))),
            decreases self.vec@.len() - i,
        {
            if i > 0 {
                r.append(sep.as_str());
            }
            let item = self.vec[i].to_arg();
            r.append(item.as_str());
            proof {
                let next = arg_views(self.vec@.subrange(0, i + 1));
                assert(next.drop_last() =~= arg_views(self.vec@.subrange(0, i as int)));
                assert(next.last() == self.vec@[i as int].arg());
            }
            i += 1;
        }
        proof {
            assert(self.vec@.subrange(0, self.vec@.len() as int) =~= self.vec@);
        }
        r
    }
}

/// An optional value whose text is empty when it is absent.
#[derive(Clone, Debug)]
pub struct DisplayOption<T: ToArg> {
    option: Option<T>,
}

impl<T: ToArg> DisplayOption<T> {
    pub closed spec fn value(&self) -> Option<T> {
        self.option
    }

    /// Wraps `option`.
    pub fn from_option(option: Option<T>) -> (r: Self)
        ensures
            r.value() == option,
    {
        DisplayOption { option }
    }
}

impl<T: ToArg> From<Option<T>> for DisplayOption<T> {
    fn from(option: Option<T>) -> (r: Self)
        ensures
            r.value() == option,
    {
        DisplayOption { option }
    }
}

impl<T: ToArg> vstd::std_specs::convert::FromSpecImpl<Option<T>> for DisplayOption<T> {
    open spec fn obeys_from_spec() -> bool {
        true
    }

    closed spec fn from_spec(v: Option<T>) -> Self {
        DisplayOption { option: v }
    }
}

impl<T: ToArg> ToArg for DisplayOption<T> {
    open spec fn arg(&self) -> Seq<char> {
        match self.value() {
            Some(v) => v.arg(),
            None => Seq::empty(),
        }
    }

    fn to_arg(&self) -> (r: String) {
        match &self.option {
            Some(v) => v.to_arg(),
            None => String::new(),
        }
    }
}

} // verus!
