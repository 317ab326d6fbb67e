//! The configuration builder, and the argument vector that it hands to the
//! Tor daemon.

use vstd::prelude::*;
use crate::flags::{flag_daemon_args, TorFlag};
use crate::subcommand::{subcommand_tokens, TorSubcommand};
use crate::text::{text_of, views};
use crate::Expand;

verus! {

/// Why a configuration was refused or could not run.
#[derive(Clone, Copy, PartialEq, Eq, Structural, Debug)]
pub enum Error {
    /// The Tor daemon is not running.
    NotRunning,
    /// A subcommand was set twice.
    DuplicatedSubcommand,
}

impl Error {
    /// A sentence that describes the error.
    pub fn message(&self) -> (r: &'static str)
        ensures
            r@ == match self {
                Error::NotRunning => "Tor service is not running"@,
                Error::DuplicatedSubcommand => "a subcommand is already set"@,
            },
    {
        match self {
            Error::NotRunning => "Tor service is not running",
            Error::DuplicatedSubcommand => "a subcommand is already set",
        }
    }
}

/// The flags and the optional subcommand of a Tor daemon.
#[derive(Clone, Debug)]
pub struct Tor {
    subcommand: Option<TorSubcommand>,
    flags: Vec<TorFlag>,
}

/// The daemon arguments of all flags, in order.
pub open spec fn flags_args(fs: Seq<TorFlag>) -> Seq<Seq<char>>
    decreases fs.len(),
{
    if fs.len() == 0 {
        Seq::empty()
    } else {
        flags_args(fs.drop_last()) + flag_daemon_args(fs.last())
    }
}

impl Tor {
    /// The flags, in the order they were added.
    pub closed spec fn flag_list(&self) -> Seq<TorFlag> {
        self.flags@
    }

    /// The subcommand, if one is set.
    pub closed spec fn subcommand_of(&self) -> Option<TorSubcommand> {
        self.subcommand
    }

    /// The daemon's arguments: `tor`, each flag's daemon arguments in order,
    /// then the subcommand's tokens.
    pub open spec fn arg_list(&self) -> Seq<Seq<char>> {
        seq!["tor"@] + flags_args(self.flag_list()) + match self.subcommand_of() {
            Some(s) => subcommand_tokens(s),
            None => Seq::empty(),
        }
    }

    /// A configuration with no flag and no subcommand.
    pub fn new() -> (r: Tor)
        ensures
            r.flag_list() == Seq::<TorFlag>::empty(),
            r.subcommand_of() is None,
    {
        Tor { subcommand: None, flags: Vec::new() }
    }

    /// A configuration with no flag and the given subcommand.
    pub fn new_with_subcommand(subcommand: TorSubcommand) -> (r: Tor)
        ensures
            r.flag_list() == Seq::<TorFlag>::empty(),
            r.subcommand_of() == Some(subcommand),
    {
        Tor { subcommand: Some(subcommand), flags: Vec::new() }
    }

    /// Sets the subcommand; refused when one is already set.
    pub fn subcommand(&mut self, subcommand: TorSubcommand) -> (r: Result<&mut Tor, Error>)
        ensures
            old(self).subcommand_of() is Some ==> (r matches Err(e) && e == Error::DuplicatedSubcommand && *final(self) == *old(self)),
            old(self).subcommand_of() is None ==> (r matches Ok(t) && t.subcommand_of() == Some(subcommand)
                && t.flag_list() == old(self).flag_list() && *final(self) == *final(t)),
    {
        if self.subcommand.is_some() {
            Err(Error::DuplicatedSubcommand)
        } else {
            self.subcommand = Some(subcommand);
            Ok(self)
        }
    }

    /// Adds a flag after the others.
    pub fn flag(&mut self, flag: TorFlag) -> (r: &mut Tor)
        ensures
            r.flag_list() == old(self).flag_list().push(flag),
            r.subcommand_of() == old(self).subcommand_of(),
            *final(self) == *final(r),
    {
        self.flags.push(flag);
        self
    }

    /// The argument vector for the daemon.
    pub fn args(&self) -> (r: Vec<String>)
        ensures
            views(r@) == self.arg_list(),
    {
        let mut r: Vec<String> = vec![text_of("tor")];
        let mut i: usize = 0;
        proof {
            assert(self.flags@.subrange(0, 0) =~= Seq::<TorFlag>::empty());
            assert(views(r@) =~= seq!["tor"@] + flags_args(Seq::<TorFlag>::empty()));
        }
        while i < self.flags.len()
            invariant
                i <= self.flags@.len(),
                views(r@) == seq!["tor"@] + flags_args(self.flags@.subrange(0, i as int)),
            decreases self.flags@.len() - i,
        {
            let tokens = self.flags[i].daemon_args();
            let ghost start = views(r@);
            let mut j: usize = 0;
            while j < tokens.len()
                invariant
                    j <= tokens@.len(),
                    views(r@) == start + views(tokens@).subrange(0, j as int),
                decreases tokens@.len() - j,
            {
                let ghost before = r@;
                r.push(tokens[j].clone());
                assert(views(r@) =~= views(before).push(tokens@[j as int]@));
                assert(views(tokens@).subrange(0, j + 1) =~= views(tokens@).subrange(0, j as int).push(tokens@[j as int]@));
                assert(start + views(tokens@).subrange(0, j + 1) =~= (start + views(tokens@).subrange(0, j as int)).push(tokens@[j as int]@));
                j += 1;
            }
            proof {
                let pre = self.flags@.subrange(0, i + 1);
                assert(pre.drop_last() =~= self.flags@.subrange(0, i as int));
                assert(views(tokens@).subrange(0, tokens@.len() as int) =~= views(tokens@));
                assert(seq!["tor"@] + flags_args(pre) =~= start + flag_daemon_args(self.flags@[i as int]));
            }
            i += 1;
        }
        proof {
            assert(self.flags@.subrange(0, self.flags@.len() as int) =~= self.flags@);
        }
        match &self.subcommand {
            Some(s) => {
                let tokens = s.expand();
                let ghost start = views(r@);
                let mut j: usize = 0;
                while j < tokens.len()
                    invariant
                        j <= tokens@.len(),
                        views(r@) == start + views(tokens@).subrange(0, j as int),
                    decreases tokens@.len() - j,
                {
                    let ghost before = r@;
                    r.push(tokens[j].clone());
                    assert(views(r@) =~= views(before).push(tokens@[j as int]@));
                    assert(views(tokens@).subrange(0, j + 1) =~= views(tokens@).subrange(0, j as int).push(tokens@[j as int]@));
                    assert(start + views(tokens@).subrange(0, j + 1) =~= (start + views(tokens@).subrange(0, j as int)).push(tokens@[j as int]@));
                    j += 1;
                }
                assert(views(tokens@).subrange(0, tokens@.len() as int) =~= views(tokens@));
            },
            None => {
                assert(views(r@) =~= views(r@) + Seq::<Seq<char>>::empty());
            },
        }
        r
    }
}

impl Default for Tor {
    fn default() -> (r: Tor)
        ensures
            r.flag_list() == Seq::<TorFlag>::empty(),
            r.subcommand_of() is None,
    {
        Tor::new()
    }
}

} // verus!
