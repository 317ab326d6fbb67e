//! Tor's options as a typed enumeration, declared through the annotation
//! schema and rendered by it.

use vstd::prelude::*;
use vstd::string::*;
use crate::hs::{HiddenServiceAuthType, HiddenServiceVersion};
use crate::log::{LogDestination, LogDomain, LogLevel};
use crate::ports::{ControlPortFlag, SocksPortFlag, SocksPortIsolationFlag};
use crate::render::{declared_outcome, render_declaration, select, Outcome, OutcomeView};
use crate::resolve::{resolve, shape_fits, shown, GenErrorKind, StrategyView};
use crate::schema::{
    annotated_field_views, load_directives, load_fields, load_variant, AnnotatedField, AnnotatedFieldView,
    AnnotatedVariant, AnnotatedVariantView, DirectiveView, FieldView, Shape, SyntaxErrorKind, SyntaxErrorView,
    VariantView,
};
use crate::text::{concat, decimal, join, join_strings, text_of, views};
use crate::utils::{CommaJoiner, DisplayOption, DisplayVec, SpaceJoiner, ToArg};
use crate::Expand;

verus! {

/// A size unit, in bytes or in bits; renders as its name.
#[derive(Clone, Copy, PartialEq, Eq, Structural, Debug)]
pub enum SizeUnit {
    Bytes,
    KBytes,
    MBytes,
    GBytes,
    TBytes,
    Bits,
    KBits,
    MBits,
    GBits,
    TBits,
}

impl ToArg for SizeUnit {
    open spec fn arg(&self) -> Seq<char> {
        match self {
            SizeUnit::Bytes => "Bytes"@,
            SizeUnit::KBytes => "KBytes"@,
            SizeUnit::MBytes => "MBytes"@,
            SizeUnit::GBytes => "GBytes"@,
            SizeUnit::TBytes => "TBytes"@,
            SizeUnit::Bits => "Bits"@,
            SizeUnit::KBits => "KBits"@,
            SizeUnit::MBits => "MBits"@,
            SizeUnit::GBits => "GBits"@,
            SizeUnit::TBits => "TBits"@,
        }
    }

    fn to_arg(&self) -> (r: String) {
        text_of(
            match self {
                SizeUnit::Bytes => "Bytes",
                SizeUnit::KBytes => "KBytes",
                SizeUnit::MBytes => "MBytes",
                SizeUnit::GBytes => "GBytes",
                SizeUnit::TBytes => "TBytes",
                SizeUnit::Bits => "Bits",
                SizeUnit::KBits => "KBits",
                SizeUnit::MBits => "MBits",
                SizeUnit::GBits => "GBits",
                SizeUnit::TBits => "TBits",
            },
        )
    }
}

/// A boolean that renders as `1` or `0`.
#[derive(Clone, Copy, PartialEq, Eq, Structural, Debug)]
pub enum TorBool {
    True,
    False,
    Enabled,
    Disabled,
}

/// Renders as `1` when true or enabled, `0` when false or disabled.
impl ToArg for TorBool {
    open spec fn arg(&self) -> Seq<char> {
        match self {
            TorBool::True | TorBool::Enabled => "1"@,
            TorBool::False | TorBool::Disabled => "0"@,
        }
    }

    fn to_arg(&self) -> (r: String) {
        match self {
            TorBool::True | TorBool::Enabled => text_of("1"),
            TorBool::False | TorBool::Disabled => text_of("0"),
        }
    }
}

impl From<bool> for TorBool {
    fn from(other: bool) -> (r: TorBool) {
        if other {
            TorBool::True
        } else {
            TorBool::False
        }
    }
}

impl vstd::std_specs::convert::FromSpecImpl<bool> for TorBool {
    open spec fn obeys_from_spec() -> bool {
        true
    }

    open spec fn from_spec(v: bool) -> TorBool {
        if v {
            TorBool::True
        } else {
            TorBool::False
        }
    }
}

/// An address: a port, a host, both, or a Unix socket path.
#[derive(Clone, Debug)]
pub enum TorAddress {
    /// Only the port.
    Port(u16),
    /// Only the address.
    Address(String),
    /// Both the address and the port.
    AddressPort(String, u16),
    /// The path of a Unix socket.
    Unix(String),
}

/// Renders as the port, the address, `address:port`, or `unix:path`.
impl ToArg for TorAddress {
    open spec fn arg(&self) -> Seq<char> {
        match self {
            TorAddress::Port(p) => decimal(*p as nat),
            TorAddress::Address(a) => a@,
            TorAddress::AddressPort(a, p) => a@ + seq![':'] + decimal(*p as nat),
            TorAddress::Unix(path) => "unix:"@ + path@,
        }
    }

    fn to_arg(&self) -> (r: String) {
        match self {
            TorAddress::Port(p) => p.to_arg(),
            TorAddress::Address(a) => a.clone(),
            TorAddress::AddressPort(a, p) => {
                proof {
                    reveal_strlit(":");
                }
                let mut r = concat(a.as_str(), ":");
                let port = p.to_arg();
                r.append(port.as_str());
                r
            },
            TorAddress::Unix(path) => concat("unix:", path.as_str()),
        }
    }
}

// ---------------------------------------------------------------------------
// The `Log` family

/// A domain as a `Log` line lists it: `~` in front when it is excluded.
pub open spec fn domain_entry(e: (bool, LogDomain)) -> Seq<char> {
    (if e.0 {
        Seq::empty()
    } else {
        seq!['~']
    }) + e.1.arg()
}

/// One level of a `Log` line: its domains in brackets, if any, then the level.
pub open spec fn level_entry(e: (Vec<(bool, LogDomain)>, LogLevel)) -> Seq<char> {
    let ds = join(seq![','], e.0@.map_values(|d: (bool, LogDomain)| domain_entry(d)));
    (if ds.len() == 0 {
        Seq::empty()
    } else {
        seq!['['] + ds + seq![']']
    }) + e.1.arg()
}

fn domain_list(ds: &Vec<(bool, LogDomain)>) -> (r: String)
    ensures
        r@ == join(seq![','], ds@.map_values(|d: (bool, LogDomain)| domain_entry(d))),
{
    proof {
        reveal_strlit("~");
        reveal_strlit(",");
    }
    let mut parts: Vec<String> = Vec::new();
    let mut i: usize = 0;
    while i < ds.len()
        invariant
            i <= ds@.len(),
            views(parts@) =~= ds@.subrange(0, i as int).map_values(|d: (bool, LogDomain)| domain_entry(d)),
        decreases ds@.len() - i,
    {
        let (enabled, domain) = ds[i];
        let name = domain.to_arg();
        let entry = if enabled {
            name
        } else {
            concat("~", name.as_str())
        };
        let ghost before = parts@;
        parts.push(entry);
        proof {
            reveal_strlit("~");
            assert("~"@ =~= seq!['~']);
            assert(entry@ == domain_entry(ds@[i as int]));
            assert(views(parts@) =~= views(before).push(entry@));
            assert(ds@.subrange(0, i + 1).map_values(|d: (bool, LogDomain)| domain_entry(d)) =~= ds@.subrange(0, i as int).map_values(|d: (bool, LogDomain)| domain_entry(d)).push(domain_entry(ds@[i as int])));
        }
        i += 1;
    }
    proof {
        assert(ds@.subrange(0, ds@.len() as int) =~= ds@);
        assert(","@ =~= seq![',']);
    }
    join_strings(",", &parts)
}

/// The levels of a `Log` line, separated by spaces.
impl ToArg for Vec<(Vec<(bool, LogDomain)>, LogLevel)> {
    open spec fn arg(&self) -> Seq<char> {
        join(seq![' '], self@.map_values(|e: (Vec<(bool, LogDomain)>, LogLevel)| level_entry(e)))
    }

    fn to_arg(&self) -> (r: String) {
        proof {
            reveal_strlit("[");
            reveal_strlit("]");
            reveal_strlit(" ");
        }
        let mut parts: Vec<String> = Vec::new();
        let mut i: usize = 0;
        while i < self.len()
            invariant
                i <= self@.len(),
                views(parts@) =~= self@.subrange(0, i as int).map_values(|e: (Vec<(bool, LogDomain)>, LogLevel)| level_entry(e)),
            decreases self@.len() - i,
        {
            let ds = domain_list(&self[i].0);
            let level = self[i].1.to_arg();
            let entry = if ds.unicode_len() == 0 {
                level
            } else {
                let mut e = concat("[", ds.as_str());
                e.append("]");
                e.append(level.as_str());
                e
            };
            let ghost before = parts@;
            parts.push(entry);
            proof {
                reveal_strlit("[");
                reveal_strlit("]");
                assert("["@ =~= seq!['[']);
                assert("]"@ =~= seq![']']);
                assert(entry@ == level_entry(self@[i as int]));
                assert(views(parts@) =~= views(before).push(entry@));
                assert(self@.subrange(0, i + 1).map_values(|e: (Vec<(bool, LogDomain)>, LogLevel)| level_entry(e)) =~= self@.subrange(0, i as int).map_values(|e: (Vec<(bool, LogDomain)>, LogLevel)| level_entry(e)).push(level_entry(self@[i as int])));
            }
            i += 1;
        }
        proof {
            assert(self@.subrange(0, self@.len() as int) =~= self@);
            assert(" "@ =~= seq![' ']);
        }
        join_strings(" ", &parts)
    }
}

/// Whether `f` belongs to the `Log` family.
pub open spec fn is_log(f: TorFlag) -> bool {
    f is Log || f is LogTo || f is LogExpanded
}

/// The value of a `Log`-family flag: its levels, then its destination, in
/// lower case.
pub open spec fn log_value(f: TorFlag) -> Seq<char> {
    match f {
        TorFlag::Log(l) => l.arg(),
        TorFlag::LogTo(l, d) => l.arg() + seq![' '] + d.lower_arg(),
        TorFlag::LogExpanded(v, d) => v.arg() + seq![' '] + d.lower_arg(),
        _ => Seq::empty(),
    }
}

/// The complete command-line text of a `Log`-family flag:
/// `Log "<levels>[ <destination>]"`.
pub open spec fn log_line(f: TorFlag) -> Seq<char> {
    seq!['L', 'o', 'g', ' ', '"'] + log_value(f) + seq!['"']
}

/// The value of a `Log`, `LogTo` or `LogExpanded` flag, unquoted.
pub fn log_value_text(flag: &TorFlag) -> (r: String)
    requires
        is_log(*flag),
    ensures
        r@ == log_value(*flag),
{
    proof {
        reveal_strlit(" ");
    }
    let mut r = String::new();
    match flag {
        TorFlag::Log(l) => {
            let levels = l.to_arg();
            r.append(levels.as_str());
        },
        TorFlag::LogTo(l, d) => {
            let levels = l.to_arg();
            r.append(levels.as_str());
            r.append(" ");
            let dest = d.to_lower_arg();
            r.append(dest.as_str());
        },
        TorFlag::LogExpanded(v, d) => {
            let levels = v.to_arg();
            r.append(levels.as_str());
            r.append(" ");
            let dest = d.to_lower_arg();
            r.append(dest.as_str());
        },
        _ => {},
    }
    proof {
        assert(" "@ =~= seq![' ']);
        assert(r@ =~= log_value(*flag));
    }
    r
}

/// Renders a `Log`, `LogTo` or `LogExpanded` flag to its final text; the
/// result is used as it is.
pub fn log_expand(flag: &TorFlag) -> (r: String)
    requires
        is_log(*flag),
    ensures
        r@ == log_line(*flag),
{
    proof {
        reveal_strlit("Log \"");
        reveal_strlit("\"");
    }
    let value = log_value_text(flag);
    let mut r = text_of("Log \"");
    r.append(value.as_str());
    r.append("\"");
    proof {
        assert("Log \""@ =~= seq!['L', 'o', 'g', ' ', '"']);
        assert("\""@ =~= seq!['"']);
        assert(r@ =~= log_line(*flag));
    }
    r
}

// ---------------------------------------------------------------------------
// Declarations and rendering

/// The tokens of a flag: what its declaration gives for its field texts; the
/// `log_expand` function renders the `Log` family.
pub open spec fn flag_tokens(f: TorFlag) -> Seq<Seq<char>> {
    match declared_outcome(flag_declaration(flag_tag(f)), f.field_args()) {
        OutcomeView::Tokens(t) => t,
        OutcomeView::Custom(name) => if name == "log_expand"@ && is_log(f) {
            seq![log_line(f)]
        } else {
            Seq::empty()
        },
        OutcomeView::Unrendered => Seq::empty(),
    }
}

/// A `Log`-family flag whose declaration names `log_expand` renders to the
/// one token that the function returns, and the assembler hands that text on
/// unchanged.
pub proof fn custom_text_bypasses_assembler(f: TorFlag)
    requires
        is_log(f),
        declared_outcome(flag_declaration(flag_tag(f)), f.field_args()) == OutcomeView::Custom("log_expand"@),
    ensures
        flag_tokens(f) == seq![log_line(f)],
        crate::render::cli_joined(flag_tokens(f)) == log_line(f),
{
}

proof fn lemma_plain_fields_load(n: nat)
    ensures
        load_fields(plain_fields(n)) == Ok::<Seq<FieldView>, (Seq<char>, SyntaxErrorKind)>(
            Seq::new(n, |i: int| FieldView { label: None, ignore: false }),
        ),
    decreases n,
{
    let fv = Seq::new(n, |i: int| FieldView { label: None, ignore: false });
    if n == 0 {
        assert(fv =~= Seq::<FieldView>::empty());
    } else {
        lemma_plain_fields_load((n - 1) as nat);
        assert(plain_fields(n).drop_last() =~= plain_fields((n - 1) as nat));
        assert(plain_fields(n).last().annotations =~= Seq::<Seq<char>>::empty());
        assert(Seq::new((n - 1) as nat, |i: int| FieldView { label: None, ignore: false }).push(FieldView { label: None, ignore: false }) =~= fv);
    }
}

proof fn lemma_plain_fields_shown(n: nat)
    ensures
        shown(Seq::new(n, |i: int| FieldView { label: None, ignore: false })) == Seq::new(n, |i: int| i as nat),
    decreases n,
{
    let fv = Seq::new(n, |i: int| FieldView { label: None, ignore: false });
    if n == 0 {
        assert(Seq::new(n, |i: int| i as nat) =~= Seq::<nat>::empty());
    } else {
        lemma_plain_fields_shown((n - 1) as nat);
        assert(fv.drop_last() =~= Seq::new((n - 1) as nat, |i: int| FieldView { label: None, ignore: false }));
        assert(Seq::new((n - 1) as nat, |i: int| i as nat).push((n - 1) as nat) =~= Seq::new(n, |i: int| i as nat));
    }
}

/// A positional flag declared without annotations renders by the default
/// strategy: its name, then the texts of all its fields joined by spaces.
pub proof fn plain_flags_render_by_default(f: TorFlag)
    requires
        flag_annotations(flag_tag(f)) == Seq::<Seq<char>>::empty(),
        flag_shape(flag_tag(f)) == Shape::Positional,
    ensures
        flag_tokens(f) == seq![flag_name(flag_tag(f)), join(seq![' '], f.field_args())],
{
    let tag = flag_tag(f);
    let n = flag_arity(tag);
    let decl = flag_declaration(tag);
    let fv = Seq::new(n, |i: int| FieldView { label: None, ignore: false });
    lemma_plain_fields_load(n);
    lemma_plain_fields_shown(n);
    flag_arity_matches_declaration(f);
    assert(load_directives(decl.annotations) == Ok::<Seq<DirectiveView>, (Seq<char>, SyntaxErrorKind)>(Seq::empty()));
    let v = VariantView { name: flag_name(tag), shape: Shape::Positional, fields: fv, directives: Seq::empty() };
    assert(load_variant(decl) == Ok::<VariantView, SyntaxErrorView>(v));
    assert(shape_fits(Shape::Positional, fv));
    let ks = Seq::new(n, |i: int| i as nat);
    assert(resolve(v) == Ok::<StrategyView, GenErrorKind>(StrategyView::DefaultPositional(flag_name(tag), ks)));
    assert(select(ks, f.field_args()) =~= f.field_args());
}

/// Every flag carries one text per declared field, ignored or not: the
/// constructor's arity is the declaration's.
#[verifier::rlimit(50)]
pub proof fn flag_arity_matches_declaration(f: TorFlag)
    ensures
        f.field_args().len() == flag_declaration(flag_tag(f)).fields.len(),
{
    assert(flag_declaration(flag_tag(f)).fields.len() == flag_arity(flag_tag(f)));
    assert(f.field_args().len() == flag_arity(flag_tag(f)));
}

/// The arguments that a flag gives the Tor daemon, which reads an option's
/// name and its value as separate arguments: a flag that `log_expand`
/// renders gives `Log` and its unquoted value; any other flag its tokens.
pub open spec fn flag_daemon_args(f: TorFlag) -> Seq<Seq<char>> {
    match declared_outcome(flag_declaration(flag_tag(f)), f.field_args()) {
        OutcomeView::Custom(name) => if name == "log_expand"@ && is_log(f) {
            seq![seq!['L', 'o', 'g'], log_value(f)]
        } else {
            Seq::empty()
        },
        _ => flag_tokens(f),
    }
}

impl TorFlag {
    /// The arguments that this flag gives the Tor daemon.
    pub fn daemon_args(&self) -> (r: Vec<String>)
        ensures
            views(r@) == flag_daemon_args(*self),
    {
        let decl = TorFlag::declaration(self.tag());
        let vals = self.field_texts();
        match render_declaration(&decl, &vals) {
            Outcome::Tokens(t) => t,
            Outcome::Custom(f) => {
                if f == text_of("log_expand") && self.is_log() {
                    proof {
                        reveal_strlit("Log");
                    }
                    let r = vec![text_of("Log"), log_value_text(self)];
                    assert("Log"@ =~= seq!['L', 'o', 'g']);
                    assert(views(r@) =~= seq![seq!['L', 'o', 'g'], log_value(*self)]);
                    r
                } else {
                    let r: Vec<String> = Vec::new();
                    assert(views(r@) =~= Seq::<Seq<char>>::empty());
                    r
                }
            },
            Outcome::Unrendered => {
                let r: Vec<String> = Vec::new();
                assert(views(r@) =~= Seq::<Seq<char>>::empty());
                r
            },
        }
    }

    /// The declaration of the variant at `tag`.
    pub fn declaration(tag: usize) -> (r: AnnotatedVariant)
        ensures
            r@ == flag_declaration(tag as nat),
    {
        let n = flag_arity_exec(tag);
        let mut fields: Vec<AnnotatedField> = Vec::new();
        let mut i: usize = 0;
        while i < n
            invariant
                i <= n,
                annotated_field_views(fields@) =~= plain_fields(i as nat),
            decreases n - i,
        {
            let f = AnnotatedField { label: None, annotations: Vec::new() };
            proof {
                assert(views(f.annotations@) =~= Seq::<Seq<char>>::empty());
            }
            let ghost before = fields@;
            fields.push(f);
            proof {
                assert(annotated_field_views(fields@) =~= annotated_field_views(before).push(f@));
            }
            i += 1;
        }
        AnnotatedVariant {
            name: text_of(flag_name_exec(tag)),
            shape: flag_shape_exec(tag),
            fields,
            annotations: flag_annotations_exec(tag),
        }
    }

    /// The declarations of all variants, in declaration order.
    pub fn schema() -> (r: Vec<AnnotatedVariant>)
        ensures
            r@.len() == FLAG_COUNT,
            forall|k: int| 0 <= k < FLAG_COUNT ==> (#[trigger] r@[k])@ == flag_declaration(k as nat),
    {
        let mut r: Vec<AnnotatedVariant> = Vec::new();
        let mut tag: usize = 0;
        while tag < FLAG_COUNT
            invariant
                tag <= FLAG_COUNT,
                r@.len() == tag,
                forall|k: int| 0 <= k < tag ==> (#[trigger] r@[k])@ == flag_declaration(k as nat),
            decreases FLAG_COUNT - tag,
        {
            r.push(TorFlag::declaration(tag));
            tag += 1;
        }
        r
    }

    /// Whether this flag belongs to the `Log` family.
    pub fn is_log(&self) -> (r: bool)
        ensures
            r == is_log(*self),
    {
        match self {
            TorFlag::Log(_) | TorFlag::LogTo(_, _) | TorFlag::LogExpanded(_, _) => true,
            _ => false,
        }
    }
}

impl Expand for TorFlag {
    open spec fn tokens(&self) -> Seq<Seq<char>> {
        flag_tokens(*self)
    }

    fn expand(&self) -> (r: Vec<String>) {
        let decl = TorFlag::declaration(self.tag());
        let vals = self.field_texts();
        match render_declaration(&decl, &vals) {
            Outcome::Tokens(t) => t,
            Outcome::Custom(f) => {
                if f == text_of("log_expand") && self.is_log() {
                    let r = vec![log_expand(self)];
                    assert(views(r@) =~= seq![log_line(*self)]);
                    r
                } else {
                    let r: Vec<String> = Vec::new();
                    assert(views(r@) =~= Seq::<Seq<char>>::empty());
                    r
                }
            },
            Outcome::Unrendered => {
                let r: Vec<String> = Vec::new();
                assert(views(r@) =~= Seq::<Seq<char>>::empty());
                r
            },
        }
    }
}


fn texts0() -> (r: Vec<String>)
    ensures
        views(r@) == Seq::<Seq<char>>::empty(),
{
    let r: Vec<String> = Vec::new();
    assert(views(r@) =~= Seq::<Seq<char>>::empty());
    r
}

fn texts1<A: ToArg>(a: &A) -> (r: Vec<String>)
    ensures
        views(r@) == seq![a.arg()],
{
    let r = vec![a.to_arg()];
    assert(views(r@) =~= seq![a.arg()]);
    r
}

fn texts2<A: ToArg, B: ToArg>(a: &A, b: &B) -> (r: Vec<String>)
    ensures
        views(r@) == seq![a.arg(), b.arg()],
{
    let r = vec![a.to_arg(), b.to_arg()];
    assert(views(r@) =~= seq![a.arg(), b.arg()]);
    r
}

fn texts3<A: ToArg, B: ToArg, C: ToArg>(a: &A, b: &B, c: &C) -> (r: Vec<String>)
    ensures
        views(r@) == seq![a.arg(), b.arg(), c.arg()],
{
    let r = vec![a.to_arg(), b.to_arg(), c.to_arg()];
    assert(views(r@) =~= seq![a.arg(), b.arg(), c.arg()]);
    r
}
/// The number of variants of [`TorFlag`].
pub const FLAG_COUNT: usize = 74;

/// A subset of Tor's options. Server-only options are left out; anything else
/// can be passed through `TorFlag::Custom`.
#[derive(Clone, Debug)]
pub enum TorFlag {
    ConfigFile(String),
    PassphraseFD(u32),
    BandwidthRate(usize, SizeUnit),
    BandwidthBurst(usize, SizeUnit),
    DisableNetwork(TorBool),
    ControlPort(u16),
    ControlPortAuto,
    ControlPortAddress(TorAddress, DisplayOption<DisplayVec<ControlPortFlag, SpaceJoiner>>),
    ControlSocket(String),
    ControlSocketsGroupWritable(TorBool),
    HashedControlPassword(String),
    CookieAuthentication(TorBool),
    CookieAuthFile(String),
    CookieAuthFileGroupReadable(TorBool),
    ControlPortWriteToFile(String),
    ControlPortFileGroupReadable(TorBool),
    DataDirectory(String),
    DataDirectoryGroupReadable(TorBool),
    CacheDirectory(String),
    CacheDirectoryGroupReadable(String),
    HTTPSProxy(String),
    HTTPSProxyAuthenticator(String, String),
    Socks4Proxy(String),
    Socks5Proxy(String),
    Socks5ProxyUsername(String),
    Socks5ProxyPassword(String),
    UnixSocksGroupWritable(TorBool),
    KeepalivePeriod(usize),
    Log(LogLevel),
    LogTo(LogLevel, LogDestination),
    LogExpanded(Vec<(Vec<(bool, LogDomain)>, LogLevel)>, LogDestination),
    LogMessageDomains(TorBool),
    LogTimeGranularity(usize),
    TruncateLogFile(TorBool),
    SyslogIdentityTag(String),
    AndroidIdentityTag(String),
    SafeLogging(TorBool),
    PidFile(String),
    ProtocolWarnings(TorBool),
    User(String),
    NoExec(TorBool),
    Bridge(String, String, String),
    ConnectionPadding(TorBool),
    ReducedConnectionPadding(TorBool),
    CircuitPadding(TorBool),
    ReducedCircuitPadding(TorBool),
    ExcludeNodes(DisplayVec<String, CommaJoiner>),
    ExcludeExitNodes(DisplayVec<String, CommaJoiner>),
    ExitNodes(DisplayVec<String, CommaJoiner>),
    MiddleNodes(DisplayVec<String, CommaJoiner>),
    EntryNodes(DisplayVec<String, CommaJoiner>),
    StrictNodes(TorBool),
    FascistFirewall(TorBool),
    FirewallPorts(DisplayVec<u16, CommaJoiner>),
    MapAddress(String, String),
    NewCircuitPeriod(usize),
    SocksPort(u16),
    SocksPortAuto,
    SocksPortAddress(TorAddress, DisplayOption<DisplayVec<SocksPortFlag, SpaceJoiner>>, DisplayOption<DisplayVec<SocksPortIsolationFlag, SpaceJoiner>>),
    SocksTimeout(usize),
    SafeSocks(TorBool),
    TestSocks(TorBool),
    UpdateBridgesFromAuthority(TorBool),
    UseBridges(TorBool),
    HiddenServiceDir(String),
    HiddenServicePort(TorAddress, DisplayOption<TorAddress>),
    HiddenServiceVersion(HiddenServiceVersion),
    HiddenServiceAuthorizeClient(HiddenServiceAuthType, DisplayVec<String, CommaJoiner>),
    HiddenServiceAllowUnknownPorts(TorBool),
    HiddenServiceMaxStreams(usize),
    HiddenServiceMaxStreamsCloseCircuit(TorBool),
    /// Any argument, expanded as `<first_word> "<second_word> <third_word> ..."`.
    Custom(String),
    /// Log nothing to the console.
    Quiet(),
    /// Log only warnings and errors to the console.
    Hush(),
}

/// The declaration index of a flag's variant.
pub open spec fn flag_tag(f: TorFlag) -> nat {
    match f {
        TorFlag::ConfigFile(..) => 0,
        TorFlag::PassphraseFD(..) => 1,
        TorFlag::BandwidthRate(..) => 2,
        TorFlag::BandwidthBurst(..) => 3,
        TorFlag::DisableNetwork(..) => 4,
        TorFlag::ControlPort(..) => 5,
        TorFlag::ControlPortAuto => 6,
        TorFlag::ControlPortAddress(..) => 7,
        TorFlag::ControlSocket(..) => 8,
        TorFlag::ControlSocketsGroupWritable(..) => 9,
        TorFlag::HashedControlPassword(..) => 10,
        TorFlag::CookieAuthentication(..) => 11,
        TorFlag::CookieAuthFile(..) => 12,
        TorFlag::CookieAuthFileGroupReadable(..) => 13,
        TorFlag::ControlPortWriteToFile(..) => 14,
        TorFlag::ControlPortFileGroupReadable(..) => 15,
        TorFlag::DataDirectory(..) => 16,
        TorFlag::DataDirectoryGroupReadable(..) => 17,
        TorFlag::CacheDirectory(..) => 18,
        TorFlag::CacheDirectoryGroupReadable(..) => 19,
        TorFlag::HTTPSProxy(..) => 20,
        TorFlag::HTTPSProxyAuthenticator(..) => 21,
        TorFlag::Socks4Proxy(..) => 22,
        TorFlag::Socks5Proxy(..) => 23,
        TorFlag::Socks5ProxyUsername(..) => 24,
        TorFlag::Socks5ProxyPassword(..) => 25,
        TorFlag::UnixSocksGroupWritable(..) => 26,
        TorFlag::KeepalivePeriod(..) => 27,
        TorFlag::Log(..) => 28,
        TorFlag::LogTo(..) => 29,
        TorFlag::LogExpanded(..) => 30,
        TorFlag::LogMessageDomains(..) => 31,
        TorFlag::LogTimeGranularity(..) => 32,
        TorFlag::TruncateLogFile(..) => 33,
        TorFlag::SyslogIdentityTag(..) => 34,
        TorFlag::AndroidIdentityTag(..) => 35,
        TorFlag::SafeLogging(..) => 36,
        TorFlag::PidFile(..) => 37,
        TorFlag::ProtocolWarnings(..) => 38,
        TorFlag::User(..) => 39,
        TorFlag::NoExec(..) => 40,
        TorFlag::Bridge(..) => 41,
        TorFlag::ConnectionPadding(..) => 42,
        TorFlag::ReducedConnectionPadding(..) => 43,
        TorFlag::CircuitPadding(..) => 44,
        TorFlag::ReducedCircuitPadding(..) => 45,
        TorFlag::ExcludeNodes(..) => 46,
        TorFlag::ExcludeExitNodes(..) => 47,
        TorFlag::ExitNodes(..) => 48,
        TorFlag::MiddleNodes(..) => 49,
        TorFlag::EntryNodes(..) => 50,
        TorFlag::StrictNodes(..) => 51,
        TorFlag::FascistFirewall(..) => 52,
        TorFlag::FirewallPorts(..) => 53,
        TorFlag::MapAddress(..) => 54,
        TorFlag::NewCircuitPeriod(..) => 55,
        TorFlag::SocksPort(..) => 56,
        TorFlag::SocksPortAuto => 57,
        TorFlag::SocksPortAddress(..) => 58,
        TorFlag::SocksTimeout(..) => 59,
        TorFlag::SafeSocks(..) => 60,
        TorFlag::TestSocks(..) => 61,
        TorFlag::UpdateBridgesFromAuthority(..) => 62,
        TorFlag::UseBridges(..) => 63,
        TorFlag::HiddenServiceDir(..) => 64,
        TorFlag::HiddenServicePort(..) => 65,
        TorFlag::HiddenServiceVersion(..) => 66,
        TorFlag::HiddenServiceAuthorizeClient(..) => 67,
        TorFlag::HiddenServiceAllowUnknownPorts(..) => 68,
        TorFlag::HiddenServiceMaxStreams(..) => 69,
        TorFlag::HiddenServiceMaxStreamsCloseCircuit(..) => 70,
        TorFlag::Custom(..) => 71,
        TorFlag::Quiet(..) => 72,
        TorFlag::Hush(..) => 73,
    }
}

/// The name of the variant declared at `tag`.
pub open spec fn flag_name(tag: nat) -> Seq<char> {
    if tag == 0 {
        "ConfigFile"@
    } else if tag == 1 {
        "PassphraseFD"@
    } else if tag == 2 {
        "BandwidthRate"@
    } else if tag == 3 {
        "BandwidthBurst"@
    } else if tag == 4 {
        "DisableNetwork"@
    } else if tag == 5 {
        "ControlPort"@
    } else if tag == 6 {
        "ControlPortAuto"@
    } else if tag == 7 {
        "ControlPortAddress"@
    } else if tag == 8 {
        "ControlSocket"@
    } else if tag == 9 {
        "ControlSocketsGroupWritable"@
    } else if tag == 10 {
        "HashedControlPassword"@
    } else if tag == 11 {
        "CookieAuthentication"@
    } else if tag == 12 {
        "CookieAuthFile"@
    } else if tag == 13 {
        "CookieAuthFileGroupReadable"@
    } else if tag == 14 {
        "ControlPortWriteToFile"@
    } else if tag == 15 {
        "ControlPortFileGroupReadable"@
    } else if tag == 16 {
        "DataDirectory"@
    } else if tag == 17 {
        "DataDirectoryGroupReadable"@
    } else if tag == 18 {
        "CacheDirectory"@
    } else if tag == 19 {
        "CacheDirectoryGroupReadable"@
    } else if tag == 20 {
        "HTTPSProxy"@
    } else if tag == 21 {
        "HTTPSProxyAuthenticator"@
    } else if tag == 22 {
        "Socks4Proxy"@
    } else if tag == 23 {
        "Socks5Proxy"@
    } else if tag == 24 {
        "Socks5ProxyUsername"@
    } else if tag == 25 {
        "Socks5ProxyPassword"@
    } else if tag == 26 {
        "UnixSocksGroupWritable"@
    } else if tag == 27 {
        "KeepalivePeriod"@
    } else if tag == 28 {
        "Log"@
    } else if tag == 29 {
        "LogTo"@
    } else if tag == 30 {
        "LogExpanded"@
    } else if tag == 31 {
        "LogMessageDomains"@
    } else if tag == 32 {
        "LogTimeGranularity"@
    } else if tag == 33 {
        "TruncateLogFile"@
    } else if tag == 34 {
        "SyslogIdentityTag"@
    } else if tag == 35 {
        "AndroidIdentityTag"@
    } else if tag == 36 {
        "SafeLogging"@
    } else if tag == 37 {
        "PidFile"@
    } else if tag == 38 {
        "ProtocolWarnings"@
    } else if tag == 39 {
        "User"@
    } else if tag == 40 {
        "NoExec"@
    } else if tag == 41 {
        "Bridge"@
    } else if tag == 42 {
        "ConnectionPadding"@
    } else if tag == 43 {
        "ReducedConnectionPadding"@
    } else if tag == 44 {
        "CircuitPadding"@
    } else if tag == 45 {
        "ReducedCircuitPadding"@
    } else if tag == 46 {
        "ExcludeNodes"@
    } else if tag == 47 {
        "ExcludeExitNodes"@
    } else if tag == 48 {
        "ExitNodes"@
    } else if tag == 49 {
        "MiddleNodes"@
    } else if tag == 50 {
        "EntryNodes"@
    } else if tag == 51 {
        "StrictNodes"@
    } else if tag == 52 {
        "FascistFirewall"@
    } else if tag == 53 {
        "FirewallPorts"@
    } else if tag == 54 {
        "MapAddress"@
    } else if tag == 55 {
        "NewCircuitPeriod"@
    } else if tag == 56 {
        "SocksPort"@
    } else if tag == 57 {
        "SocksPortAuto"@
    } else if tag == 58 {
        "SocksPortAddress"@
    } else if tag == 59 {
        "SocksTimeout"@
    } else if tag == 60 {
        "SafeSocks"@
    } else if tag == 61 {
        "TestSocks"@
    } else if tag == 62 {
        "UpdateBridgesFromAuthority"@
    } else if tag == 63 {
        "UseBridges"@
    } else if tag == 64 {
        "HiddenServiceDir"@
    } else if tag == 65 {
        "HiddenServicePort"@
    } else if tag == 66 {
        "HiddenServiceVersion"@
    } else if tag == 67 {
        "HiddenServiceAuthorizeClient"@
    } else if tag == 68 {
        "HiddenServiceAllowUnknownPorts"@
    } else if tag == 69 {
        "HiddenServiceMaxStreams"@
    } else if tag == 70 {
        "HiddenServiceMaxStreamsCloseCircuit"@
    } else if tag == 71 {
        "Custom"@
    } else if tag == 72 {
        "Quiet"@
    } else {
        "Hush"@
    }
}

/// The number of fields of the variant declared at `tag`.
pub open spec fn flag_arity(tag: nat) -> nat {
    if tag == 6 || tag == 57 || tag == 72 || tag == 73 {
        0
    } else if tag == 2 || tag == 3 || tag == 7 || tag == 21 || tag == 29 || tag == 30 || tag == 54 || tag == 65 || tag == 67 {
        2
    } else if tag == 41 || tag == 58 {
        3
    } else {
        1
    }
}

/// The shape of the variant declared at `tag`.
pub open spec fn flag_shape(tag: nat) -> Shape {
    if tag == 6 || tag == 57 {
        Shape::Unit
    } else {
        Shape::Positional
    }
}

/// The annotations of the variant declared at `tag`.
pub open spec fn flag_annotations(tag: nat) -> Seq<Seq<char>> {
    if tag == 0 {
        seq!["\"-f {}\""@, "test = (\"filename\".into()) => \"-f \\\"filename\\\"\""@]
    } else if tag == 1 {
        seq!["\"--passphrase-fd {}\""@]
    } else if tag == 2 {
        seq!["test = (256, SizeUnit::MBits) => \"BandwidthRate \\\"256 MBits\\\"\""@]
    } else if tag == 4 {
        seq!["test = (true.into()) => \"DisableNetwork \\\"1\\\"\""@]
    } else if tag == 6 {
        seq!["\"ControlPort auto\""@]
    } else if tag == 7 {
        seq!["\"ControlPort {} {}\""@, "test = (TorAddress::Unix(\"/tmp/tor-cp\".into()), Some(vec![ControlPortFlag::GroupWritable].into()).into()) => \"ControlPort \\\"unix:/tmp/tor-cp GroupWritable\\\"\""@, "test = (TorAddress::Unix(\"/tmp/tor-cp\".into()), Some(vec![ControlPortFlag::GroupWritable, ControlPortFlag::RelaxDirModeCheck].into()).into()) => \"ControlPort \\\"unix:/tmp/tor-cp GroupWritable RelaxDirModeCheck\\\"\""@]
    } else if tag == 21 {
        seq!["\"HTTPSProxyAuthenticator {}:{}\""@, "test = (\"user\".into(), \"pass\".into()) => \"HTTPSProxyAuthenticator \\\"user:pass\\\"\""@]
    } else if tag == 28 {
        seq!["with = \"log_expand\""@, "test = (LogLevel::Notice) => \"Log \\\"notice\\\"\""@]
    } else if tag == 29 {
        seq!["with = \"log_expand\""@, "test = (LogLevel::Notice, LogDestination::File(\"/dev/null\".into())) => \"Log \\\"notice file /dev/null\\\"\""@, "test = (LogLevel::Notice, LogDestination::Stdout) => \"Log \\\"notice stdout\\\"\""@]
    } else if tag == 30 {
        seq!["with = \"log_expand\""@, "test = (vec![(vec![(true, LogDomain::Handshake)], LogLevel::Debug), (vec![(false, LogDomain::Net), (false, LogDomain::Mm)], LogLevel::Info), (vec![], LogLevel::Notice)], LogDestination::Stdout) => \"Log \\\"[handshake]debug [~net,~mm]info notice stdout\\\"\""@]
    } else if tag == 57 {
        seq!["\"SocksPort auto\""@]
    } else if tag == 58 {
        seq!["rename = \"SocksPort\""@]
    } else if tag == 67 {
        seq!["\"HiddenServiceAuthorizeClient {} {}\""@]
    } else if tag == 71 {
        seq!["\"{}\""@]
    } else if tag == 72 {
        seq!["\"--quiet\""@]
    } else if tag == 73 {
        seq!["\"--hush\""@]
    } else {
        Seq::empty()
    }
}

/// `n` positional fields without annotations.
pub open spec fn plain_fields(n: nat) -> Seq<AnnotatedFieldView> {
    Seq::new(n, |i: int| AnnotatedFieldView { label: None, annotations: Seq::empty() })
}

/// The declaration of the variant at `tag`: its fields are positional and
/// carry no annotations.
pub open spec fn flag_declaration(tag: nat) -> AnnotatedVariantView {
    AnnotatedVariantView {
        name: flag_name(tag),
        shape: flag_shape(tag),
        fields: plain_fields(flag_arity(tag)),
        annotations: flag_annotations(tag),
    }
}

impl TorFlag {
    /// The texts of the flag's fields, in declaration order.
    pub open spec fn field_args(&self) -> Seq<Seq<char>> {
        match self {
            TorFlag::ConfigFile(f0) => seq![f0.arg()],
            TorFlag::PassphraseFD(f0) => seq![f0.arg()],
            TorFlag::BandwidthRate(f0, f1) => seq![f0.arg(), f1.arg()],
            TorFlag::BandwidthBurst(f0, f1) => seq![f0.arg(), f1.arg()],
            TorFlag::DisableNetwork(f0) => seq![f0.arg()],
            TorFlag::ControlPort(f0) => seq![f0.arg()],
            TorFlag::ControlPortAuto => Seq::empty(),
            TorFlag::ControlPortAddress(f0, f1) => seq![f0.arg(), f1.arg()],
            TorFlag::ControlSocket(f0) => seq![f0.arg()],
            TorFlag::ControlSocketsGroupWritable(f0) => seq![f0.arg()],
            TorFlag::HashedControlPassword(f0) => seq![f0.arg()],
            TorFlag::CookieAuthentication(f0) => seq![f0.arg()],
            TorFlag::CookieAuthFile(f0) => seq![f0.arg()],
            TorFlag::CookieAuthFileGroupReadable(f0) => seq![f0.arg()],
            TorFlag::ControlPortWriteToFile(f0) => seq![f0.arg()],
            TorFlag::ControlPortFileGroupReadable(f0) => seq![f0.arg()],
            TorFlag::DataDirectory(f0) => seq![f0.arg()],
            TorFlag::DataDirectoryGroupReadable(f0) => seq![f0.arg()],
            TorFlag::CacheDirectory(f0) => seq![f0.arg()],
            TorFlag::CacheDirectoryGroupReadable(f0) => seq![f0.arg()],
            TorFlag::HTTPSProxy(f0) => seq![f0.arg()],
            TorFlag::HTTPSProxyAuthenticator(f0, f1) => seq![f0.arg(), f1.arg()],
            TorFlag::Socks4Proxy(f0) => seq![f0.arg()],
            TorFlag::Socks5Proxy(f0) => seq![f0.arg()],
            TorFlag::Socks5ProxyUsername(f0) => seq![f0.arg()],
            TorFlag::Socks5ProxyPassword(f0) => seq![f0.arg()],
            TorFlag::UnixSocksGroupWritable(f0) => seq![f0.arg()],
            TorFlag::KeepalivePeriod(f0) => seq![f0.arg()],
            TorFlag::Log(f0) => seq![f0.arg()],
            TorFlag::LogTo(f0, f1) => seq![f0.arg(), f1.arg()],
            TorFlag::LogExpanded(f0, f1) => seq![f0.arg(), f1.arg()],
            TorFlag::LogMessageDomains(f0) => seq![f0.arg()],
            TorFlag::LogTimeGranularity(f0) => seq![f0.arg()],
            TorFlag::TruncateLogFile(f0) => seq![f0.arg()],
            TorFlag::SyslogIdentityTag(f0) => seq![f0.arg()],
            TorFlag::AndroidIdentityTag(f0) => seq![f0.arg()],
            TorFlag::SafeLogging(f0) => seq![f0.arg()],
            TorFlag::PidFile(f0) => seq![f0.arg()],
            TorFlag::ProtocolWarnings(f0) => seq![f0.arg()],
            TorFlag::User(f0) => seq![f0.arg()],
            TorFlag::NoExec(f0) => seq![f0.arg()],
            TorFlag::Bridge(f0, f1, f2) => seq![f0.arg(), f1.arg(), f2.arg()],
            TorFlag::ConnectionPadding(f0) => seq![f0.arg()],
            TorFlag::ReducedConnectionPadding(f0) => seq![f0.arg()],
            TorFlag::CircuitPadding(f0) => seq![f0.arg()],
            TorFlag::ReducedCircuitPadding(f0) => seq![f0.arg()],
            TorFlag::ExcludeNodes(f0) => seq![f0.arg()],
            TorFlag::ExcludeExitNodes(f0) => seq![f0.arg()],
            TorFlag::ExitNodes(f0) => seq![f0.arg()],
            TorFlag::MiddleNodes(f0) => seq![f0.arg()],
            TorFlag::EntryNodes(f0) => seq![f0.arg()],
            TorFlag::StrictNodes(f0) => seq![f0.arg()],
            TorFlag::FascistFirewall(f0) => seq![f0.arg()],
            TorFlag::FirewallPorts(f0) => seq![f0.arg()],
            TorFlag::MapAddress(f0, f1) => seq![f0.arg(), f1.arg()],
            TorFlag::NewCircuitPeriod(f0) => seq![f0.arg()],
            TorFlag::SocksPort(f0) => seq![f0.arg()],
            TorFlag::SocksPortAuto => Seq::empty(),
            TorFlag::SocksPortAddress(f0, f1, f2) => seq![f0.arg(), f1.arg(), f2.arg()],
            TorFlag::SocksTimeout(f0) => seq![f0.arg()],
            TorFlag::SafeSocks(f0) => seq![f0.arg()],
            TorFlag::TestSocks(f0) => seq![f0.arg()],
            TorFlag::UpdateBridgesFromAuthority(f0) => seq![f0.arg()],
            TorFlag::UseBridges(f0) => seq![f0.arg()],
            TorFlag::HiddenServiceDir(f0) => seq![f0.arg()],
            TorFlag::HiddenServicePort(f0, f1) => seq![f0.arg(), f1.arg()],
            TorFlag::HiddenServiceVersion(f0) => seq![f0.arg()],
            TorFlag::HiddenServiceAuthorizeClient(f0, f1) => seq![f0.arg(), f1.arg()],
            TorFlag::HiddenServiceAllowUnknownPorts(f0) => seq![f0.arg()],
            TorFlag::HiddenServiceMaxStreams(f0) => seq![f0.arg()],
            TorFlag::HiddenServiceMaxStreamsCloseCircuit(f0) => seq![f0.arg()],
            TorFlag::Custom(f0) => seq![f0.arg()],
            TorFlag::Quiet() => seq![],
            TorFlag::Hush() => seq![],
        }
    }

    /// The declaration index of this flag's variant.
    pub fn tag(&self) -> (r: usize)
        ensures
            r as nat == flag_tag(*self),
            r < FLAG_COUNT,
    {
        match self {
            TorFlag::ConfigFile(..) => 0,
            TorFlag::PassphraseFD(..) => 1,
            TorFlag::BandwidthRate(..) => 2,
            TorFlag::BandwidthBurst(..) => 3,
            TorFlag::DisableNetwork(..) => 4,
            TorFlag::ControlPort(..) => 5,
            TorFlag::ControlPortAuto => 6,
            TorFlag::ControlPortAddress(..) => 7,
            TorFlag::ControlSocket(..) => 8,
            TorFlag::ControlSocketsGroupWritable(..) => 9,
            TorFlag::HashedControlPassword(..) => 10,
            TorFlag::CookieAuthentication(..) => 11,
            TorFlag::CookieAuthFile(..) => 12,
            TorFlag::CookieAuthFileGroupReadable(..) => 13,
            TorFlag::ControlPortWriteToFile(..) => 14,
            TorFlag::ControlPortFileGroupReadable(..) => 15,
            TorFlag::DataDirectory(..) => 16,
            TorFlag::DataDirectoryGroupReadable(..) => 17,
            TorFlag::CacheDirectory(..) => 18,
            TorFlag::CacheDirectoryGroupReadable(..) => 19,
            TorFlag::HTTPSProxy(..) => 20,
            TorFlag::HTTPSProxyAuthenticator(..) => 21,
            TorFlag::Socks4Proxy(..) => 22,
            TorFlag::Socks5Proxy(..) => 23,
            TorFlag::Socks5ProxyUsername(..) => 24,
            TorFlag::Socks5ProxyPassword(..) => 25,
            TorFlag::UnixSocksGroupWritable(..) => 26,
            TorFlag::KeepalivePeriod(..) => 27,
            TorFlag::Log(..) => 28,
            TorFlag::LogTo(..) => 29,
            TorFlag::LogExpanded(..) => 30,
            TorFlag::LogMessageDomains(..) => 31,
            TorFlag::LogTimeGranularity(..) => 32,
            TorFlag::TruncateLogFile(..) => 33,
            TorFlag::SyslogIdentityTag(..) => 34,
            TorFlag::AndroidIdentityTag(..) => 35,
            TorFlag::SafeLogging(..) => 36,
            TorFlag::PidFile(..) => 37,
            TorFlag::ProtocolWarnings(..) => 38,
            TorFlag::User(..) => 39,
            TorFlag::NoExec(..) => 40,
            TorFlag::Bridge(..) => 41,
            TorFlag::ConnectionPadding(..) => 42,
            TorFlag::ReducedConnectionPadding(..) => 43,
            TorFlag::CircuitPadding(..) => 44,
            TorFlag::ReducedCircuitPadding(..) => 45,
            TorFlag::ExcludeNodes(..) => 46,
            TorFlag::ExcludeExitNodes(..) => 47,
            TorFlag::ExitNodes(..) => 48,
            TorFlag::MiddleNodes(..) => 49,
            TorFlag::EntryNodes(..) => 50,
            TorFlag::StrictNodes(..) => 51,
            TorFlag::FascistFirewall(..) => 52,
            TorFlag::FirewallPorts(..) => 53,
            TorFlag::MapAddress(..) => 54,
            TorFlag::NewCircuitPeriod(..) => 55,
            TorFlag::SocksPort(..) => 56,
            TorFlag::SocksPortAuto => 57,
            TorFlag::SocksPortAddress(..) => 58,
            TorFlag::SocksTimeout(..) => 59,
            TorFlag::SafeSocks(..) => 60,
            TorFlag::TestSocks(..) => 61,
            TorFlag::UpdateBridgesFromAuthority(..) => 62,
            TorFlag::UseBridges(..) => 63,
            TorFlag::HiddenServiceDir(..) => 64,
            TorFlag::HiddenServicePort(..) => 65,
            TorFlag::HiddenServiceVersion(..) => 66,
            TorFlag::HiddenServiceAuthorizeClient(..) => 67,
            TorFlag::HiddenServiceAllowUnknownPorts(..) => 68,
            TorFlag::HiddenServiceMaxStreams(..) => 69,
            TorFlag::HiddenServiceMaxStreamsCloseCircuit(..) => 70,
            TorFlag::Custom(..) => 71,
            TorFlag::Quiet(..) => 72,
            TorFlag::Hush(..) => 73,
        }
    }

    /// The texts of this flag's fields, in declaration order.
    pub fn field_texts(&self) -> (r: Vec<String>)
        ensures
            views(r@) == self.field_args(),
    {
        match self {
            TorFlag::ConfigFile(f0) => texts1(f0),
            TorFlag::PassphraseFD(f0) => texts1(f0),
            TorFlag::BandwidthRate(f0, f1) => texts2(f0, f1),
            TorFlag::BandwidthBurst(f0, f1) => texts2(f0, f1),
            TorFlag::DisableNetwork(f0) => texts1(f0),
            TorFlag::ControlPort(f0) => texts1(f0),
            TorFlag::ControlPortAuto => texts0(),
            TorFlag::ControlPortAddress(f0, f1) => texts2(f0, f1),
            TorFlag::ControlSocket(f0) => texts1(f0),
            TorFlag::ControlSocketsGroupWritable(f0) => texts1(f0),
            TorFlag::HashedControlPassword(f0) => texts1(f0),
            TorFlag::CookieAuthentication(f0) => texts1(f0),
            TorFlag::CookieAuthFile(f0) => texts1(f0),
            TorFlag::CookieAuthFileGroupReadable(f0) => texts1(f0),
            TorFlag::ControlPortWriteToFile(f0) => texts1(f0),
            TorFlag::ControlPortFileGroupReadable(f0) => texts1(f0),
            TorFlag::DataDirectory(f0) => texts1(f0),
            TorFlag::DataDirectoryGroupReadable(f0) => texts1(f0),
            TorFlag::CacheDirectory(f0) => texts1(f0),
            TorFlag::CacheDirectoryGroupReadable(f0) => texts1(f0),
            TorFlag::HTTPSProxy(f0) => texts1(f0),
            TorFlag::HTTPSProxyAuthenticator(f0, f1) => texts2(f0, f1),
            TorFlag::Socks4Proxy(f0) => texts1(f0),
            TorFlag::Socks5Proxy(f0) => texts1(f0),
            TorFlag::Socks5ProxyUsername(f0) => texts1(f0),
            TorFlag::Socks5ProxyPassword(f0) => texts1(f0),
            TorFlag::UnixSocksGroupWritable(f0) => texts1(f0),
            TorFlag::KeepalivePeriod(f0) => texts1(f0),
            TorFlag::Log(f0) => texts1(f0),
            TorFlag::LogTo(f0, f1) => texts2(f0, f1),
            TorFlag::LogExpanded(f0, f1) => texts2(f0, f1),
            TorFlag::LogMessageDomains(f0) => texts1(f0),
            TorFlag::LogTimeGranularity(f0) => texts1(f0),
            TorFlag::TruncateLogFile(f0) => texts1(f0),
            TorFlag::SyslogIdentityTag(f0) => texts1(f0),
            TorFlag::AndroidIdentityTag(f0) => texts1(f0),
            TorFlag::SafeLogging(f0) => texts1(f0),
            TorFlag::PidFile(f0) => texts1(f0),
            TorFlag::ProtocolWarnings(f0) => texts1(f0),
            TorFlag::User(f0) => texts1(f0),
            TorFlag::NoExec(f0) => texts1(f0),
            TorFlag::Bridge(f0, f1, f2) => texts3(f0, f1, f2),
            TorFlag::ConnectionPadding(f0) => texts1(f0),
            TorFlag::ReducedConnectionPadding(f0) => texts1(f0),
            TorFlag::CircuitPadding(f0) => texts1(f0),
            TorFlag::ReducedCircuitPadding(f0) => texts1(f0),
            TorFlag::ExcludeNodes(f0) => texts1(f0),
            TorFlag::ExcludeExitNodes(f0) => texts1(f0),
            TorFlag::ExitNodes(f0) => texts1(f0),
            TorFlag::MiddleNodes(f0) => texts1(f0),
            TorFlag::EntryNodes(f0) => texts1(f0),
            TorFlag::StrictNodes(f0) => texts1(f0),
            TorFlag::FascistFirewall(f0) => texts1(f0),
            TorFlag::FirewallPorts(f0) => texts1(f0),
            TorFlag::MapAddress(f0, f1) => texts2(f0, f1),
            TorFlag::NewCircuitPeriod(f0) => texts1(f0),
            TorFlag::SocksPort(f0) => texts1(f0),
            TorFlag::SocksPortAuto => texts0(),
            TorFlag::SocksPortAddress(f0, f1, f2) => texts3(f0, f1, f2),
            TorFlag::SocksTimeout(f0) => texts1(f0),
            TorFlag::SafeSocks(f0) => texts1(f0),
            TorFlag::TestSocks(f0) => texts1(f0),
            TorFlag::UpdateBridgesFromAuthority(f0) => texts1(f0),
            TorFlag::UseBridges(f0) => texts1(f0),
            TorFlag::HiddenServiceDir(f0) => texts1(f0),
            TorFlag::HiddenServicePort(f0, f1) => texts2(f0, f1),
            TorFlag::HiddenServiceVersion(f0) => texts1(f0),
            TorFlag::HiddenServiceAuthorizeClient(f0, f1) => texts2(f0, f1),
            TorFlag::HiddenServiceAllowUnknownPorts(f0) => texts1(f0),
            TorFlag::HiddenServiceMaxStreams(f0) => texts1(f0),
            TorFlag::HiddenServiceMaxStreamsCloseCircuit(f0) => texts1(f0),
            TorFlag::Custom(f0) => texts1(f0),
            TorFlag::Quiet() => texts0(),
            TorFlag::Hush() => texts0(),
        }
    }

}

fn flag_name_exec(tag: usize) -> (r: &'static str)
    ensures
        r@ == flag_name(tag as nat),
{
    if tag == 0 {
        "ConfigFile"
    } else if tag == 1 {
        "PassphraseFD"
    } else if tag == 2 {
        "BandwidthRate"
    } else if tag == 3 {
        "BandwidthBurst"
    } else if tag == 4 {
        "DisableNetwork"
    } else if tag == 5 {
        "ControlPort"
    } else if tag == 6 {
        "ControlPortAuto"
    } else if tag == 7 {
        "ControlPortAddress"
    } else if tag == 8 {
        "ControlSocket"
    } else if tag == 9 {
        "ControlSocketsGroupWritable"
    } else if tag == 10 {
        "HashedControlPassword"
    } else if tag == 11 {
        "CookieAuthentication"
    } else if tag == 12 {
        "CookieAuthFile"
    } else if tag == 13 {
        "CookieAuthFileGroupReadable"
    } else if tag == 14 {
        "ControlPortWriteToFile"
    } else if tag == 15 {
        "ControlPortFileGroupReadable"
    } else if tag == 16 {
        "DataDirectory"
    } else if tag == 17 {
        "DataDirectoryGroupReadable"
    } else if tag == 18 {
        "CacheDirectory"
    } else if tag == 19 {
        "CacheDirectoryGroupReadable"
    } else if tag == 20 {
        "HTTPSProxy"
    } else if tag == 21 {
        "HTTPSProxyAuthenticator"
    } else if tag == 22 {
        "Socks4Proxy"
    } else if tag == 23 {
        "Socks5Proxy"
    } else if tag == 24 {
        "Socks5ProxyUsername"
    } else if tag == 25 {
        "Socks5ProxyPassword"
    } else if tag == 26 {
        "UnixSocksGroupWritable"
    } else if tag == 27 {
        "KeepalivePeriod"
    } else if tag == 28 {
        "Log"
    } else if tag == 29 {
        "LogTo"
    } else if tag == 30 {
        "LogExpanded"
    } else if tag == 31 {
        "LogMessageDomains"
    } else if tag == 32 {
        "LogTimeGranularity"
    } else if tag == 33 {
        "TruncateLogFile"
    } else if tag == 34 {
        "SyslogIdentityTag"
    } else if tag == 35 {
        "AndroidIdentityTag"
    } else if tag == 36 {
        "SafeLogging"
    } else if tag == 37 {
        "PidFile"
    } else if tag == 38 {
        "ProtocolWarnings"
    } else if tag == 39 {
        "User"
    } else if tag == 40 {
        "NoExec"
    } else if tag == 41 {
        "Bridge"
    } else if tag == 42 {
        "ConnectionPadding"
    } else if tag == 43 {
        "ReducedConnectionPadding"
    } else if tag == 44 {
        "CircuitPadding"
    } else if tag == 45 {
        "ReducedCircuitPadding"
    } else if tag == 46 {
        "ExcludeNodes"
    } else if tag == 47 {
        "ExcludeExitNodes"
    } else if tag == 48 {
        "ExitNodes"
    } else if tag == 49 {
        "MiddleNodes"
    } else if tag == 50 {
        "EntryNodes"
    } else if tag == 51 {
        "StrictNodes"
    } else if tag == 52 {
        "FascistFirewall"
    } else if tag == 53 {
        "FirewallPorts"
    } else if tag == 54 {
        "MapAddress"
    } else if tag == 55 {
        "NewCircuitPeriod"
    } else if tag == 56 {
        "SocksPort"
    } else if tag == 57 {
        "SocksPortAuto"
    } else if tag == 58 {
        "SocksPortAddress"
    } else if tag == 59 {
        "SocksTimeout"
    } else if tag == 60 {
        "SafeSocks"
    } else if tag == 61 {
        "TestSocks"
    } else if tag == 62 {
        "UpdateBridgesFromAuthority"
    } else if tag == 63 {
        "UseBridges"
    } else if tag == 64 {
        "HiddenServiceDir"
    } else if tag == 65 {
        "HiddenServicePort"
    } else if tag == 66 {
        "HiddenServiceVersion"
    } else if tag == 67 {
        "HiddenServiceAuthorizeClient"
    } else if tag == 68 {
        "HiddenServiceAllowUnknownPorts"
    } else if tag == 69 {
        "HiddenServiceMaxStreams"
    } else if tag == 70 {
        "HiddenServiceMaxStreamsCloseCircuit"
    } else if tag == 71 {
        "Custom"
    } else if tag == 72 {
        "Quiet"
    } else {
        "Hush"
    }
}

fn flag_arity_exec(tag: usize) -> (r: usize)
    ensures
        r as nat == flag_arity(tag as nat),
{
    if tag == 6 || tag == 57 || tag == 72 || tag == 73 {
        0
    } else if tag == 2 || tag == 3 || tag == 7 || tag == 21 || tag == 29 || tag == 30 || tag == 54 || tag == 65 || tag == 67 {
        2
    } else if tag == 41 || tag == 58 {
        3
    } else {
        1
    }
}

fn flag_shape_exec(tag: usize) -> (r: Shape)
    ensures
        r == flag_shape(tag as nat),
{
    if tag == 6 || tag == 57 {
        Shape::Unit
    } else {
        Shape::Positional
    }
}

fn flag_annotations_exec(tag: usize) -> (r: Vec<String>)
    ensures
        views(r@) == flag_annotations(tag as nat),
{
    if tag == 0 {
        let r = vec![text_of("\"-f {}\""), text_of("test = (\"filename\".into()) => \"-f \\\"filename\\\"\"")];
        assert(views(r@) =~= flag_annotations(tag as nat));
        r
    } else if tag == 1 {
        let r = vec![text_of("\"--passphrase-fd {}\"")];
        assert(views(r@) =~= flag_annotations(tag as nat));
        r
    } else if tag == 2 {
        let r = vec![text_of("test = (256, SizeUnit::MBits) => \"BandwidthRate \\\"256 MBits\\\"\"")];
        assert(views(r@) =~= flag_annotations(tag as nat));
        r
    } else if tag == 4 {
        let r = vec![text_of("test = (true.into()) => \"DisableNetwork \\\"1\\\"\"")];
        assert(views(r@) =~= flag_annotations(tag as nat));
        r
    } else if tag == 6 {
        let r = vec![text_of("\"ControlPort auto\"")];
        assert(views(r@) =~= flag_annotations(tag as nat));
        r
    } else if tag == 7 {
        let r = vec![text_of("\"ControlPort {} {}\""), text_of("test = (TorAddress::Unix(\"/tmp/tor-cp\".into()), Some(vec![ControlPortFlag::GroupWritable].into()).into()) => \"ControlPort \\\"unix:/tmp/tor-cp GroupWritable\\\"\""), text_of("test = (TorAddress::Unix(\"/tmp/tor-cp\".into()), Some(vec![ControlPortFlag::GroupWritable, ControlPortFlag::RelaxDirModeCheck].into()).into()) => \"ControlPort \\\"unix:/tmp/tor-cp GroupWritable RelaxDirModeCheck\\\"\"")];
        assert(views(r@) =~= flag_annotations(tag as nat));
        r
    } else if tag == 21 {
        let r = vec![text_of("\"HTTPSProxyAuthenticator {}:{}\""), text_of("test = (\"user\".into(), \"pass\".into()) => \"HTTPSProxyAuthenticator \\\"user:pass\\\"\"")];
        assert(views(r@) =~= flag_annotations(tag as nat));
        r
    } else if tag == 28 {
        let r = vec![text_of("with = \"log_expand\""), text_of("test = (LogLevel::Notice) => \"Log \\\"notice\\\"\"")];
        assert(views(r@) =~= flag_annotations(tag as nat));
        r
    } else if tag == 29 {
        let r = vec![text_of("with = \"log_expand\""), text_of("test = (LogLevel::Notice, LogDestination::File(\"/dev/null\".into())) => \"Log \\\"notice file /dev/null\\\"\""), text_of("test = (LogLevel::Notice, LogDestination::Stdout) => \"Log \\\"notice stdout\\\"\"")];
        assert(views(r@) =~= flag_annotations(tag as nat));
        r
    } else if tag == 30 {
        let r = vec![text_of("with = \"log_expand\""), text_of("test = (vec![(vec![(true, LogDomain::Handshake)], LogLevel::Debug), (vec![(false, LogDomain::Net), (false, LogDomain::Mm)], LogLevel::Info), (vec![], LogLevel::Notice)], LogDestination::Stdout) => \"Log \\\"[handshake]debug [~net,~mm]info notice stdout\\\"\"")];
        assert(views(r@) =~= flag_annotations(tag as nat));
        r
    } else if tag == 57 {
        let r = vec![text_of("\"SocksPort auto\"")];
        assert(views(r@) =~= flag_annotations(tag as nat));
        r
    } else if tag == 58 {
        let r = vec![text_of("rename = \"SocksPort\"")];
        assert(views(r@) =~= flag_annotations(tag as nat));
        r
    } else if tag == 67 {
        let r = vec![text_of("\"HiddenServiceAuthorizeClient {} {}\"")];
        assert(views(r@) =~= flag_annotations(tag as nat));
        r
    } else if tag == 71 {
        let r = vec![text_of("\"{}\"")];
        assert(views(r@) =~= flag_annotations(tag as nat));
        r
    } else if tag == 72 {
        let r = vec![text_of("\"--quiet\"")];
        assert(views(r@) =~= flag_annotations(tag as nat));
        r
    } else if tag == 73 {
        let r = vec![text_of("\"--hush\"")];
        assert(views(r@) =~= flag_annotations(tag as nat));
        r
    } else {
        let r: Vec<String> = Vec::new();
        assert(views(r@) =~= flag_annotations(tag as nat));
        r
    }
}
} // verus!
