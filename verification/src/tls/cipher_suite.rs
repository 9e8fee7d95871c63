//! Cipher suites and the catalog that lists them.

use vstd::prelude::*;

use crate::text;
use crate::tls::TlsVersion;

verus! {

/// Codes that are never offered: the null suite TLS_NULL_WITH_NULL_NULL and the two signalling
/// values TLS_EMPTY_RENEGOTIATION_INFO_SCSV and TLS_FALLBACK_SCSV.
pub const NEVER_OFFER: [u16; 3] = [0x0000, 0x00FF, 0x5600];

/// How far a cipher suite can be relied on, from the worst to the best.
#[derive(Debug, Clone, Copy, PartialEq, Eq, Structural, Hash, PartialOrd, Ord)]
pub enum Security {
    Insecure,
    Weak,
    Secure,
    Recommended,
}

/// A terminal color.
#[derive(Debug, Clone, Copy, PartialEq, Eq, Structural)]
pub enum Color {
    Green,
    Yellow,
    Red,
}

impl Color {
    /// The control sequence that turns the color on.
    pub open spec fn control(self) -> Seq<char> {
        match self {
            Color::Green => "\x1b[32m"@,
            Color::Yellow => "\x1b[33m"@,
            Color::Red => "\x1b[31m"@,
        }
    }
}

/// `text` in `color` where `on`, else `text` itself.
pub open spec fn painted(text: Seq<char>, color: Color, on: bool) -> Seq<char> {
    if on {
        color.control() + text + "\x1b[0m"@
    } else {
        text
    }
}

/// `console::Style` with `green` and styling forced on or off: the text, between the sequence for
/// green and the reset sequence where styling is on.
#[verifier::external_body]
fn green(text: &str, on: bool) -> (s: String)
    ensures
        s@ == painted(text@, Color::Green, on),
{
    console::Style::new().green().force_styling(on).apply_to(text).to_string()
}

/// `console::Style` with `yellow` and styling forced on or off: the text, between the sequence for
/// yellow and the reset sequence where styling is on.
#[verifier::external_body]
fn yellow(text: &str, on: bool) -> (s: String)
    ensures
        s@ == painted(text@, Color::Yellow, on),
{
    console::Style::new().yellow().force_styling(on).apply_to(text).to_string()
}

/// `console::Style` with `red` and styling forced on or off: the text, between the sequence for
/// red and the reset sequence where styling is on.
#[verifier::external_body]
fn red(text: &str, on: bool) -> (s: String)
    ensures
        s@ == painted(text@, Color::Red, on),
{
    console::Style::new().red().force_styling(on).apply_to(text).to_string()
}

/// `console::colors_enabled`: whether the program's standard output takes colors. It depends on
/// the terminal and the environment, so nothing is claimed of it.
#[verifier::external_body]
pub(crate) fn stdout_takes_colors() -> (on: bool)
{
    console::colors_enabled()
}

impl Security {
    /// The level's name.
    pub open spec fn display_name(self) -> Seq<char> {
        match self {
            Security::Insecure => "insecure"@,
            Security::Weak => "weak"@,
            Security::Secure => "secure"@,
            Security::Recommended => "recommended"@,
        }
    }

    /// The color in which suites of this level are shown.
    pub open spec fn shown_in(self) -> Color {
        match self {
            Security::Secure | Security::Recommended => Color::Green,
            Security::Weak => Color::Yellow,
            Security::Insecure => Color::Red,
        }
    }

    /// Returns the color in which suites of this level are shown.
    pub fn as_color(&self) -> (c: Color)
        ensures
            c == self.shown_in(),
    {
        match self {
            Security::Secure | Security::Recommended => Color::Green,
            Security::Weak => Color::Yellow,
            Security::Insecure => Color::Red,
        }
    }

    /// Returns the level's name.
    pub fn name(&self) -> (s: &'static str)
        ensures
            s@ == self.display_name(),
    {
        match self {
            Security::Insecure => "insecure",
            Security::Weak => "weak",
            Security::Secure => "secure",
            Security::Recommended => "recommended",
        }
    }
}

/// A cipher suite.
#[derive(Debug, Clone)]
pub struct CipherSuite {
    pub code: u16,
    pub iana_name: String,
    pub openssl_name: String,
    pub gnutls_name: String,
    pub protocol_version: String,
    pub kex_algorithm: String,
    pub auth_algorithm: String,
    pub enc_algorithm: String,
    pub hash_algorithm: String,
    pub security: Security,
    pub tls_versions: Vec<TlsVersion>,
}

impl CipherSuite {
    /// Whether the suite may be offered to a server.
    pub open spec fn offerable(self) -> bool {
        !NEVER_OFFER@.contains(self.code)
    }

    /// Whether version `v` knows the suite.
    pub open spec fn supports(self, v: TlsVersion) -> bool {
        self.tls_versions@.contains(v)
    }

    /// Name, code and security level, without color.
    pub open spec fn label(self) -> Seq<char> {
        self.iana_name@ + " (0x"@ + text::hex4_text(self.code) + ") "@
            + self.security.display_name()
    }

    /// Name, code and security level, in the level's color where `colors`.
    pub open spec fn shown(self, colors: bool) -> Seq<char> {
        painted(self.label(), self.security.shown_in(), colors)
    }

    /// Returns whether the suite may be offered to a server.
    pub fn is_offerable(&self) -> (b: bool)
        ensures
            b == self.offerable(),
    {
        let mut i: usize = 0;
        while i < NEVER_OFFER.len()
            invariant
                i <= 3,
                forall|j: int| 0 <= j < i ==> NEVER_OFFER@[j] != self.code,
            decreases 3 - i,
        {
            if NEVER_OFFER[i] == self.code {
                return false;
            }
            i = i + 1;
        }
        true
    }

    fn is_known_to(&self, v: TlsVersion) -> (b: bool)
        ensures
            b == self.supports(v),
    {
        let mut i: usize = 0;
        while i < self.tls_versions.len()
            invariant
                i <= self.tls_versions@.len(),
                forall|j: int| 0 <= j < i ==> self.tls_versions@[j] != v,
            decreases self.tls_versions@.len() - i,
        {
            if self.tls_versions[i] == v {
                return true;
            }
            i = i + 1;
        }
        false
    }

    /// Returns name, code and security level, in the level's color where `colors`.
    pub fn styled(&self, colors: bool) -> (s: String)
        ensures
            s@ == self.shown(colors),
    {
        let mut label = String::from_str(self.iana_name.as_str());
        label.append(" (0x");
        label.append(text::hex4(self.code).as_str());
        label.append(") ");
        label.append(self.security.name());
        match self.security.as_color() {
            Color::Green => green(label.as_str(), colors),
            Color::Yellow => yellow(label.as_str(), colors),
            Color::Red => red(label.as_str(), colors),
        }
    }

    /// Returns name, code and security level, colored if standard output takes colors.
    pub fn display(&self) -> (s: String)
        ensures
            s@ == self.shown(true) || s@ == self.shown(false),
            exists|colors: bool| #[trigger] were_colors_taken(colors) && s@ == self.shown(colors),
    {
        let colors = asked(stdout_takes_colors);
        assert(were_colors_taken(colors));
        self.styled(colors)
    }
}

/// Whether standard output was found to take colors, or not to.
pub closed spec fn were_colors_taken(colors: bool) -> bool {
    call_ensures(stdout_takes_colors, (), colors)
}

/// Calls `f`.
pub(crate) fn asked<F: Fn() -> bool>(f: F) -> (r: bool)
    requires
        call_requires(f, ()),
    ensures
        call_ensures(f, (), r),
{
    f()
}

/// What was found of the colors is what `stdout_takes_colors` returned.
pub(crate) proof fn colors_are_those_found(colors: bool)
    ensures
        were_colors_taken(colors) <==> call_ensures(stdout_takes_colors, (), colors),
{
}

/// Codes grow from each suite to the next, so that no two suites share one.
pub open spec fn ascending(suites: Seq<CipherSuite>) -> bool {
    forall|i: int, j: int|
        0 <= i < j < suites.len() ==> (#[trigger] suites[i]).code < (#[trigger] suites[j]).code
}

/// Says of a suite whether version `v` knows it.
pub open spec fn supporting(v: TlsVersion) -> spec_fn(CipherSuite) -> bool {
    |s: CipherSuite| s.supports(v)
}

/// Says of a suite whether it may be offered.
pub open spec fn may_be_offered() -> spec_fn(CipherSuite) -> bool {
    |s: CipherSuite| s.offerable()
}

/// The codes of the suites of `suites` that may be offered under version `v`, in order.
pub open spec fn offerable_codes(suites: Seq<CipherSuite>, v: TlsVersion) -> Seq<u16> {
    suites.filter(supporting(v)).filter(may_be_offered()).map_values(|s: CipherSuite| s.code)
}

/// All known cipher suites, ordered by their codes.
pub struct Catalog {
    suites: Vec<CipherSuite>,
}

impl View for Catalog {
    type V = Seq<CipherSuite>;

    closed spec fn view(&self) -> Seq<CipherSuite> {
        self.suites@
    }
}

impl Catalog {
    #[verifier::type_invariant]
    spec fn is_ordered(self) -> bool {
        ascending(self.suites@)
    }

    pub(crate) fn from_ascending(suites: Vec<CipherSuite>) -> (catalog: Catalog)
        requires
            ascending(suites@),
        ensures
            catalog@ == suites@,
    {
        Catalog { suites }
    }

    /// Returns the suites, in the order of their codes.
    pub fn suites(&self) -> (suites: &Vec<CipherSuite>)
        ensures
            suites@ == self@,
            ascending(self@),
    {
        proof {
            use_type_invariant(self);
        }
        &self.suites
    }
}

/// Whether `r` is what is found under a code.
pub open spec fn is_found(suites: Seq<CipherSuite>, code: u16, r: Option<&CipherSuite>) -> bool {
    &&& forall|i: int|
        0 <= i < suites.len() && (#[trigger] suites[i]).code == code ==> r == Some(&suites[i])
    &&& r matches Some(suite) ==> suite.code == code && suites.contains(*suite)
}

/// Looks a suite up by its code.
pub fn by_code(catalog: &Catalog, code: u16) -> (r: Option<&CipherSuite>)
    ensures
        is_found(catalog@, code, r),
        forall|i: int|
            0 <= i < catalog@.len() && (#[trigger] catalog@[i]).code == code ==> r == Some(
                &catalog@[i],
            ),
        r matches Some(suite) ==> suite.code == code && catalog@.contains(*suite),
{
    let suites = catalog.suites();
    let mut lo: usize = 0;
    let mut hi: usize = suites.len();
    while lo < hi
        invariant
            lo <= hi <= suites@.len(),
            suites@ == catalog@,
            ascending(suites@),
            forall|i: int| 0 <= i < lo ==> (#[trigger] suites@[i]).code < code,
            forall|i: int| hi <= i < suites@.len() ==> (#[trigger] suites@[i]).code > code,
        decreases hi - lo,
    {
        let mid: usize = lo + (hi - lo) / 2;
        let suite = &suites[mid];
        if suite.code == code {
            assert(suites@[mid as int] == *suite);
            return Some(suite);
        }
        if suite.code < code {
            lo = mid + 1;
        } else {
            hi = mid;
        }
    }
    None
}

/// Returns the suites that version `v` knows, in the order of their codes.
pub fn by_version(catalog: &Catalog, v: TlsVersion) -> (r: Vec<&CipherSuite>)
    ensures
        r@.map_values(|s: &CipherSuite| *s) == catalog@.filter(supporting(v)),
{
    let suites = catalog.suites();
    let mut r: Vec<&CipherSuite> = Vec::new();
    let mut i: usize = 0;
    assert(r@.map_values(|s: &CipherSuite| *s) =~= seq![]);
    assert(suites@.take(0).filter(supporting(v)) =~= seq![]) by {
        reveal(Seq::filter);
    }
    while i < suites.len()
        invariant
            i <= suites@.len(),
            r@.map_values(|s: &CipherSuite| *s) == suites@.take(i as int).filter(supporting(v)),
        decreases suites@.len() - i,
    {
        let ghost before = r@;
        if suites[i].is_known_to(v) {
            r.push(&suites[i]);
        }
        proof {
            filter_step(suites@, supporting(v), i as int);
            assert(r@.map_values(|s: &CipherSuite| *s) =~= suites@.take(i + 1).filter(
                supporting(v),
            ));
        }
        i = i + 1;
    }
    assert(suites@.take(i as int) =~= suites@);
    r
}

proof fn filter_step(suites: Seq<CipherSuite>, keep: spec_fn(CipherSuite) -> bool, i: int)
    requires
        0 <= i < suites.len(),
    ensures
        suites.take(i + 1).filter(keep) == if keep(suites[i]) {
            suites.take(i).filter(keep).push(suites[i])
        } else {
            suites.take(i).filter(keep)
        },
{
    reveal(Seq::filter);
    assert(suites.take(i + 1).drop_last() =~= suites.take(i));
}

/// Returns the codes of the suites that may be offered under version `v`, in ascending order.
pub fn offerable_codes_for_version(catalog: &Catalog, v: TlsVersion) -> (codes: Vec<u16>)
    ensures
        codes@ == offerable_codes(catalog@, v),
{
    let known = by_version(catalog, v);
    let ghost suites = known@.map_values(|s: &CipherSuite| *s);
    let mut codes: Vec<u16> = Vec::new();
    let mut i: usize = 0;
    assert(suites.take(0).filter(may_be_offered()) =~= seq![]) by {
        reveal(Seq::filter);
    }
    while i < known.len()
        invariant
            i <= known@.len(),
            suites == known@.map_values(|s: &CipherSuite| *s),
            codes@ =~= suites.take(i as int).filter(may_be_offered()).map_values(
                |s: CipherSuite| s.code,
            ),
        decreases known@.len() - i,
    {
        if known[i].is_offerable() {
            codes.push(known[i].code);
        }
        proof {
            filter_step(suites, may_be_offered(), i as int);
        }
        i = i + 1;
    }
    assert(suites.take(i as int) =~= suites);
    codes
}

/// The codes on offer are those of the suites that the version knows and that may be offered, all
/// of them, each once, in ascending order. The codes that are never offered are not among them.
pub proof fn offer_is_complete_and_clean(suites: Seq<CipherSuite>, v: TlsVersion)
    requires
        ascending(suites),
    ensures
        forall|i: int|
            0 <= i < suites.len() && suites[i].supports(v) && suites[i].offerable()
                ==> offerable_codes(suites, v).contains((#[trigger] suites[i]).code),
        forall|k: int|
            0 <= k < offerable_codes(suites, v).len() ==> exists|i: int|
                0 <= i < suites.len() && suites[i].supports(v) && suites[i].offerable()
                    && (#[trigger] suites[i]).code == #[trigger] offerable_codes(suites, v)[k],
        forall|k: int, l: int|
            0 <= k < l < offerable_codes(suites, v).len() ==> #[trigger] offerable_codes(
                suites,
                v,
            )[k] < #[trigger] offerable_codes(suites, v)[l],
        forall|k: int|
            0 <= k < offerable_codes(suites, v).len() ==> !NEVER_OFFER@.contains(
                #[trigger] offerable_codes(suites, v)[k],
            ),
    decreases suites.len(),
{
    reveal(Seq::filter);
    if suites.len() > 0 {
        let before = suites.drop_last();
        offer_is_complete_and_clean(before, v);
        let known = before.filter(supporting(v));
        let codes = offerable_codes(before, v);
        let all = offerable_codes(suites, v);
        let last = suites.last();
        if last.supports(v) {
            assert(known.push(last).drop_last() =~= known);
            if last.offerable() {
                assert(all =~= codes.push(last.code));
                assert(all[codes.len() as int] == last.code);
            } else {
                assert(all =~= codes);
            }
        } else {
            assert(all =~= codes);
        }
        assert forall|i: int|
            0 <= i < suites.len() && suites[i].supports(v) && suites[i].offerable() implies all.contains(
        (#[trigger] suites[i]).code) by {
            if i < before.len() {
                assert(before[i] == suites[i]);
                let k = codes.index_of(before[i].code);
                assert(all[k] == suites[i].code);
            }
        }
        assert forall|k: int| 0 <= k < all.len() implies exists|i: int|
            0 <= i < suites.len() && suites[i].supports(v) && suites[i].offerable() && (
            #[trigger] suites[i]).code == #[trigger] all[k] by {
            if k < codes.len() {
                assert(all[k] == codes[k]);
                let i = choose|i: int|
                    0 <= i < before.len() && before[i].supports(v) && before[i].offerable() && (
                    #[trigger] before[i]).code == codes[k];
                assert(suites[i] == before[i]);
            } else {
                assert(suites[suites.len() - 1] == last);
            }
        }
        assert forall|k: int, l: int| 0 <= k < l < all.len() implies #[trigger] all[k]
            < #[trigger] all[l] by {
            assert(all[k] == codes[k]);
            if l < codes.len() {
                assert(all[l] == codes[l]);
            } else {
                let i = choose|i: int|
                    0 <= i < before.len() && before[i].supports(v) && before[i].offerable() && (
                    #[trigger] before[i]).code == codes[k];
                assert(suites[i] == before[i]);
                assert(suites[suites.len() - 1] == last);
            }
        }
        assert forall|k: int| 0 <= k < all.len() implies !NEVER_OFFER@.contains(
            #[trigger] all[k],
        ) by {
            if k < codes.len() {
                assert(all[k] == codes[k]);
            }
        }
    }
}

} // verus!
