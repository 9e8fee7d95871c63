//! SSL and TLS protocol versions.

use vstd::prelude::*;

verus! {

/// A protocol version, from the oldest to the newest.
#[derive(Debug, Clone, Copy, PartialEq, Eq, Structural, Hash, PartialOrd, Ord)]
pub enum TlsVersion {
    Ssl20,
    Ssl30,
    Tls10,
    Tls11,
    Tls12,
    Tls13,
}

impl TlsVersion {
    /// The version number that stands for this version on the wire.
    pub open spec fn wire_number(self) -> u16 {
        match self {
            TlsVersion::Ssl20 => 0x0200,
            TlsVersion::Ssl30 => 0x0300,
            TlsVersion::Tls10 => 0x0301,
            TlsVersion::Tls11 => 0x0302,
            TlsVersion::Tls12 => 0x0303,
            TlsVersion::Tls13 => 0x0304,
        }
    }

    /// The version number in a hello message's version field, which stops at TLS 1.2.
    pub open spec fn legacy_number(self) -> u16 {
        if self == TlsVersion::Tls13 {
            TlsVersion::Tls12.wire_number()
        } else {
            self.wire_number()
        }
    }

    /// The version's name as people write it.
    pub open spec fn display_name(self) -> Seq<char> {
        match self {
            TlsVersion::Ssl20 => "SSL 2.0"@,
            TlsVersion::Ssl30 => "SSL 3.0"@,
            TlsVersion::Tls10 => "TLS 1.0"@,
            TlsVersion::Tls11 => "TLS 1.1"@,
            TlsVersion::Tls12 => "TLS 1.2"@,
            TlsVersion::Tls13 => "TLS 1.3"@,
        }
    }

    /// Returns the version's number on the wire.
    pub fn wire(self) -> (n: u16)
        ensures
            n == self.wire_number(),
    {
        match self {
            TlsVersion::Ssl20 => 0x0200,
            TlsVersion::Ssl30 => 0x0300,
            TlsVersion::Tls10 => 0x0301,
            TlsVersion::Tls11 => 0x0302,
            TlsVersion::Tls12 => 0x0303,
            TlsVersion::Tls13 => 0x0304,
        }
    }

    /// Returns the version's name.
    pub fn name(self) -> (s: &'static str)
        ensures
            s@ == self.display_name(),
    {
        match self {
            TlsVersion::Ssl20 => "SSL 2.0",
            TlsVersion::Ssl30 => "SSL 3.0",
            TlsVersion::Tls10 => "TLS 1.0",
            TlsVersion::Tls11 => "TLS 1.1",
            TlsVersion::Tls12 => "TLS 1.2",
            TlsVersion::Tls13 => "TLS 1.3",
        }
    }

    /// Returns the number to put into a hello message's version field.
    pub fn legacy_wire(self) -> (n: u16)
        ensures
            n == self.legacy_number(),
    {
        match self {
            TlsVersion::Tls13 => TlsVersion::Tls12.wire(),
            v => v.wire(),
        }
    }

    /// Returns every version, oldest first.
    pub fn all() -> (versions: [TlsVersion; 6])
        ensures
            versions@ == all_versions(),
    {
        [
            TlsVersion::Ssl20,
            TlsVersion::Ssl30,
            TlsVersion::Tls10,
            TlsVersion::Tls11,
            TlsVersion::Tls12,
            TlsVersion::Tls13,
        ]
    }

    /// Returns the versions that a scan probes, in the order in which it probes them: newest
    /// first, down to TLS 1.0.
    pub fn probe_order() -> (versions: Vec<TlsVersion>)
        ensures
            versions@ == seq![
                TlsVersion::Tls13,
                TlsVersion::Tls12,
                TlsVersion::Tls11,
                TlsVersion::Tls10,
            ],
    {
        let all = Self::all();
        let mut versions: Vec<TlsVersion> = Vec::new();
        let mut i: usize = all.len();
        while i > 0
            invariant
                i <= 6,
                all@ == all_versions(),
                versions@ == all_versions().subrange(
                    if i < 2 {
                        2
                    } else {
                        i as int
                    },
                    6,
                ).reverse(),
            decreases i,
        {
            i = i - 1;
            if all[i].wire() >= TlsVersion::Tls10.wire() {
                versions.push(all[i]);
            }
        }
        versions
    }
}

/// Every version, oldest first.
pub open spec fn all_versions() -> Seq<TlsVersion> {
    seq![
        TlsVersion::Ssl20,
        TlsVersion::Ssl30,
        TlsVersion::Tls10,
        TlsVersion::Tls11,
        TlsVersion::Tls12,
        TlsVersion::Tls13,
    ]
}

/// The versions are listed without repetition, in the order of their numbers on the wire, and
/// none is left out.
pub proof fn versions_ascend(v: TlsVersion)
    ensures
        all_versions().contains(v),
        forall|i: int, j: int|
            0 <= i < j < all_versions().len() ==> #[trigger] all_versions()[i].wire_number()
                < #[trigger] all_versions()[j].wire_number(),
{
    let all = all_versions();
    assert(all[0] == TlsVersion::Ssl20 && all[1] == TlsVersion::Ssl30 && all[2]
        == TlsVersion::Tls10 && all[3] == TlsVersion::Tls11 && all[4] == TlsVersion::Tls12 && all[5]
        == TlsVersion::Tls13);
}

/// Two versions have the same number only if they are the same version.
pub proof fn wire_numbers_differ(v: TlsVersion, w: TlsVersion)
    ensures
        v.wire_number() == w.wire_number() <==> v == w,
{
}

/// A hello message's version field never announces more than TLS 1.2, and announces every older
/// version by its own number.
pub proof fn legacy_number_is_capped(v: TlsVersion)
    ensures
        v.legacy_number() <= TlsVersion::Tls12.wire_number(),
        v.wire_number() <= TlsVersion::Tls12.wire_number() ==> v.legacy_number() == v.wire_number(),
{
}

} // verus!
