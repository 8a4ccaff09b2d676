use vstd::prelude::*;

use core::cmp::Ordering;
use std::str::FromStr;

use crate::cmd::digits_value;
use crate::error::RadosError;
use crate::text::{lemma_split_field_earlier, nth_field, split_field, str_eq};

verus! {

/// The Ceph releases, oldest first.  Releases compare by age: an older
/// release is less than a newer one.
#[non_exhaustive]
#[derive(Copy, Clone, Debug, PartialEq, Eq, Structural, Ord)]
pub enum CephVersion {
    Argonaut,
    Bobtail,
    Cuttlefish,
    Dumpling,
    Emperor,
    Firefly,
    Giant,
    Hammer,
    Infernalis,
    Jewel,
    Kraken,
    Luminous,
    Mimic,
    Nautilus,
    Octopus,
    Pacific,
}

/// Position of a release in the release history, Argonaut being 0.
pub open spec fn release_rank(v: CephVersion) -> int {
    match v {
        CephVersion::Argonaut => 0,
        CephVersion::Bobtail => 1,
        CephVersion::Cuttlefish => 2,
        CephVersion::Dumpling => 3,
        CephVersion::Emperor => 4,
        CephVersion::Firefly => 5,
        CephVersion::Giant => 6,
        CephVersion::Hammer => 7,
        CephVersion::Infernalis => 8,
        CephVersion::Jewel => 9,
        CephVersion::Kraken => 10,
        CephVersion::Luminous => 11,
        CephVersion::Mimic => 12,
        CephVersion::Nautilus => 13,
        CephVersion::Octopus => 14,
        CephVersion::Pacific => 15,
    }
}

/// `a` is an older release than `b`.
pub open spec fn older_than(a: CephVersion, b: CephVersion) -> bool {
    release_rank(a) < release_rank(b)
}

/// The release named by the major and minor components of a version
/// number such as `10.2.9`, as `ceph --version` prints it.
pub open spec fn release_of(major: Seq<char>, minor: Seq<char>) -> Option<CephVersion> {
    if major == "16"@ {
        Some(CephVersion::Pacific)
    } else if major == "15"@ {
        Some(CephVersion::Octopus)
    } else if major == "14"@ {
        Some(CephVersion::Nautilus)
    } else if major == "13"@ {
        Some(CephVersion::Mimic)
    } else if major == "12"@ {
        Some(CephVersion::Luminous)
    } else if major == "11"@ {
        Some(CephVersion::Kraken)
    } else if major == "10"@ {
        Some(CephVersion::Jewel)
    } else if major == "9"@ {
        Some(CephVersion::Infernalis)
    } else if major == "0"@ {
        if minor == "94"@ {
            Some(CephVersion::Hammer)
        } else if minor == "97"@ {
            Some(CephVersion::Giant)
        } else if minor == "80"@ {
            Some(CephVersion::Firefly)
        } else if minor == "72"@ {
            Some(CephVersion::Emperor)
        } else if minor == "67"@ {
            Some(CephVersion::Dumpling)
        } else if minor == "61"@ {
            Some(CephVersion::Cuttlefish)
        } else if minor == "56"@ {
            Some(CephVersion::Bobtail)
        } else if minor == "48"@ {
            Some(CephVersion::Argonaut)
        } else {
            None
        }
    } else {
        None
    }
}

/// The release that a version line such as
/// `ceph version 10.2.9 (2ee413f77150c0f375ff6f10edd6c8f9c7d060d0)` names:
/// its third space-separated word must have at least three dot-separated
/// parts, whose first two name a known release.
pub open spec fn parse_release(s: Seq<char>) -> Option<CephVersion> {
    match split_field(s, ' ', 2) {
        Some(word) => {
            if split_field(word, '.', 2) is Some {
                release_of(split_field(word, '.', 0).unwrap(), split_field(word, '.', 1).unwrap())
            } else {
                None
            }
        },
        None => None,
    }
}

impl CephVersion {
    /// Position of the release in the release history.
    pub fn rank(&self) -> (r: u8)
        ensures
            r as int == release_rank(*self),
    {
        match self {
            CephVersion::Argonaut => 0,
            CephVersion::Bobtail => 1,
            CephVersion::Cuttlefish => 2,
            CephVersion::Dumpling => 3,
            CephVersion::Emperor => 4,
            CephVersion::Firefly => 5,
            CephVersion::Giant => 6,
            CephVersion::Hammer => 7,
            CephVersion::Infernalis => 8,
            CephVersion::Jewel => 9,
            CephVersion::Kraken => 10,
            CephVersion::Luminous => 11,
            CephVersion::Mimic => 12,
            CephVersion::Nautilus => 13,
            CephVersion::Octopus => 14,
            CephVersion::Pacific => 15,
        }
    }

    fn release_from_parts(major: &str, minor: &str) -> (r: Option<CephVersion>)
        ensures
            r == release_of(major@, minor@),
    {
        if str_eq(major, "16") {
            Some(CephVersion::Pacific)
        } else if str_eq(major, "15") {
            Some(CephVersion::Octopus)
        } else if str_eq(major, "14") {
            Some(CephVersion::Nautilus)
        } else if str_eq(major, "13") {
            Some(CephVersion::Mimic)
        } else if str_eq(major, "12") {
            Some(CephVersion::Luminous)
        } else if str_eq(major, "11") {
            Some(CephVersion::Kraken)
        } else if str_eq(major, "10") {
            Some(CephVersion::Jewel)
        } else if str_eq(major, "9") {
            Some(CephVersion::Infernalis)
        } else if str_eq(major, "0") {
            if str_eq(minor, "94") {
                Some(CephVersion::Hammer)
            } else if str_eq(minor, "97") {
                Some(CephVersion::Giant)
            } else if str_eq(minor, "80") {
                Some(CephVersion::Firefly)
            } else if str_eq(minor, "72") {
                Some(CephVersion::Emperor)
            } else if str_eq(minor, "67") {
                Some(CephVersion::Dumpling)
            } else if str_eq(minor, "61") {
                Some(CephVersion::Cuttlefish)
            } else if str_eq(minor, "56") {
                Some(CephVersion::Bobtail)
            } else if str_eq(minor, "48") {
                Some(CephVersion::Argonaut)
            } else {
                None
            }
        } else {
            None
        }
    }

    /// Parses a version line in the form that `ceph --version` or the rados
    /// version commands give: `ceph version 10.2.9 (2ee413f...)`.  Any other
    /// input is refused with `RadosError::Parse` holding the input.
    pub fn parse(s: &str) -> (r: Result<CephVersion, RadosError>)
        ensures
            match r {
                Ok(v) => parse_release(s@) == Some(v),
                Err(e) => parse_release(s@) is None && (e matches RadosError::Parse(m) && m@ == s@),
            },
    {
        if let Some(version_str) = nth_field(s, ' ', 2) {
            let major = nth_field(version_str, '.', 0);
            let minor = nth_field(version_str, '.', 1);
            let patch = nth_field(version_str, '.', 2);
            if patch.is_some() {
                proof {
                    lemma_split_field_earlier(version_str@, '.', 2, 1);
                }
            }
            if let (Some(major), Some(minor), Some(_patch)) = (major, minor, patch) {
                if let Some(v) = CephVersion::release_from_parts(major, minor) {
                    return Ok(v);
                }
            }
        }
        Err(RadosError::Parse(s.to_owned()))
    }

    /// `self` is an older release than `other`.
    pub fn is_older_than(&self, other: &CephVersion) -> (r: bool)
        ensures
            r == older_than(*self, *other),
    {
        self.rank() < other.rank()
    }
}

impl PartialOrd for CephVersion {
    fn partial_cmp(&self, other: &CephVersion) -> (r: Option<Ordering>)
        ensures
            r == Some(Ordering::Equal) <==> *self == *other,
            r == Some(Ordering::Less) <==> older_than(*self, *other),
            r == Some(Ordering::Greater) <==> older_than(*other, *self),
    {
        let a = self.rank();
        let b = other.rank();
        if a < b {
            Some(Ordering::Less)
        } else if a == b {
            Some(Ordering::Equal)
        } else {
            Some(Ordering::Greater)
        }
    }
}

impl vstd::std_specs::cmp::PartialOrdSpecImpl for CephVersion {
    open spec fn obeys_partial_cmp_spec() -> bool {
        true
    }

    open spec fn partial_cmp_spec(&self, other: &CephVersion) -> Option<Ordering> {
        if release_rank(*self) < release_rank(*other) {
            Some(Ordering::Less)
        } else if release_rank(*self) == release_rank(*other) {
            Some(Ordering::Equal)
        } else {
            Some(Ordering::Greater)
        }
    }
}

/// Comparing releases is total and agrees with equality and age: two
/// releases compare equal exactly when they are the same release, less
/// exactly when the first is the older, greater exactly when it is the
/// newer; they always compare.
pub proof fn lemma_compare_releases(a: CephVersion, b: CephVersion)
    ensures
        vstd::std_specs::cmp::PartialOrdSpec::partial_cmp_spec(&a, &b) is Some,
        vstd::std_specs::cmp::PartialOrdSpec::partial_cmp_spec(&a, &b) == Some(Ordering::Equal) <==> a == b,
        vstd::std_specs::cmp::PartialOrdSpec::partial_cmp_spec(&a, &b) == Some(Ordering::Less) <==> older_than(a, b),
        vstd::std_specs::cmp::PartialOrdSpec::partial_cmp_spec(&a, &b) == Some(Ordering::Greater) <==> older_than(b, a),
{
}

impl FromStr for CephVersion {
    type Err = RadosError;

    /// Same as [`CephVersion::parse`].
    fn from_str(s: &str) -> (r: Result<CephVersion, RadosError>)
        ensures
            match r {
                Ok(v) => parse_release(s@) == Some(v),
                Err(e) => parse_release(s@) is None && (e matches RadosError::Parse(m) && m@ == s@),
            },
    {
        CephVersion::parse(s)
    }
}

} // verus!

verus! {

/// The major number of a release's versions: 0 before Infernalis.
pub open spec fn release_major(c: CephVersion) -> int {
    match c {
        CephVersion::Pacific => 16,
        CephVersion::Octopus => 15,
        CephVersion::Nautilus => 14,
        CephVersion::Mimic => 13,
        CephVersion::Luminous => 12,
        CephVersion::Kraken => 11,
        CephVersion::Jewel => 10,
        CephVersion::Infernalis => 9,
        _ => 0,
    }
}

/// The minor number of a release whose major number is 0 (0 for the others).
pub open spec fn release_minor(c: CephVersion) -> int {
    match c {
        CephVersion::Hammer => 94,
        CephVersion::Giant => 97,
        CephVersion::Firefly => 80,
        CephVersion::Emperor => 72,
        CephVersion::Dumpling => 67,
        CephVersion::Cuttlefish => 61,
        CephVersion::Bobtail => 56,
        CephVersion::Argonaut => 48,
        _ => 0,
    }
}

/// The release that a version number names has that number: its major
/// number, and for a 0.x release its minor number.
pub proof fn lemma_release_of_numbers(major: Seq<char>, minor: Seq<char>)
    ensures
        release_of(major, minor) matches Some(c) ==> digits_value(major) == release_major(c)
            && (release_major(c) == 0 ==> digits_value(minor) == release_minor(c)),
{
    reveal_strlit("16");
    reveal_strlit("15");
    reveal_strlit("14");
    reveal_strlit("13");
    reveal_strlit("12");
    reveal_strlit("11");
    reveal_strlit("10");
    reveal_strlit("9");
    reveal_strlit("0");
    reveal_strlit("94");
    reveal_strlit("97");
    reveal_strlit("80");
    reveal_strlit("72");
    reveal_strlit("67");
    reveal_strlit("61");
    reveal_strlit("56");
    reveal_strlit("48");
    reveal_with_fuel(digits_value, 3);
}

/// Newer version numbers name newer releases: a higher major number is a
/// newer release, and among the 0.x releases a higher minor number is a
/// newer one, Giant (numbered 0.97 here, after Hammer's 0.94) aside.
pub proof fn lemma_release_grows(major1: Seq<char>, minor1: Seq<char>, major2: Seq<char>, minor2: Seq<char>)
    requires
        release_of(major1, minor1) is Some,
        release_of(major2, minor2) is Some,
    ensures
        ({
            let c1 = release_of(major1, minor1).unwrap();
            let c2 = release_of(major2, minor2).unwrap();
            &&& digits_value(major1) < digits_value(major2) ==> older_than(c1, c2)
            &&& (digits_value(major1) == 0 && digits_value(major2) == 0 && digits_value(minor1) < digits_value(minor2)
                && c1 != CephVersion::Giant && c2 != CephVersion::Giant) ==> older_than(c1, c2)
            &&& (digits_value(major1) == digits_value(major2) && digits_value(major1) != 0) ==> c1 == c2
            &&& (digits_value(major1) == 0 && digits_value(major2) == 0 && digits_value(minor1) == digits_value(minor2)) ==> c1 == c2
        }),
{
    lemma_release_of_numbers(major1, minor1);
    lemma_release_of_numbers(major2, minor2);
}

/// The major number of a version line: the first dot-separated part of its
/// third space-separated word.
pub open spec fn line_major(s: Seq<char>) -> Seq<char> {
    split_field(split_field(s, ' ', 2).unwrap(), '.', 0).unwrap()
}

/// The minor number of a version line: the second dot-separated part of its
/// third space-separated word.
pub open spec fn line_minor(s: Seq<char>) -> Seq<char> {
    split_field(split_field(s, ' ', 2).unwrap(), '.', 1).unwrap()
}

/// Whole version lines keep release order: of two lines that parse, the one
/// with the lower version number names the older release, or the same one
/// when the major numbers are equal and not 0; among 0.x lines a lower minor
/// number is an older release, Giant aside.
pub proof fn lemma_version_lines_ordered(s1: Seq<char>, s2: Seq<char>)
    requires
        parse_release(s1) is Some,
        parse_release(s2) is Some,
    ensures
        ({
            let c1 = parse_release(s1).unwrap();
            let c2 = parse_release(s2).unwrap();
            let (m1, n1, m2, n2) = (digits_value(line_major(s1)), digits_value(line_minor(s1)),
                digits_value(line_major(s2)), digits_value(line_minor(s2)));
            &&& m1 < m2 ==> older_than(c1, c2)
            &&& (m1 == m2 && m1 != 0) ==> c1 == c2
            &&& (m1 == 0 && m2 == 0 && n1 < n2 && c1 != CephVersion::Giant && c2 != CephVersion::Giant) ==> older_than(c1, c2)
            &&& (m1 == 0 && m2 == 0 && n1 == n2) ==> c1 == c2
        }),
{
    lemma_release_grows(line_major(s1), line_minor(s1), line_major(s2), line_minor(s2));
}

/// No space in `w`.
pub open spec fn no_space(w: Seq<char>) -> bool {
    forall|i: int| 0 <= i < w.len() ==> w[i] != ' '
}

/// The release a version number such as `10.2.9` names: at least three
/// dot-separated parts, whose first two name a known release.
pub open spec fn word_release(w: Seq<char>) -> Option<CephVersion> {
    if split_field(w, '.', 2) is Some {
        release_of(split_field(w, '.', 0).unwrap(), split_field(w, '.', 1).unwrap())
    } else {
        None
    }
}

proof fn lemma_prefix_until_word(x: Seq<char>, t: Seq<char>)
    requires
        no_space(x),
        t.len() == 0 || t[0] == ' ',
    ensures
        crate::text::prefix_until(x + t, ' ') == x,
    decreases x.len(),
{
    if x.len() == 0 {
        assert(x + t =~= t);
    } else {
        assert((x + t)[0] == x[0]);
        assert((x + t).drop_first() =~= x.drop_first() + t);
        lemma_prefix_until_word(x.drop_first(), t);
        assert(seq![x[0]] + x.drop_first() =~= x);
    }
}

proof fn lemma_split_after_word(w: Seq<char>, r: Seq<char>, n: nat)
    requires
        no_space(w),
    ensures
        split_field(w + seq![' '] + r, ' ', n + 1) == split_field(r, ' ', n),
    decreases w.len(),
{
    let s = w + seq![' '] + r;
    if w.len() == 0 {
        assert(s[0] == ' ');
        assert(s.drop_first() =~= r);
    } else {
        assert(s[0] == w[0]);
        assert(s.drop_first() =~= w.drop_first() + seq![' '] + r);
        lemma_split_after_word(w.drop_first(), r, n);
    }
}

/// Only the third word of a version line matters: whatever the first two
/// words, and whatever follows the third after a space, the line names the
/// release its third word names.
pub proof fn lemma_release_from_third_word(a: Seq<char>, b: Seq<char>, x: Seq<char>, t: Seq<char>)
    requires
        no_space(a),
        no_space(b),
        no_space(x),
        t.len() == 0 || t[0] == ' ',
    ensures
        parse_release(a + seq![' '] + b + seq![' '] + x + t) == word_release(x),
{
    let s = a + seq![' '] + b + seq![' '] + x + t;
    assert(s =~= a + seq![' '] + (b + seq![' '] + (x + t)));
    lemma_split_after_word(a, b + seq![' '] + (x + t), 1);
    lemma_split_after_word(b, x + t, 0);
    lemma_prefix_until_word(x, t);
    assert(split_field(s, ' ', 2) == Some(x));
}

/// Release age is a strict total order: no release is older than itself,
/// age is transitive, and of two different releases one is the older.
pub proof fn lemma_release_order(a: CephVersion, b: CephVersion, c: CephVersion)
    ensures
        !older_than(a, a),
        older_than(a, b) && older_than(b, c) ==> older_than(a, c),
        a != b ==> (older_than(a, b) || older_than(b, a)),
        older_than(a, b) ==> !older_than(b, a),
{
}

} // verus!
