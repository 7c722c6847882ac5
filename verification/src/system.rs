//! What the kernel says of itself: its version, and the time of day.

use vstd::prelude::*;
use vstd::string::StringExecFns;

verus! {

/// The number that packs a version: the major number in the top byte, the
/// minor number in the byte below it, the patch level in the low 16 bits.
pub open spec fn packed_version(maj: u8, min: u8, patch: u16) -> u32 {
    ((maj as u32) << 24) | ((min as u32) << 16) | (patch as u32)
}

proof fn lemma_packed_version(maj: u8, min: u8, patch: u16)
    ensures
        (packed_version(maj, min, patch) >> 24) & 0xFF == maj,
        (packed_version(maj, min, patch) >> 16) & 0xFF == min,
        packed_version(maj, min, patch) & 0xFFFF == patch,
{
    assert(((((maj as u32) << 24) | ((min as u32) << 16) | (patch as u32)) >> 24) & 0xFF == maj as u32
        && ((((maj as u32) << 24) | ((min as u32) << 16) | (patch as u32)) >> 16) & 0xFF == min as u32
        && (((maj as u32) << 24) | ((min as u32) << 16) | (patch as u32)) & 0xFFFF == patch as u32)
        by (bit_vector);
}

proof fn lemma_version_parts(versions: u32)
    ensures
        (versions >> 24) & 0xFF <= 0xFF,
        (versions >> 16) & 0xFF <= 0xFF,
        versions & 0xFFFF <= 0xFFFF,
        versions == packed_version(
            ((versions >> 24) & 0xFF) as u8,
            ((versions >> 16) & 0xFF) as u8,
            (versions & 0xFFFF) as u16,
        ),
{
    assert((versions >> 24) & 0xFF <= 0xFF && (versions >> 16) & 0xFF <= 0xFF && versions & 0xFFFF
        <= 0xFFFF) by (bit_vector);
    assert(versions == ((((versions >> 24) & 0xFF) as u8 as u32) << 24) | ((((versions >> 16) & 0xFF) as u8
        as u32) << 16) | ((versions & 0xFFFF) as u16 as u32)) by (bit_vector);
}

/// The character for a digit.
pub open spec fn digit(d: nat) -> char {
    if d == 0 {
        '0'
    } else if d == 1 {
        '1'
    } else if d == 2 {
        '2'
    } else if d == 3 {
        '3'
    } else if d == 4 {
        '4'
    } else if d == 5 {
        '5'
    } else if d == 6 {
        '6'
    } else if d == 7 {
        '7'
    } else if d == 8 {
        '8'
    } else {
        '9'
    }
}

/// The digits of `n` in base ten, the weightiest first.
pub open spec fn decimal(n: nat) -> Seq<char>
    decreases n,
{
    if n < 10 {
        seq![digit(n)]
    } else {
        decimal(n / 10).push(digit(n % 10))
    }
}

fn digit_text(d: usize) -> (r: &'static str)
    requires
        d < 10,
    ensures
        r@ == seq![digit(d as nat)],
{
    proof {
        reveal_strlit("0");
        reveal_strlit("1");
        reveal_strlit("2");
        reveal_strlit("3");
        reveal_strlit("4");
        reveal_strlit("5");
        reveal_strlit("6");
        reveal_strlit("7");
        reveal_strlit("8");
        reveal_strlit("9");
    }
    let r = if d == 0 {
        "0"
    } else if d == 1 {
        "1"
    } else if d == 2 {
        "2"
    } else if d == 3 {
        "3"
    } else if d == 4 {
        "4"
    } else if d == 5 {
        "5"
    } else if d == 6 {
        "6"
    } else if d == 7 {
        "7"
    } else if d == 8 {
        "8"
    } else {
        "9"
    };
    assert(r@ =~= seq![digit(d as nat)]);
    r
}

/// `n` in decimal digits.
pub fn decimal_text(n: usize) -> (r: String)
    ensures
        r@ == decimal(n as nat),
    decreases n,
{
    if n < 10 {
        String::from_str(digit_text(n))
    } else {
        let mut text = decimal_text(n / 10);
        text.append(digit_text(n % 10));
        assert(text@ =~= decimal(n as nat));
        text
    }
}

/// A version of the system: major and minor number, patch level, and the
/// name of a release, which is empty for a plain version.
#[derive(Debug, Copy, Clone, PartialEq, Eq, PartialOrd, Ord)]
pub struct Version {
    versions: u32,
    rel: &'static str,
}

impl Version {
    /// The major number.
    pub closed spec fn spec_maj(&self) -> u8 {
        ((self.versions >> 24) & 0xFF) as u8
    }

    /// The minor number.
    pub closed spec fn spec_min(&self) -> u8 {
        ((self.versions >> 16) & 0xFF) as u8
    }

    /// The patch level.
    pub closed spec fn spec_patch(&self) -> u16 {
        (self.versions & 0xFFFF) as u16
    }

    /// The name of the release.
    pub closed spec fn spec_release(&self) -> &'static str {
        self.rel
    }

    #[inline]
    pub fn new(maj: u8, min: u8, patch: u16, rel: &'static str) -> (r: Self)
        ensures
            r.spec_maj() == maj,
            r.spec_min() == min,
            r.spec_patch() == patch,
            r.spec_release() == rel,
    {
        proof {
            lemma_packed_version(maj, min, patch);
        }
        let versions = ((maj as u32) << 24) | ((min as u32) << 16) | (patch as u32);
        Version { versions, rel }
    }

    /// The version as one number, which orders versions as their parts do.
    #[inline]
    pub fn as_u32(&self) -> (r: u32)
        ensures
            r == packed_version(self.spec_maj(), self.spec_min(), self.spec_patch()),
    {
        proof {
            lemma_version_parts(self.versions);
        }
        self.versions
    }

    #[inline]
    pub fn maj(&self) -> (r: usize)
        ensures
            r == self.spec_maj(),
    {
        proof {
            lemma_version_parts(self.versions);
        }
        ((self.versions >> 24) & 0xFF) as usize
    }

    #[inline]
    pub fn min(&self) -> (r: usize)
        ensures
            r == self.spec_min(),
    {
        proof {
            lemma_version_parts(self.versions);
        }
        ((self.versions >> 16) & 0xFF) as usize
    }

    #[inline]
    pub fn patch(&self) -> (r: usize)
        ensures
            r == self.spec_patch(),
    {
        proof {
            lemma_version_parts(self.versions);
        }
        (self.versions & 0xFFFF) as usize
    }

    #[inline]
    pub fn release(&self) -> (r: &str)
        ensures
            r == self.spec_release(),
    {
        self.rel
    }

    /// The version as it is written: the three numbers with a dot between
    /// them, then, if the release has a name, a hyphen and that name.
    pub open spec fn text(&self) -> Seq<char> {
        let numbers = decimal(self.spec_maj() as nat) + seq!['.'] + decimal(self.spec_min() as nat)
            + seq!['.'] + decimal(self.spec_patch() as nat);
        if self.spec_release()@.len() > 0 {
            numbers + seq!['-'] + self.spec_release()@
        } else {
            numbers
        }
    }

    /// The version as it is written, such as `0.0.1` or `1.2.3-beta`.
    pub fn to_string(&self) -> (r: String)
        ensures
            r@ == self.text(),
    {
        proof {
            reveal_strlit(".");
            reveal_strlit("-");
        }
        let mut text = decimal_text(self.maj());
        text.append(".");
        let min = decimal_text(self.min());
        text.append(min.as_str());
        text.append(".");
        let patch = decimal_text(self.patch());
        text.append(patch.as_str());
        if !self.rel.is_empty() {
            text.append("-");
            text.append(self.rel);
        }
        assert(text@ =~= self.text());
        text
    }
}

/// A time of day: seconds, and the nanoseconds of the second that has begun.
#[derive(Debug, Copy, Clone)]
pub struct SystemTime {
    pub secs: u64,
    pub nanos: u32,
}

} // verus!
