//! Application settings: the version of the application that wrote them,
//! stored as one packed number, and the theme mode.

use crate::json::{json_u8, parse_u8};
use vstd::prelude::*;
use vstd::string::*;

verus! {

/// A three-part version number.
#[derive(Debug, Clone, Copy, PartialEq, Eq, Structural)]
pub struct Version {
    pub major: u8,
    pub minor: u8,
    pub patch: u8,
}

/// The settings of the application.
#[derive(Debug)]
pub struct AppSettings {
    pub version: Version,
    pub theme_mode: String,
}

/// The number that stores a version: the major part in the lowest byte,
/// the minor part in the next, the patch part in the third.
pub open spec fn packed_version(version: Version) -> u32 {
    (version.major + version.minor * 0x100 + version.patch * 0x1_0000) as u32
}

/// The version that a stored number stands for. The highest byte is of no
/// account.
pub open spec fn unpacked_version(packed: u32) -> Version {
    Version {
        major: (packed % 0x100) as u8,
        minor: (packed / 0x100 % 0x100) as u8,
        patch: (packed / 0x1_0000 % 0x100) as u8,
    }
}

/// The parts of a text between its dots. A text without a dot is one part,
/// and two dots in a row have an empty part between them.
pub open spec fn split_at_dots(text: Seq<char>) -> Seq<Seq<char>>
    decreases text.len(),
{
    if text.len() == 0 {
        seq![Seq::empty()]
    } else {
        let before = split_at_dots(text.drop_last());
        if text.last() == '.' {
            before.push(Seq::empty())
        } else {
            before.update(before.len() - 1, before.last().push(text.last()))
        }
    }
}

/// The version that a dotted text names: its first three parts, where
/// every part of the text is a number from 0 to 255 and there are at least
/// three.
pub open spec fn version_of_text(text: Seq<char>) -> Option<Version> {
    let parts = split_at_dots(text);
    if parts.len() >= 3 && forall|k: int| 0 <= k < parts.len() ==> json_u8(#[trigger] parts[k]).is_some() {
        Some(
            Version {
                major: json_u8(parts[0]).unwrap(),
                minor: json_u8(parts[1]).unwrap(),
                patch: json_u8(parts[2]).unwrap(),
            },
        )
    } else {
        None
    }
}

/// A text always has at least one part.
pub proof fn lemma_split_has_a_part(text: Seq<char>)
    ensures
        split_at_dots(text).len() >= 1,
    decreases text.len(),
{
    if text.len() > 0 {
        lemma_split_has_a_part(text.drop_last());
    }
}

/// The parts that a prefix of a text has closed with a dot are parts of the
/// whole text, at the same positions.
pub proof fn lemma_closed_parts_stay(text: Seq<char>, i: int)
    requires
        0 <= i <= text.len(),
    ensures
        split_at_dots(text).len() >= split_at_dots(text.take(i)).len(),
        forall|k: int|
            0 <= k < split_at_dots(text.take(i)).len() - 1 ==> split_at_dots(text)[k] == split_at_dots(
                text.take(i),
            )[k],
    decreases text.len() - i,
{
    if i == text.len() {
        assert(text.take(i) == text);
    } else {
        lemma_closed_parts_stay(text, i + 1);
        lemma_split_has_a_part(text.take(i));
        assert(text.take(i + 1).drop_last() == text.take(i));
    }
}

impl Version {
    /// The version made of the first three numbers.
    pub fn from_numbers(numbers: &Vec<u8>) -> (version: Version)
        requires
            numbers@.len() >= 3,
        ensures
            version == (Version { major: numbers@[0], minor: numbers@[1], patch: numbers@[2] }),
    {
        Version { major: numbers[0], minor: numbers[1], patch: numbers[2] }
    }

    /// Reads a version from a dotted text such as `0.1.0`. Every part of
    /// the text has to be a number from 0 to 255, also a part behind the
    /// third; a text with fewer than three parts names no version.
    pub fn from_text(text: &str) -> (version: Option<Version>)
        ensures
            version == version_of_text(text@),
    {
        let length = text.unicode_len();
        let mut numbers: Vec<u8> = Vec::new();
        let ghost mut closed: Seq<Seq<char>> = Seq::empty();
        let mut start: usize = 0;
        let mut i: usize = 0;
        proof {
            assert(text@.take(0).len() == 0);
            assert(text@.subrange(0, 0) =~= Seq::<char>::empty());
            assert(closed.push(text@.subrange(0, 0)) =~= seq![Seq::<char>::empty()]);
        }
        while i < length
            invariant
                start <= i <= length,
                length == text@.len(),
                closed.len() == numbers@.len(),
                forall|k: int| 0 <= k < closed.len() ==> json_u8(#[trigger] closed[k]) == Some(numbers@[k]),
                split_at_dots(text@.take(i as int)) == closed.push(
                    text@.subrange(start as int, i as int),
                ),
            decreases length - i,
        {
            let ghost part = text@.subrange(start as int, i as int);
            proof {
                assert(text@.take(i + 1).drop_last() == text@.take(i as int));
                assert(text@.take(i + 1).last() == text@[i as int]);
            }
            if text.get_char(i) == '.' {
                let number = parse_u8(text.substring_char(start, i));
                proof {
                    assert(split_at_dots(text@.take(i + 1)) == closed.push(part).push(Seq::empty()));
                }
                match number {
                    Some(number) => {
                        numbers.push(number);
                        proof {
                            closed = closed.push(part);
                            assert(text@.subrange(i + 1, i + 1) =~= Seq::<char>::empty());
                        }
                        start = i + 1;
                    },
                    None => {
                        proof {
                            lemma_closed_parts_stay(text@, i + 1);
                            assert(split_at_dots(text@)[closed.len() as int] == part);
                        }
                        return None;
                    },
                }
            } else {
                proof {
                    assert(part.push(text@[i as int]) =~= text@.subrange(start as int, i + 1));
                    assert(closed.push(part).update(closed.len() as int, part.push(text@[i as int]))
                        =~= closed.push(text@.subrange(start as int, i + 1)));
                }
            }
            i += 1;
        }
        proof {
            assert(text@.take(length as int) == text@);
        }
        let ghost last = text@.subrange(start as int, length as int);
        match parse_u8(text.substring_char(start, length)) {
            Some(number) => {
                numbers.push(number);
                proof {
                    closed = closed.push(last);
                }
                if numbers.len() >= 3 {
                    Some(Version::from_numbers(&numbers))
                } else {
                    None
                }
            },
            None => {
                proof {
                    assert(split_at_dots(text@)[closed.len() as int] == last);
                }
                None
            },
        }
    }

    /// The number that stores this version.
    pub fn to_packed(&self) -> (packed: u32)
        ensures
            packed == packed_version(*self),
    {
        let major: u32 = self.major as u32;
        let minor: u32 = self.minor as u32;
        let patch: u32 = self.patch as u32;
        assert(major | minor << 8 | patch << 16 == major + minor * 0x100 + patch * 0x1_0000) by (bit_vector)
            requires
                major < 0x100,
                minor < 0x100,
                patch < 0x100,
        ;
        major | minor << 8 | patch << 16
    }

    /// The version that a stored number stands for.
    pub fn from_packed(packed: u32) -> (version: Version)
        ensures
            version == unpacked_version(packed),
    {
        assert(packed & 0xFF == packed % 0x100) by (bit_vector);
        assert((packed >> 8) & 0xFF == packed / 0x100 % 0x100) by (bit_vector);
        assert((packed >> 16) & 0xFF == packed / 0x1_0000 % 0x100) by (bit_vector);
        Version {
            major: (packed & 0xFF) as u8,
            minor: ((packed >> 8) & 0xFF) as u8,
            patch: ((packed >> 16) & 0xFF) as u8,
        }
    }
}

/// A version that is stored and read back is the same version.
pub proof fn lemma_version_round_trip(version: Version)
    ensures
        unpacked_version(packed_version(version)) == version,
{
}

/// The theme mode of settings that name none: `system`.
pub fn theme_mode_default() -> (mode: String)
    ensures
        mode@ == "system"@,
{
    "system".to_owned()
}

impl AppSettings {
    /// The settings of a fresh installation of the given version.
    pub fn with_version(version: Version) -> (settings: AppSettings)
        ensures
            settings.version == version,
            settings.theme_mode@ == "system"@,
    {
        AppSettings { version, theme_mode: theme_mode_default() }
    }
}

impl Clone for AppSettings {
    fn clone(&self) -> (copy: Self)
        ensures
            copy == *self,
    {
        AppSettings { version: self.version, theme_mode: self.theme_mode.clone() }
    }
}

} // verus!
