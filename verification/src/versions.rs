use vstd::prelude::*;
use crate::display::decimal_digits;
use crate::display::push_decimal;
use crate::error::ZError;

verus! {

/// The constants that distinguish one version of the machine from another.
#[derive(Clone, Copy, Debug, PartialEq, Eq, Structural)]
pub struct Version {
    pub version_number: u8,
    pub max_story_len: usize,
    pub packed_multiplier: u8,
}

impl Version {
    /// What `to_string` writes: `Version` and the number.
    pub open spec fn display(self) -> Seq<char> {
        seq!['V', 'e', 'r', 's', 'i', 'o', 'n', ' '] + decimal_digits(self.version_number as nat)
    }

    /// The version as it is shown in diagnostics.
    pub fn to_string(&self) -> (s: String)
        ensures
            s@ == self.display(),
    {
        let mut s = String::new();
        s.push('V');
        s.push('e');
        s.push('r');
        s.push('s');
        s.push('i');
        s.push('o');
        s.push('n');
        s.push(' ');
        assert(s@ == seq!['V', 'e', 'r', 's', 'i', 'o', 'n', ' ']);
        push_decimal(&mut s, self.version_number as usize);
        s
    }
}

/// The table of implemented versions, keyed by version number.
pub open spec fn version_table(number: u8) -> Option<Version> {
    if number == 3 {
        Some(Version { version_number: 3, max_story_len: 0x2_0000, packed_multiplier: 2 })
    } else if number == 5 {
        Some(Version { version_number: 5, max_story_len: 0x4_0000, packed_multiplier: 4 })
    } else {
        None
    }
}

/// Looks a version up by its number.
pub fn number_to_version(number: u8) -> (r: Result<Version, ZError>)
    ensures
        r == match version_table(number) {
            Some(v) => Ok::<Version, ZError>(v),
            None => Err::<Version, ZError>(ZError::UnsupportedVersion),
        },
{
    if number == 3 {
        Ok(Version { version_number: 3, max_story_len: 0x2_0000, packed_multiplier: 2 })
    } else if number == 5 {
        Ok(Version { version_number: 5, max_story_len: 0x4_0000, packed_multiplier: 4 })
    } else {
        Err(ZError::UnsupportedVersion)
    }
}

} // verus!
