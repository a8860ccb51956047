//! What the receiver says it is.

use super::fixed_str::FixedStr;
#[allow(unused_imports)]
use super::fixed_str;
use vstd::prelude::*;

verus! {

/// Room for the software version, and for a value from an extension.
pub const LONG_TEXT: usize = 30;

/// Room for the hardware version.
pub const SHORT_TEXT: usize = 10;

/// What the receiver says it is, from `UBX-MON-VER`.
#[derive(Clone, Copy, PartialEq, Eq, Debug)]
pub struct Version {
    /// Receiver software version, e.g. `ROM SPG 4.04 (...)`.
    pub software: FixedStr<LONG_TEXT>,
    /// Hardware version, e.g. `000A0000`.
    pub hardware: FixedStr<SHORT_TEXT>,
    /// Module name from the `MOD=` extension, e.g. `NEO-M9N`.
    pub module: Option<FixedStr<LONG_TEXT>>,
    /// UBX protocol version from the `PROTVER=` extension, e.g. `32.01`.
    pub protocol: Option<FixedStr<LONG_TEXT>>,
}

/// What a [`Version`] says.
pub struct VersionView {
    pub software: Seq<char>,
    pub hardware: Seq<char>,
    pub module: Option<Seq<char>>,
    pub protocol: Option<Seq<char>>,
}

impl View for Version {
    type V = VersionView;

    open spec fn view(&self) -> VersionView {
        VersionView {
            software: self.software@,
            hardware: self.hardware@,
            module: match self.module {
                Some(module) => Some(module@),
                None => None,
            },
            protocol: match self.protocol {
                Some(protocol) => Some(protocol@),
                None => None,
            },
        }
    }
}

/// What follows `prefix` in the last of `extensions` that begins with it, as
/// far as there is room for it.
pub open spec fn last_value(extensions: Seq<Seq<char>>, prefix: Seq<char>) -> Option<Seq<char>>
    decreases extensions.len(),
{
    if extensions.len() == 0 {
        None
    } else if prefix.is_prefix_of(extensions.last()) {
        Some(
            fixed_str::fitting(extensions.last().skip(prefix.len() as int), LONG_TEXT as int),
        )
    } else {
        last_value(extensions.drop_last(), prefix)
    }
}

/// The version that the strings of a `UBX-MON-VER` message give.
pub open spec fn described(
    software: Seq<char>,
    hardware: Seq<char>,
    extensions: Seq<Seq<char>>,
) -> VersionView {
    VersionView {
        software: fixed_str::fitting(software, LONG_TEXT as int),
        hardware: fixed_str::fitting(hardware, SHORT_TEXT as int),
        module: last_value(extensions, "MOD="@),
        protocol: last_value(extensions, "PROTVER="@),
    }
}

/// Calls `str::strip_prefix`, which takes `prefix` off a string that begins
/// with it, and gives `None` for every other string.
#[verifier::external_body]
fn without_prefix<'a>(text: &'a str, prefix: &str) -> (rest: Option<&'a str>)
    ensures
        match rest {
            Some(rest) => text@ == prefix@ + rest@,
            None => !prefix@.is_prefix_of(text@),
        },
{
    text.strip_prefix(prefix)
}

impl Version {
    /// The strings are well formed.
    pub open spec fn wf(self) -> bool {
        &&& self.software.wf()
        &&& self.hardware.wf()
        &&& self.module matches Some(module) ==> module.wf()
        &&& self.protocol matches Some(protocol) ==> protocol.wf()
    }

    /// Reads the strings of a `UBX-MON-VER` message.
    pub fn from_mon_ver(software: &str, hardware: &str, extensions: &[String]) -> (version: Self)
        ensures
            version.wf(),
            version@ == described(software@, hardware@, super::ubx::texts(extensions@)),
    {
        let mut version = Self {
            software: FixedStr::new(software),
            hardware: FixedStr::new(hardware),
            module: None,
            protocol: None,
        };
        let ghost texts = super::ubx::texts(extensions@);
        let mut at: usize = 0;
        while at < extensions.len()
            invariant
                at <= extensions.len(),
                texts == super::ubx::texts(extensions@),
                version.wf(),
                version@ == described(software@, hardware@, texts.take(at as int)),
            decreases extensions.len() - at,
        {
            let extension = extensions[at].as_str();
            proof {
                reveal_strlit("MOD=");
                reveal_strlit("PROTVER=");
                assert(texts.take(at + 1).drop_last() == texts.take(at as int));
                assert(texts.take(at + 1).last() == extension@);
            }
            if let Some(module) = without_prefix(extension, "MOD=") {
                assert(extension@.skip("MOD="@.len() as int) == module@);
                assert(extension@[0] == 'M');
                version.module = Some(FixedStr::new(module));
            } else if let Some(protocol) = without_prefix(extension, "PROTVER=") {
                assert(extension@.skip("PROTVER="@.len() as int) == protocol@);
                version.protocol = Some(FixedStr::new(protocol));
            }
            at = at + 1;
        }
        assert(texts.take(at as int) == texts);
        version
    }
}

} // verus!
