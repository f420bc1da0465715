//! The operating-system family that every later stage branches on.

use vstd::prelude::*;
use crate::errors::FreshfetchError;
use crate::text::{ends_with, same_text, starts_with};

verus! {

/// Families of operating systems that the collector knows.
#[derive(Debug, Clone, Copy, PartialEq, Eq)]
pub enum Family {
    Linux,
    Bsd,
    Darwin,
    Windows,
    Solaris,
    Haiku,
    Aix,
    Minix,
    FreeMint,
}

/// The family that a kernel's system name (`uname -s`) belongs to, if any.
pub open spec fn family_of(name: Seq<char>) -> Option<Family> {
    if name == "Darwin"@ {
        Some(Family::Darwin)
    } else if name == "SunOS"@ {
        Some(Family::Solaris)
    } else if name == "Haiku"@ {
        Some(Family::Haiku)
    } else if name == "MINIX"@ {
        Some(Family::Minix)
    } else if name == "AIX"@ {
        Some(Family::Aix)
    } else if name == "FreeMiNT"@ {
        Some(Family::FreeMint)
    } else if name == "Linux"@ {
        Some(Family::Linux)
    } else if name == "DragonFly"@ || name == "Bitrig"@ {
        Some(Family::Bsd)
    } else if "BSD"@.is_suffix_of(name) {
        Some(Family::Bsd)
    } else if "GNU"@.is_prefix_of(name) {
        Some(Family::Linux)
    } else if "CYGWIN"@.is_prefix_of(name) || "MSYS"@.is_prefix_of(name) || "MINGW"@.is_prefix_of(
        name,
    ) {
        Some(Family::Windows)
    } else {
        None
    }
}

/// The name under which templates and probes see a family.
pub open spec fn family_name(f: Family) -> Seq<char> {
    match f {
        Family::Linux => "Linux"@,
        Family::Bsd => "BSD"@,
        Family::Darwin => "Darwin"@,
        Family::Windows => "Windows"@,
        Family::Solaris => "Solaris"@,
        Family::Haiku => "Haiku"@,
        Family::Aix => "AIX"@,
        Family::Minix => "MINIX"@,
        Family::FreeMint => "FreeMiNT"@,
    }
}

impl Family {
    /// The family's name, as templates see it.
    pub fn name(&self) -> (r: String)
        ensures
            r@ == family_name(*self),
    {
        match self {
            Family::Linux => String::from_str("Linux"),
            Family::Bsd => String::from_str("BSD"),
            Family::Darwin => String::from_str("Darwin"),
            Family::Windows => String::from_str("Windows"),
            Family::Solaris => String::from_str("Solaris"),
            Family::Haiku => String::from_str("Haiku"),
            Family::Aix => String::from_str("AIX"),
            Family::Minix => String::from_str("MINIX"),
            Family::FreeMint => String::from_str("FreeMiNT"),
        }
    }
}

/// Maps a kernel's system name to its family; an unknown name is
/// `PlatformUnsupported` with that name.
pub fn resolve_family(name: &str) -> (r: Result<Family, FreshfetchError>)
    ensures
        family_of(name@) is Some ==> r == Ok::<Family, FreshfetchError>(family_of(name@)->0),
        family_of(name@) is None ==> (r matches Err(FreshfetchError::PlatformUnsupported(n))
            && n@ == name@),
{
    if same_text(name, "Darwin") {
        Ok(Family::Darwin)
    } else if same_text(name, "SunOS") {
        Ok(Family::Solaris)
    } else if same_text(name, "Haiku") {
        Ok(Family::Haiku)
    } else if same_text(name, "MINIX") {
        Ok(Family::Minix)
    } else if same_text(name, "AIX") {
        Ok(Family::Aix)
    } else if same_text(name, "FreeMiNT") {
        Ok(Family::FreeMint)
    } else if same_text(name, "Linux") {
        Ok(Family::Linux)
    } else if same_text(name, "DragonFly") || same_text(name, "Bitrig") {
        Ok(Family::Bsd)
    } else if ends_with(name, "BSD") {
        Ok(Family::Bsd)
    } else if starts_with(name, "GNU") {
        Ok(Family::Linux)
    } else if starts_with(name, "CYGWIN") || starts_with(name, "MSYS") || starts_with(
        name,
        "MINGW",
    ) {
        Ok(Family::Windows)
    } else {
        Err(FreshfetchError::PlatformUnsupported(String::from_str(name)))
    }
}

/// The running system: its family, kernel release and machine architecture.
/// Resolved once per run and read-only after that.
#[derive(Debug, Clone, PartialEq, Eq)]
pub struct Kernel {
    pub family: Family,
    pub release: String,
    pub machine: String,
}

impl Kernel {
    /// Builds the identity from the kernel's system name, release and machine
    /// strings; fails exactly when the name matches no family.
    pub fn new(sysname: &str, release: String, machine: String) -> (r: Result<
        Kernel,
        FreshfetchError,
    >)
        ensures
            family_of(sysname@) is Some ==> (r matches Ok(p) && p.family == family_of(sysname@)->0
                && p.release == release && p.machine == machine),
            family_of(sysname@) is None ==> (r matches Err(FreshfetchError::PlatformUnsupported(n))
                && n@ == sysname@),
    {
        match resolve_family(sysname) {
            Ok(family) => Ok(Kernel { family, release, machine }),
            Err(e) => Err(e),
        }
    }
}

/// Every name that ends in "BSD" resolves to the BSD family.
pub proof fn lemma_bsd_suffix(name: Seq<char>)
    requires
        "BSD"@.is_suffix_of(name),
    ensures
        family_of(name) == Some(Family::Bsd),
{
    reveal_strlit("BSD");
    reveal_strlit("Darwin");
    reveal_strlit("SunOS");
    reveal_strlit("Haiku");
    reveal_strlit("MINIX");
    reveal_strlit("AIX");
    reveal_strlit("FreeMiNT");
    reveal_strlit("Linux");
    let n = name.len() as int;
    assert(name.subrange(n - 3, n) =~= "BSD"@);
    assert(name[n - 1] == name.subrange(n - 3, n)[2]);
    assert(name[n - 1] == 'D');
    assert(name != "Darwin"@ && name != "SunOS"@ && name != "Haiku"@ && name != "MINIX"@
        && name != "AIX"@ && name != "FreeMiNT"@ && name != "Linux"@) by {
        if name == "Darwin"@ || name == "SunOS"@ || name == "Haiku"@ || name == "MINIX"@
            || name == "AIX"@ || name == "FreeMiNT"@ || name == "Linux"@ {
            assert(name[n - 1] != 'D');
        }
    }
}

} // verus!
