//! Debian architectures and the architecture tuples (ABI, libc, operating
//! system, CPU) that `dpkg` knows, with wildcards such as `linux-any`.

use vstd::prelude::*;

use crate::error::ParseError;
use crate::text::{split_all, split_str, str_eq, strings_view};

verus! {

/// Debian architectures
///
/// Release architectures and architectures available on Debian ports, and
/// `all` for architecture independent packages.
#[derive(Clone, Copy, Debug, PartialEq, Eq, Hash, Structural)]
pub enum Architecture {
    /// The `all` architecture for architecture independent packages
    All,
    /// The `alpha` architecture
    Alpha,
    /// The `amd64` architecture
    Amd64,
    /// The `arm64` architecture
    Arm64,
    /// The `armel` architecture
    Armel,
    /// The `armhf` architecture
    Armhf,
    /// The `hppa` architecture
    Hppa,
    /// The `hurd-amd64` architecture
    HurdAmd64,
    /// The `hurd-i386` architecture
    HurdI386,
    /// The `i386` architecture
    I386,
    /// The `ia64` architecture
    Ia64,
    /// The `loong64` architecture
    Loong64,
    /// The `m68k` architecture
    M68k,
    /// The `mips64el` architecture
    Mips64el,
    /// The `mipsel` architecture
    Mipsel,
    /// The `powerpc` architecture
    PowerPC,
    /// The `ppc64` architecture
    Ppc64,
    /// The `ppc64el` architecture
    Ppc64el,
    /// The `riscv64` architecture
    Riscv64,
    /// The `s390x` architecture
    S390x,
    /// The `sh4` architecture
    Sh4,
    /// The `sparc64` architecture
    Sparc64,
    /// The `x32` architecture
    X32,
    /// The `source` architecture
    Source,
}

/// The text of each value.
pub open spec fn architecture_name(x: Architecture) -> Seq<char> {
    match x {
        Architecture::All => "all"@,
        Architecture::Alpha => "alpha"@,
        Architecture::Amd64 => "amd64"@,
        Architecture::Arm64 => "arm64"@,
        Architecture::Armel => "armel"@,
        Architecture::Armhf => "armhf"@,
        Architecture::Hppa => "hppa"@,
        Architecture::HurdAmd64 => "hurd-amd64"@,
        Architecture::HurdI386 => "hurd-i386"@,
        Architecture::I386 => "i386"@,
        Architecture::Ia64 => "ia64"@,
        Architecture::Loong64 => "loong64"@,
        Architecture::M68k => "m68k"@,
        Architecture::Mips64el => "mips64el"@,
        Architecture::Mipsel => "mipsel"@,
        Architecture::PowerPC => "powerpc"@,
        Architecture::Ppc64 => "ppc64"@,
        Architecture::Ppc64el => "ppc64el"@,
        Architecture::Riscv64 => "riscv64"@,
        Architecture::S390x => "s390x"@,
        Architecture::Sh4 => "sh4"@,
        Architecture::Sparc64 => "sparc64"@,
        Architecture::X32 => "x32"@,
        Architecture::Source => "source"@,
    }
}

/// The value that a text names, if any.
pub open spec fn parse_architecture(s: Seq<char>) -> Option<Architecture> {
    if s == "all"@ {
        Some(Architecture::All)
    } else if s == "alpha"@ {
        Some(Architecture::Alpha)
    } else if s == "amd64"@ {
        Some(Architecture::Amd64)
    } else if s == "arm64"@ {
        Some(Architecture::Arm64)
    } else if s == "armel"@ {
        Some(Architecture::Armel)
    } else if s == "armhf"@ {
        Some(Architecture::Armhf)
    } else if s == "hppa"@ {
        Some(Architecture::Hppa)
    } else if s == "hurd-amd64"@ {
        Some(Architecture::HurdAmd64)
    } else if s == "hurd-i386"@ {
        Some(Architecture::HurdI386)
    } else if s == "i386"@ {
        Some(Architecture::I386)
    } else if s == "ia64"@ {
        Some(Architecture::Ia64)
    } else if s == "loong64"@ {
        Some(Architecture::Loong64)
    } else if s == "m68k"@ {
        Some(Architecture::M68k)
    } else if s == "mips64el"@ {
        Some(Architecture::Mips64el)
    } else if s == "mipsel"@ {
        Some(Architecture::Mipsel)
    } else if s == "powerpc"@ {
        Some(Architecture::PowerPC)
    } else if s == "ppc64"@ {
        Some(Architecture::Ppc64)
    } else if s == "ppc64el"@ {
        Some(Architecture::Ppc64el)
    } else if s == "riscv64"@ {
        Some(Architecture::Riscv64)
    } else if s == "s390x"@ {
        Some(Architecture::S390x)
    } else if s == "sh4"@ {
        Some(Architecture::Sh4)
    } else if s == "sparc64"@ {
        Some(Architecture::Sparc64)
    } else if s == "x32"@ {
        Some(Architecture::X32)
    } else if s == "source"@ {
        Some(Architecture::Source)
    } else {
        None
    }
}

impl Architecture {
    /// The text of the value.
    pub fn as_str(&self) -> (r: &'static str)
        ensures
            r@ == architecture_name(*self),
    {
        match self {
            Architecture::All => "all",
            Architecture::Alpha => "alpha",
            Architecture::Amd64 => "amd64",
            Architecture::Arm64 => "arm64",
            Architecture::Armel => "armel",
            Architecture::Armhf => "armhf",
            Architecture::Hppa => "hppa",
            Architecture::HurdAmd64 => "hurd-amd64",
            Architecture::HurdI386 => "hurd-i386",
            Architecture::I386 => "i386",
            Architecture::Ia64 => "ia64",
            Architecture::Loong64 => "loong64",
            Architecture::M68k => "m68k",
            Architecture::Mips64el => "mips64el",
            Architecture::Mipsel => "mipsel",
            Architecture::PowerPC => "powerpc",
            Architecture::Ppc64 => "ppc64",
            Architecture::Ppc64el => "ppc64el",
            Architecture::Riscv64 => "riscv64",
            Architecture::S390x => "s390x",
            Architecture::Sh4 => "sh4",
            Architecture::Sparc64 => "sparc64",
            Architecture::X32 => "x32",
            Architecture::Source => "source",
        }
    }

    /// Parses the text of a value.
    pub fn try_from(value: &str) -> (r: Result<Self, ParseError>)
        ensures
            r == (match parse_architecture(value@) {
                Some(x) => Ok(x),
                None => Err(ParseError::InvalidArchitecture),
            }),
    {
        if str_eq(value, "all") {
            Ok(Architecture::All)
        } else if str_eq(value, "alpha") {
            Ok(Architecture::Alpha)
        } else if str_eq(value, "amd64") {
            Ok(Architecture::Amd64)
        } else if str_eq(value, "arm64") {
            Ok(Architecture::Arm64)
        } else if str_eq(value, "armel") {
            Ok(Architecture::Armel)
        } else if str_eq(value, "armhf") {
            Ok(Architecture::Armhf)
        } else if str_eq(value, "hppa") {
            Ok(Architecture::Hppa)
        } else if str_eq(value, "hurd-amd64") {
            Ok(Architecture::HurdAmd64)
        } else if str_eq(value, "hurd-i386") {
            Ok(Architecture::HurdI386)
        } else if str_eq(value, "i386") {
            Ok(Architecture::I386)
        } else if str_eq(value, "ia64") {
            Ok(Architecture::Ia64)
        } else if str_eq(value, "loong64") {
            Ok(Architecture::Loong64)
        } else if str_eq(value, "m68k") {
            Ok(Architecture::M68k)
        } else if str_eq(value, "mips64el") {
            Ok(Architecture::Mips64el)
        } else if str_eq(value, "mipsel") {
            Ok(Architecture::Mipsel)
        } else if str_eq(value, "powerpc") {
            Ok(Architecture::PowerPC)
        } else if str_eq(value, "ppc64") {
            Ok(Architecture::Ppc64)
        } else if str_eq(value, "ppc64el") {
            Ok(Architecture::Ppc64el)
        } else if str_eq(value, "riscv64") {
            Ok(Architecture::Riscv64)
        } else if str_eq(value, "s390x") {
            Ok(Architecture::S390x)
        } else if str_eq(value, "sh4") {
            Ok(Architecture::Sh4)
        } else if str_eq(value, "sparc64") {
            Ok(Architecture::Sparc64)
        } else if str_eq(value, "x32") {
            Ok(Architecture::X32)
        } else if str_eq(value, "source") {
            Ok(Architecture::Source)
        } else {
            Err(ParseError::InvalidArchitecture)
        }
    }
}

impl std::str::FromStr for Architecture {
    type Err = ParseError;

    fn from_str(s: &str) -> (r: Result<Self, Self::Err>)
        ensures
            r == (match parse_architecture(s@) {
                Some(x) => Ok(x),
                None => Err(ParseError::InvalidArchitecture),
            }),
    {
        Self::try_from(s)
    }
}

/// The name of an architecture starts with a lower case letter or a digit.
pub proof fn lemma_architecture_name_start(x: Architecture)
    ensures
        architecture_name(x).len() > 0,
        ('a' <= architecture_name(x)[0] && architecture_name(x)[0] <= 'z') || ('0' <= architecture_name(x)[0]
            && architecture_name(x)[0] <= '9'),
{
    reveal_strlit("all");
    reveal_strlit("alpha");
    reveal_strlit("amd64");
    reveal_strlit("arm64");
    reveal_strlit("armel");
    reveal_strlit("armhf");
    reveal_strlit("hppa");
    reveal_strlit("hurd-amd64");
    reveal_strlit("hurd-i386");
    reveal_strlit("i386");
    reveal_strlit("ia64");
    reveal_strlit("loong64");
    reveal_strlit("m68k");
    reveal_strlit("mips64el");
    reveal_strlit("mipsel");
    reveal_strlit("powerpc");
    reveal_strlit("ppc64");
    reveal_strlit("ppc64el");
    reveal_strlit("riscv64");
    reveal_strlit("s390x");
    reveal_strlit("sh4");
    reveal_strlit("sparc64");
    reveal_strlit("x32");
    reveal_strlit("source");
}

/// Parsing the text of a value gives the value back.
pub proof fn lemma_architecture_text_parse(x: Architecture)
    ensures
        parse_architecture(architecture_name(x)) == Some(x),
{
    reveal_strlit("all");
    reveal_strlit("alpha");
    reveal_strlit("amd64");
    reveal_strlit("arm64");
    reveal_strlit("armel");
    reveal_strlit("armhf");
    reveal_strlit("hppa");
    reveal_strlit("hurd-amd64");
    reveal_strlit("hurd-i386");
    reveal_strlit("i386");
    reveal_strlit("ia64");
    reveal_strlit("loong64");
    reveal_strlit("m68k");
    reveal_strlit("mips64el");
    reveal_strlit("mipsel");
    reveal_strlit("powerpc");
    reveal_strlit("ppc64");
    reveal_strlit("ppc64el");
    reveal_strlit("riscv64");
    reveal_strlit("s390x");
    reveal_strlit("sh4");
    reveal_strlit("sparc64");
    reveal_strlit("x32");
    reveal_strlit("source");
    match x {
        Architecture::All => {
        },
        Architecture::Alpha => {
            assert("alpha"@.len() != "all"@.len());
        },
        Architecture::Amd64 => {
            assert("amd64"@.len() != "all"@.len());
            assert("amd64"@[1] != "alpha"@[1]);
        },
        Architecture::Arm64 => {
            assert("arm64"@.len() != "all"@.len());
            assert("arm64"@[1] != "alpha"@[1]);
            assert("arm64"@[1] != "amd64"@[1]);
        },
        Architecture::Armel => {
            assert("armel"@.len() != "all"@.len());
            assert("armel"@[1] != "alpha"@[1]);
            assert("armel"@[1] != "amd64"@[1]);
            assert("armel"@[3] != "arm64"@[3]);
        },
        Architecture::Armhf => {
            assert("armhf"@.len() != "all"@.len());
            assert("armhf"@[1] != "alpha"@[1]);
            assert("armhf"@[1] != "amd64"@[1]);
            assert("armhf"@[3] != "arm64"@[3]);
            assert("armhf"@[3] != "armel"@[3]);
        },
        Architecture::Hppa => {
            assert("hppa"@.len() != "all"@.len());
            assert("hppa"@.len() != "alpha"@.len());
            assert("hppa"@.len() != "amd64"@.len());
            assert("hppa"@.len() != "arm64"@.len());
            assert("hppa"@.len() != "armel"@.len());
            assert("hppa"@.len() != "armhf"@.len());
        },
        Architecture::HurdAmd64 => {
            assert("hurd-amd64"@.len() != "all"@.len());
            assert("hurd-amd64"@.len() != "alpha"@.len());
            assert("hurd-amd64"@.len() != "amd64"@.len());
            assert("hurd-amd64"@.len() != "arm64"@.len());
            assert("hurd-amd64"@.len() != "armel"@.len());
            assert("hurd-amd64"@.len() != "armhf"@.len());
            assert("hurd-amd64"@.len() != "hppa"@.len());
        },
        Architecture::HurdI386 => {
            assert("hurd-i386"@.len() != "all"@.len());
            assert("hurd-i386"@.len() != "alpha"@.len());
            assert("hurd-i386"@.len() != "amd64"@.len());
            assert("hurd-i386"@.len() != "arm64"@.len());
            assert("hurd-i386"@.len() != "armel"@.len());
            assert("hurd-i386"@.len() != "armhf"@.len());
            assert("hurd-i386"@.len() != "hppa"@.len());
            assert("hurd-i386"@.len() != "hurd-amd64"@.len());
        },
        Architecture::I386 => {
            assert("i386"@.len() != "all"@.len());
            assert("i386"@.len() != "alpha"@.len());
            assert("i386"@.len() != "amd64"@.len());
            assert("i386"@.len() != "arm64"@.len());
            assert("i386"@.len() != "armel"@.len());
            assert("i386"@.len() != "armhf"@.len());
            assert("i386"@[0] != "hppa"@[0]);
            assert("i386"@.len() != "hurd-amd64"@.len());
            assert("i386"@.len() != "hurd-i386"@.len());
        },
        Architecture::Ia64 => {
            assert("ia64"@.len() != "all"@.len());
            assert("ia64"@.len() != "alpha"@.len());
            assert("ia64"@.len() != "amd64"@.len());
            assert("ia64"@.len() != "arm64"@.len());
            assert("ia64"@.len() != "armel"@.len());
            assert("ia64"@.len() != "armhf"@.len());
            assert("ia64"@[0] != "hppa"@[0]);
            assert("ia64"@.len() != "hurd-amd64"@.len());
            assert("ia64"@.len() != "hurd-i386"@.len());
            assert("ia64"@[1] != "i386"@[1]);
        },
        Architecture::Loong64 => {
            assert("loong64"@.len() != "all"@.len());
            assert("loong64"@.len() != "alpha"@.len());
            assert("loong64"@.len() != "amd64"@.len());
            assert("loong64"@.len() != "arm64"@.len());
            assert("loong64"@.len() != "armel"@.len());
            assert("loong64"@.len() != "armhf"@.len());
            assert("loong64"@.len() != "hppa"@.len());
            assert("loong64"@.len() != "hurd-amd64"@.len());
            assert("loong64"@.len() != "hurd-i386"@.len());
            assert("loong64"@.len() != "i386"@.len());
            assert("loong64"@.len() != "ia64"@.len());
        },
        Architecture::M68k => {
            assert("m68k"@.len() != "all"@.len());
            assert("m68k"@.len() != "alpha"@.len());
            assert("m68k"@.len() != "amd64"@.len());
            assert("m68k"@.len() != "arm64"@.len());
            assert("m68k"@.len() != "armel"@.len());
            assert("m68k"@.len() != "armhf"@.len());
            assert("m68k"@[0] != "hppa"@[0]);
            assert("m68k"@.len() != "hurd-amd64"@.len());
            assert("m68k"@.len() != "hurd-i386"@.len());
            assert("m68k"@[0] != "i386"@[0]);
            assert("m68k"@[0] != "ia64"@[0]);
            assert("m68k"@.len() != "loong64"@.len());
        },
        Architecture::Mips64el => {
            assert("mips64el"@.len() != "all"@.len());
            assert("mips64el"@.len() != "alpha"@.len());
            assert("mips64el"@.len() != "amd64"@.len());
            assert("mips64el"@.len() != "arm64"@.len());
            assert("mips64el"@.len() != "armel"@.len());
            assert("mips64el"@.len() != "armhf"@.len());
            assert("mips64el"@.len() != "hppa"@.len());
            assert("mips64el"@.len() != "hurd-amd64"@.len());
            assert("mips64el"@.len() != "hurd-i386"@.len());
            assert("mips64el"@.len() != "i386"@.len());
            assert("mips64el"@.len() != "ia64"@.len());
            assert("mips64el"@.len() != "loong64"@.len());
            assert("mips64el"@.len() != "m68k"@.len());
        },
        Architecture::Mipsel => {
            assert("mipsel"@.len() != "all"@.len());
            assert("mipsel"@.len() != "alpha"@.len());
            assert("mipsel"@.len() != "amd64"@.len());
            assert("mipsel"@.len() != "arm64"@.len());
            assert("mipsel"@.len() != "armel"@.len());
            assert("mipsel"@.len() != "armhf"@.len());
            assert("mipsel"@.len() != "hppa"@.len());
            assert("mipsel"@.len() != "hurd-amd64"@.len());
            assert("mipsel"@.len() != "hurd-i386"@.len());
            assert("mipsel"@.len() != "i386"@.len());
            assert("mipsel"@.len() != "ia64"@.len());
            assert("mipsel"@.len() != "loong64"@.len());
            assert("mipsel"@.len() != "m68k"@.len());
            assert("mipsel"@.len() != "mips64el"@.len());
        },
        Architecture::PowerPC => {
            assert("powerpc"@.len() != "all"@.len());
            assert("powerpc"@.len() != "alpha"@.len());
            assert("powerpc"@.len() != "amd64"@.len());
            assert("powerpc"@.len() != "arm64"@.len());
            assert("powerpc"@.len() != "armel"@.len());
            assert("powerpc"@.len() != "armhf"@.len());
            assert("powerpc"@.len() != "hppa"@.len());
            assert("powerpc"@.len() != "hurd-amd64"@.len());
            assert("powerpc"@.len() != "hurd-i386"@.len());
            assert("powerpc"@.len() != "i386"@.len());
            assert("powerpc"@.len() != "ia64"@.len());
            assert("powerpc"@[0] != "loong64"@[0]);
            assert("powerpc"@.len() != "m68k"@.len());
            assert("powerpc"@.len() != "mips64el"@.len());
            assert("powerpc"@.len() != "mipsel"@.len());
        },
        Architecture::Ppc64 => {
            assert("ppc64"@.len() != "all"@.len());
            assert("ppc64"@[0] != "alpha"@[0]);
            assert("ppc64"@[0] != "amd64"@[0]);
            assert("ppc64"@[0] != "arm64"@[0]);
            assert("ppc64"@[0] != "armel"@[0]);
            assert("ppc64"@[0] != "armhf"@[0]);
            assert("ppc64"@.len() != "hppa"@.len());
            assert("ppc64"@.len() != "hurd-amd64"@.len());
            assert("ppc64"@.len() != "hurd-i386"@.len());
            assert("ppc64"@.len() != "i386"@.len());
            assert("ppc64"@.len() != "ia64"@.len());
            assert("ppc64"@.len() != "loong64"@.len());
            assert("ppc64"@.len() != "m68k"@.len());
            assert("ppc64"@.len() != "mips64el"@.len());
            assert("ppc64"@.len() != "mipsel"@.len());
            assert("ppc64"@.len() != "powerpc"@.len());
        },
        Architecture::Ppc64el => {
            assert("ppc64el"@.len() != "all"@.len());
            assert("ppc64el"@.len() != "alpha"@.len());
            assert("ppc64el"@.len() != "amd64"@.len());
            assert("ppc64el"@.len() != "arm64"@.len());
            assert("ppc64el"@.len() != "armel"@.len());
            assert("ppc64el"@.len() != "armhf"@.len());
            assert("ppc64el"@.len() != "hppa"@.len());
            assert("ppc64el"@.len() != "hurd-amd64"@.len());
            assert("ppc64el"@.len() != "hurd-i386"@.len());
            assert("ppc64el"@.len() != "i386"@.len());
            assert("ppc64el"@.len() != "ia64"@.len());
            assert("ppc64el"@[0] != "loong64"@[0]);
            assert("ppc64el"@.len() != "m68k"@.len());
            assert("ppc64el"@.len() != "mips64el"@.len());
            assert("ppc64el"@.len() != "mipsel"@.len());
            assert("ppc64el"@[1] != "powerpc"@[1]);
            assert("ppc64el"@.len() != "ppc64"@.len());
        },
        Architecture::Riscv64 => {
            assert("riscv64"@.len() != "all"@.len());
            assert("riscv64"@.len() != "alpha"@.len());
            assert("riscv64"@.len() != "amd64"@.len());
            assert("riscv64"@.len() != "arm64"@.len());
            assert("riscv64"@.len() != "armel"@.len());
            assert("riscv64"@.len() != "armhf"@.len());
            assert("riscv64"@.len() != "hppa"@.len());
            assert("riscv64"@.len() != "hurd-amd64"@.len());
            assert("riscv64"@.len() != "hurd-i386"@.len());
            assert("riscv64"@.len() != "i386"@.len());
            assert("riscv64"@.len() != "ia64"@.len());
            assert("riscv64"@[0] != "loong64"@[0]);
            assert("riscv64"@.len() != "m68k"@.len());
            assert("riscv64"@.len() != "mips64el"@.len());
            assert("riscv64"@.len() != "mipsel"@.len());
            assert("riscv64"@[0] != "powerpc"@[0]);
            assert("riscv64"@.len() != "ppc64"@.len());
            assert("riscv64"@[0] != "ppc64el"@[0]);
        },
        Architecture::S390x => {
            assert("s390x"@.len() != "all"@.len());
            assert("s390x"@[0] != "alpha"@[0]);
            assert("s390x"@[0] != "amd64"@[0]);
            assert("s390x"@[0] != "arm64"@[0]);
            assert("s390x"@[0] != "armel"@[0]);
            assert("s390x"@[0] != "armhf"@[0]);
            assert("s390x"@.len() != "hppa"@.len());
            assert("s390x"@.len() != "hurd-amd64"@.len());
            assert("s390x"@.len() != "hurd-i386"@.len());
            assert("s390x"@.len() != "i386"@.len());
            assert("s390x"@.len() != "ia64"@.len());
            assert("s390x"@.len() != "loong64"@.len());
            assert("s390x"@.len() != "m68k"@.len());
            assert("s390x"@.len() != "mips64el"@.len());
            assert("s390x"@.len() != "mipsel"@.len());
            assert("s390x"@.len() != "powerpc"@.len());
            assert("s390x"@[0] != "ppc64"@[0]);
            assert("s390x"@.len() != "ppc64el"@.len());
            assert("s390x"@.len() != "riscv64"@.len());
        },
        Architecture::Sh4 => {
            assert("sh4"@[0] != "all"@[0]);
            assert("sh4"@.len() != "alpha"@.len());
            assert("sh4"@.len() != "amd64"@.len());
            assert("sh4"@.len() != "arm64"@.len());
            assert("sh4"@.len() != "armel"@.len());
            assert("sh4"@.len() != "armhf"@.len());
            assert("sh4"@.len() != "hppa"@.len());
            assert("sh4"@.len() != "hurd-amd64"@.len());
            assert("sh4"@.len() != "hurd-i386"@.len());
            assert("sh4"@.len() != "i386"@.len());
            assert("sh4"@.len() != "ia64"@.len());
            assert("sh4"@.len() != "loong64"@.len());
            assert("sh4"@.len() != "m68k"@.len());
            assert("sh4"@.len() != "mips64el"@.len());
            assert("sh4"@.len() != "mipsel"@.len());
            assert("sh4"@.len() != "powerpc"@.len());
            assert("sh4"@.len() != "ppc64"@.len());
            assert("sh4"@.len() != "ppc64el"@.len());
            assert("sh4"@.len() != "riscv64"@.len());
            assert("sh4"@.len() != "s390x"@.len());
        },
        Architecture::Sparc64 => {
            assert("sparc64"@.len() != "all"@.len());
            assert("sparc64"@.len() != "alpha"@.len());
            assert("sparc64"@.len() != "amd64"@.len());
            assert("sparc64"@.len() != "arm64"@.len());
            assert("sparc64"@.len() != "armel"@.len());
            assert("sparc64"@.len() != "armhf"@.len());
            assert("sparc64"@.len() != "hppa"@.len());
            assert("sparc64"@.len() != "hurd-amd64"@.len());
            assert("sparc64"@.len() != "hurd-i386"@.len());
            assert("sparc64"@.len() != "i386"@.len());
            assert("sparc64"@.len() != "ia64"@.len());
            assert("sparc64"@[0] != "loong64"@[0]);
            assert("sparc64"@.len() != "m68k"@.len());
            assert("sparc64"@.len() != "mips64el"@.len());
            assert("sparc64"@.len() != "mipsel"@.len());
            assert("sparc64"@[0] != "powerpc"@[0]);
            assert("sparc64"@.len() != "ppc64"@.len());
            assert("sparc64"@[0] != "ppc64el"@[0]);
            assert("sparc64"@[0] != "riscv64"@[0]);
            assert("sparc64"@.len() != "s390x"@.len());
            assert("sparc64"@.len() != "sh4"@.len());
        },
        Architecture::X32 => {
            assert("x32"@[0] != "all"@[0]);
            assert("x32"@.len() != "alpha"@.len());
            assert("x32"@.len() != "amd64"@.len());
            assert("x32"@.len() != "arm64"@.len());
            assert("x32"@.len() != "armel"@.len());
            assert("x32"@.len() != "armhf"@.len());
            assert("x32"@.len() != "hppa"@.len());
            assert("x32"@.len() != "hurd-amd64"@.len());
            assert("x32"@.len() != "hurd-i386"@.len());
            assert("x32"@.len() != "i386"@.len());
            assert("x32"@.len() != "ia64"@.len());
            assert("x32"@.len() != "loong64"@.len());
            assert("x32"@.len() != "m68k"@.len());
            assert("x32"@.len() != "mips64el"@.len());
            assert("x32"@.len() != "mipsel"@.len());
            assert("x32"@.len() != "powerpc"@.len());
            assert("x32"@.len() != "ppc64"@.len());
            assert("x32"@.len() != "ppc64el"@.len());
            assert("x32"@.len() != "riscv64"@.len());
            assert("x32"@.len() != "s390x"@.len());
            assert("x32"@[0] != "sh4"@[0]);
            assert("x32"@.len() != "sparc64"@.len());
        },
        Architecture::Source => {
            assert("source"@.len() != "all"@.len());
            assert("source"@.len() != "alpha"@.len());
            assert("source"@.len() != "amd64"@.len());
            assert("source"@.len() != "arm64"@.len());
            assert("source"@.len() != "armel"@.len());
            assert("source"@.len() != "armhf"@.len());
            assert("source"@.len() != "hppa"@.len());
            assert("source"@.len() != "hurd-amd64"@.len());
            assert("source"@.len() != "hurd-i386"@.len());
            assert("source"@.len() != "i386"@.len());
            assert("source"@.len() != "ia64"@.len());
            assert("source"@.len() != "loong64"@.len());
            assert("source"@.len() != "m68k"@.len());
            assert("source"@.len() != "mips64el"@.len());
            assert("source"@[0] != "mipsel"@[0]);
            assert("source"@.len() != "powerpc"@.len());
            assert("source"@.len() != "ppc64"@.len());
            assert("source"@.len() != "ppc64el"@.len());
            assert("source"@.len() != "riscv64"@.len());
            assert("source"@.len() != "s390x"@.len());
            assert("source"@.len() != "sh4"@.len());
            assert("source"@.len() != "sparc64"@.len());
            assert("source"@.len() != "x32"@.len());
        },
    }
}

/// Representation of ABIs known by `dpkg`
#[derive(Clone, Copy, Debug, PartialEq, Eq, Hash, Structural)]
pub enum ABI {
    /// Generic base ABI
    Base,
    /// eabi for ARM
    EmbeddedABI,
    /// eabihf for ARM
    EmbeddedABIHardFloat,
    /// x32 ABI for x86-64
    X32,
    /// abi64 for mips64
    ABI64,
    /// abin32 for mips
    ABIn32,
}

/// The text of each value.
pub open spec fn abi_name(x: ABI) -> Seq<char> {
    match x {
        ABI::Base => "base"@,
        ABI::EmbeddedABI => "eabi"@,
        ABI::EmbeddedABIHardFloat => "eabihf"@,
        ABI::X32 => "x32"@,
        ABI::ABI64 => "abi64"@,
        ABI::ABIn32 => "abin32"@,
    }
}

/// The value that a text names, if any.
pub open spec fn parse_abi(s: Seq<char>) -> Option<ABI> {
    if s == "base"@ {
        Some(ABI::Base)
    } else if s == "eabi"@ {
        Some(ABI::EmbeddedABI)
    } else if s == "eabihf"@ {
        Some(ABI::EmbeddedABIHardFloat)
    } else if s == "x32"@ {
        Some(ABI::X32)
    } else if s == "abi64"@ {
        Some(ABI::ABI64)
    } else if s == "abin32"@ {
        Some(ABI::ABIn32)
    } else {
        None
    }
}

impl ABI {
    /// The text of the value.
    pub fn as_str(&self) -> (r: &'static str)
        ensures
            r@ == abi_name(*self),
    {
        match self {
            ABI::Base => "base",
            ABI::EmbeddedABI => "eabi",
            ABI::EmbeddedABIHardFloat => "eabihf",
            ABI::X32 => "x32",
            ABI::ABI64 => "abi64",
            ABI::ABIn32 => "abin32",
        }
    }

    /// Parses the text of a value.
    pub fn try_from(value: &str) -> (r: Result<Self, ParseError>)
        ensures
            r == (match parse_abi(value@) {
                Some(x) => Ok(x),
                None => Err(ParseError::InvalidArchitecture),
            }),
    {
        if str_eq(value, "base") {
            Ok(ABI::Base)
        } else if str_eq(value, "eabi") {
            Ok(ABI::EmbeddedABI)
        } else if str_eq(value, "eabihf") {
            Ok(ABI::EmbeddedABIHardFloat)
        } else if str_eq(value, "x32") {
            Ok(ABI::X32)
        } else if str_eq(value, "abi64") {
            Ok(ABI::ABI64)
        } else if str_eq(value, "abin32") {
            Ok(ABI::ABIn32)
        } else {
            Err(ParseError::InvalidArchitecture)
        }
    }
}

impl std::str::FromStr for ABI {
    type Err = ParseError;

    fn from_str(s: &str) -> (r: Result<Self, Self::Err>)
        ensures
            r == (match parse_abi(s@) {
                Some(x) => Ok(x),
                None => Err(ParseError::InvalidArchitecture),
            }),
    {
        Self::try_from(s)
    }
}

/// Parsing the text of a value gives the value back.
pub proof fn lemma_abi_text_parse(x: ABI)
    ensures
        parse_abi(abi_name(x)) == Some(x),
{
    reveal_strlit("base");
    reveal_strlit("eabi");
    reveal_strlit("eabihf");
    reveal_strlit("x32");
    reveal_strlit("abi64");
    reveal_strlit("abin32");
    match x {
        ABI::Base => {
        },
        ABI::EmbeddedABI => {
            assert("eabi"@[0] != "base"@[0]);
        },
        ABI::EmbeddedABIHardFloat => {
            assert("eabihf"@.len() != "base"@.len());
            assert("eabihf"@.len() != "eabi"@.len());
        },
        ABI::X32 => {
            assert("x32"@.len() != "base"@.len());
            assert("x32"@.len() != "eabi"@.len());
            assert("x32"@.len() != "eabihf"@.len());
        },
        ABI::ABI64 => {
            assert("abi64"@.len() != "base"@.len());
            assert("abi64"@.len() != "eabi"@.len());
            assert("abi64"@.len() != "eabihf"@.len());
            assert("abi64"@.len() != "x32"@.len());
        },
        ABI::ABIn32 => {
            assert("abin32"@.len() != "base"@.len());
            assert("abin32"@.len() != "eabi"@.len());
            assert("abin32"@[0] != "eabihf"@[0]);
            assert("abin32"@.len() != "x32"@.len());
            assert("abin32"@.len() != "abi64"@.len());
        },
    }
}

/// Representation of libcs known by `dpkg`
#[derive(Clone, Copy, Debug, PartialEq, Eq, Hash, Structural)]
pub enum LibC {
    /// GNU's `libc`, i.e., `glibc`
    GNU,
    /// `musl`
    Musl,
    /// `uclibc`
    UCLibC,
    /// BSD's `libc`
    BSD,
}

/// The text of each value.
pub open spec fn libc_name(x: LibC) -> Seq<char> {
    match x {
        LibC::GNU => "gnu"@,
        LibC::Musl => "musl"@,
        LibC::UCLibC => "uclibc"@,
        LibC::BSD => "bsd"@,
    }
}

/// The value that a text names, if any.
pub open spec fn parse_libc(s: Seq<char>) -> Option<LibC> {
    if s == "gnu"@ {
        Some(LibC::GNU)
    } else if s == "musl"@ {
        Some(LibC::Musl)
    } else if s == "uclibc"@ {
        Some(LibC::UCLibC)
    } else if s == "bsd"@ {
        Some(LibC::BSD)
    } else {
        None
    }
}

impl LibC {
    /// The text of the value.
    pub fn as_str(&self) -> (r: &'static str)
        ensures
            r@ == libc_name(*self),
    {
        match self {
            LibC::GNU => "gnu",
            LibC::Musl => "musl",
            LibC::UCLibC => "uclibc",
            LibC::BSD => "bsd",
        }
    }

    /// Parses the text of a value.
    pub fn try_from(value: &str) -> (r: Result<Self, ParseError>)
        ensures
            r == (match parse_libc(value@) {
                Some(x) => Ok(x),
                None => Err(ParseError::InvalidArchitecture),
            }),
    {
        if str_eq(value, "gnu") {
            Ok(LibC::GNU)
        } else if str_eq(value, "musl") {
            Ok(LibC::Musl)
        } else if str_eq(value, "uclibc") {
            Ok(LibC::UCLibC)
        } else if str_eq(value, "bsd") {
            Ok(LibC::BSD)
        } else {
            Err(ParseError::InvalidArchitecture)
        }
    }
}

impl std::str::FromStr for LibC {
    type Err = ParseError;

    fn from_str(s: &str) -> (r: Result<Self, Self::Err>)
        ensures
            r == (match parse_libc(s@) {
                Some(x) => Ok(x),
                None => Err(ParseError::InvalidArchitecture),
            }),
    {
        Self::try_from(s)
    }
}

/// Parsing the text of a value gives the value back.
pub proof fn lemma_libc_text_parse(x: LibC)
    ensures
        parse_libc(libc_name(x)) == Some(x),
{
    reveal_strlit("gnu");
    reveal_strlit("musl");
    reveal_strlit("uclibc");
    reveal_strlit("bsd");
    match x {
        LibC::GNU => {
        },
        LibC::Musl => {
            assert("musl"@.len() != "gnu"@.len());
        },
        LibC::UCLibC => {
            assert("uclibc"@.len() != "gnu"@.len());
            assert("uclibc"@.len() != "musl"@.len());
        },
        LibC::BSD => {
            assert("bsd"@[0] != "gnu"@[0]);
            assert("bsd"@.len() != "musl"@.len());
            assert("bsd"@.len() != "uclibc"@.len());
        },
    }
}

/// Representation of operating systems known by `dpkg`
#[derive(Clone, Copy, Debug, PartialEq, Eq, Hash, Structural)]
pub enum OperatingSystem {
    /// Linux
    Linux,
    /// Hurd
    Hurd,
    /// FreeBSD
    FreeBSD,
    /// OpenBSD
    OpenBSD,
    /// NetBSD
    NetBSD,
    /// Darwin
    Darwin,
    /// AIX
    AIX,
    /// Solaris
    Solaris,
}

/// The text of each value.
pub open spec fn os_name(x: OperatingSystem) -> Seq<char> {
    match x {
        OperatingSystem::Linux => "linux"@,
        OperatingSystem::Hurd => "hurd"@,
        OperatingSystem::FreeBSD => "freebsd"@,
        OperatingSystem::OpenBSD => "openbsd"@,
        OperatingSystem::NetBSD => "netbsd"@,
        OperatingSystem::Darwin => "darwin"@,
        OperatingSystem::AIX => "aix"@,
        OperatingSystem::Solaris => "solaris"@,
    }
}

/// The value that a text names, if any.
pub open spec fn parse_os(s: Seq<char>) -> Option<OperatingSystem> {
    if s == "linux"@ {
        Some(OperatingSystem::Linux)
    } else if s == "hurd"@ {
        Some(OperatingSystem::Hurd)
    } else if s == "freebsd"@ {
        Some(OperatingSystem::FreeBSD)
    } else if s == "openbsd"@ {
        Some(OperatingSystem::OpenBSD)
    } else if s == "netbsd"@ {
        Some(OperatingSystem::NetBSD)
    } else if s == "darwin"@ {
        Some(OperatingSystem::Darwin)
    } else if s == "aix"@ {
        Some(OperatingSystem::AIX)
    } else if s == "solaris"@ {
        Some(OperatingSystem::Solaris)
    } else {
        None
    }
}

impl OperatingSystem {
    /// The text of the value.
    pub fn as_str(&self) -> (r: &'static str)
        ensures
            r@ == os_name(*self),
    {
        match self {
            OperatingSystem::Linux => "linux",
            OperatingSystem::Hurd => "hurd",
            OperatingSystem::FreeBSD => "freebsd",
            OperatingSystem::OpenBSD => "openbsd",
            OperatingSystem::NetBSD => "netbsd",
            OperatingSystem::Darwin => "darwin",
            OperatingSystem::AIX => "aix",
            OperatingSystem::Solaris => "solaris",
        }
    }

    /// Parses the text of a value.
    pub fn try_from(value: &str) -> (r: Result<Self, ParseError>)
        ensures
            r == (match parse_os(value@) {
                Some(x) => Ok(x),
                None => Err(ParseError::InvalidArchitecture),
            }),
    {
        if str_eq(value, "linux") {
            Ok(OperatingSystem::Linux)
        } else if str_eq(value, "hurd") {
            Ok(OperatingSystem::Hurd)
        } else if str_eq(value, "freebsd") {
            Ok(OperatingSystem::FreeBSD)
        } else if str_eq(value, "openbsd") {
            Ok(OperatingSystem::OpenBSD)
        } else if str_eq(value, "netbsd") {
            Ok(OperatingSystem::NetBSD)
        } else if str_eq(value, "darwin") {
            Ok(OperatingSystem::Darwin)
        } else if str_eq(value, "aix") {
            Ok(OperatingSystem::AIX)
        } else if str_eq(value, "solaris") {
            Ok(OperatingSystem::Solaris)
        } else {
            Err(ParseError::InvalidArchitecture)
        }
    }
}

impl std::str::FromStr for OperatingSystem {
    type Err = ParseError;

    fn from_str(s: &str) -> (r: Result<Self, Self::Err>)
        ensures
            r == (match parse_os(s@) {
                Some(x) => Ok(x),
                None => Err(ParseError::InvalidArchitecture),
            }),
    {
        Self::try_from(s)
    }
}

/// Parsing the text of a value gives the value back.
pub proof fn lemma_os_text_parse(x: OperatingSystem)
    ensures
        parse_os(os_name(x)) == Some(x),
{
    reveal_strlit("linux");
    reveal_strlit("hurd");
    reveal_strlit("freebsd");
    reveal_strlit("openbsd");
    reveal_strlit("netbsd");
    reveal_strlit("darwin");
    reveal_strlit("aix");
    reveal_strlit("solaris");
    match x {
        OperatingSystem::Linux => {
        },
        OperatingSystem::Hurd => {
            assert("hurd"@.len() != "linux"@.len());
        },
        OperatingSystem::FreeBSD => {
            assert("freebsd"@.len() != "linux"@.len());
            assert("freebsd"@.len() != "hurd"@.len());
        },
        OperatingSystem::OpenBSD => {
            assert("openbsd"@.len() != "linux"@.len());
            assert("openbsd"@.len() != "hurd"@.len());
            assert("openbsd"@[0] != "freebsd"@[0]);
        },
        OperatingSystem::NetBSD => {
            assert("netbsd"@.len() != "linux"@.len());
            assert("netbsd"@.len() != "hurd"@.len());
            assert("netbsd"@.len() != "freebsd"@.len());
            assert("netbsd"@.len() != "openbsd"@.len());
        },
        OperatingSystem::Darwin => {
            assert("darwin"@.len() != "linux"@.len());
            assert("darwin"@.len() != "hurd"@.len());
            assert("darwin"@.len() != "freebsd"@.len());
            assert("darwin"@.len() != "openbsd"@.len());
            assert("darwin"@[0] != "netbsd"@[0]);
        },
        OperatingSystem::AIX => {
            assert("aix"@.len() != "linux"@.len());
            assert("aix"@.len() != "hurd"@.len());
            assert("aix"@.len() != "freebsd"@.len());
            assert("aix"@.len() != "openbsd"@.len());
            assert("aix"@.len() != "netbsd"@.len());
            assert("aix"@.len() != "darwin"@.len());
        },
        OperatingSystem::Solaris => {
            assert("solaris"@.len() != "linux"@.len());
            assert("solaris"@.len() != "hurd"@.len());
            assert("solaris"@[0] != "freebsd"@[0]);
            assert("solaris"@[0] != "openbsd"@[0]);
            assert("solaris"@.len() != "netbsd"@.len());
            assert("solaris"@.len() != "darwin"@.len());
            assert("solaris"@.len() != "aix"@.len());
        },
    }
}

/// Representation of CPUs known by `dpkg`
#[derive(Clone, Copy, Debug, PartialEq, Eq, Hash, Structural)]
pub enum CPU {
    /// Alpha
    Alpha,
    /// x86-64
    Amd64,
    /// arc
    Arc,
    /// ARM big endian
    Armeb,
    /// ARM
    Arm,
    /// ARM64
    Arm64,
    /// hppa
    Hppa,
    /// loong64
    Loong64,
    /// i386
    I386,
    /// ia64
    Ia64,
    /// m86k
    M68k,
    /// MIPS
    Mips,
    /// MIPS little endian
    Mipsel,
    /// MIPS R6
    MipsR6,
    /// MIPS R6 little endian
    MipsR6el,
    /// MIPS64
    Mips64,
    /// MIPS64 little endian
    Mips64el,
    /// MIPS64 R6
    Mips64R6,
    /// MIPS64 R6 little endian
    Mips64R6el,
    /// nios2
    Nios2,
    /// or1k
    Or1k,
    /// PowerPC
    PowerPC,
    /// PowerPC little endian
    PowerPCel,
    /// PowerPC 64
    Ppc64,
    /// PowerPC 64 little endian
    Ppc64el,
    /// RISC-V 64
    Riscv64,
    /// s390
    S390,
    /// s390x
    S390x,
    /// sh3
    Sh3,
    /// sh3 big endian
    Sh3eb,
    /// sh4
    Sh4,
    /// sh4 big endian
    Sh4eb,
    /// sparc
    Sparc,
    /// sparc 64
    Sparc64,
}

/// The text of each value.
pub open spec fn cpu_name(x: CPU) -> Seq<char> {
    match x {
        CPU::Alpha => "alpha"@,
        CPU::Amd64 => "amd64"@,
        CPU::Arc => "arc"@,
        CPU::Armeb => "armeb"@,
        CPU::Arm => "arm"@,
        CPU::Arm64 => "arm64"@,
        CPU::Hppa => "hppa"@,
        CPU::Loong64 => "loong64"@,
        CPU::I386 => "i386"@,
        CPU::Ia64 => "ia64"@,
        CPU::M68k => "m68k"@,
        CPU::Mips => "mips"@,
        CPU::Mipsel => "mipsel"@,
        CPU::MipsR6 => "mipsr6"@,
        CPU::MipsR6el => "mipsr6el"@,
        CPU::Mips64 => "mips64"@,
        CPU::Mips64el => "mips64el"@,
        CPU::Mips64R6 => "mips64r6"@,
        CPU::Mips64R6el => "mips64r6el"@,
        CPU::Nios2 => "nios2"@,
        CPU::Or1k => "or1k"@,
        CPU::PowerPC => "powerpc"@,
        CPU::PowerPCel => "powerpcel"@,
        CPU::Ppc64 => "ppc64"@,
        CPU::Ppc64el => "ppc64el"@,
        CPU::Riscv64 => "riscv64"@,
        CPU::S390 => "s390"@,
        CPU::S390x => "s390x"@,
        CPU::Sh3 => "sh3"@,
        CPU::Sh3eb => "sh3eb"@,
        CPU::Sh4 => "sh4"@,
        CPU::Sh4eb => "sh4eb"@,
        CPU::Sparc => "sparc"@,
        CPU::Sparc64 => "sparc64"@,
    }
}

/// The value that a text names, if any.
pub open spec fn parse_cpu(s: Seq<char>) -> Option<CPU> {
    if s == "alpha"@ {
        Some(CPU::Alpha)
    } else if s == "amd64"@ {
        Some(CPU::Amd64)
    } else if s == "arc"@ {
        Some(CPU::Arc)
    } else if s == "armeb"@ {
        Some(CPU::Armeb)
    } else if s == "arm"@ {
        Some(CPU::Arm)
    } else if s == "arm64"@ {
        Some(CPU::Arm64)
    } else if s == "hppa"@ {
        Some(CPU::Hppa)
    } else if s == "loong64"@ {
        Some(CPU::Loong64)
    } else if s == "i386"@ {
        Some(CPU::I386)
    } else if s == "ia64"@ {
        Some(CPU::Ia64)
    } else if s == "m68k"@ {
        Some(CPU::M68k)
    } else if s == "mips"@ {
        Some(CPU::Mips)
    } else if s == "mipsel"@ {
        Some(CPU::Mipsel)
    } else if s == "mipsr6"@ {
        Some(CPU::MipsR6)
    } else if s == "mipsr6el"@ {
        Some(CPU::MipsR6el)
    } else if s == "mips64"@ {
        Some(CPU::Mips64)
    } else if s == "mips64el"@ {
        Some(CPU::Mips64el)
    } else if s == "mips64r6"@ {
        Some(CPU::Mips64R6)
    } else if s == "mips64r6el"@ {
        Some(CPU::Mips64R6el)
    } else if s == "nios2"@ {
        Some(CPU::Nios2)
    } else if s == "or1k"@ {
        Some(CPU::Or1k)
    } else if s == "powerpc"@ {
        Some(CPU::PowerPC)
    } else if s == "powerpcel"@ {
        Some(CPU::PowerPCel)
    } else if s == "ppc64"@ {
        Some(CPU::Ppc64)
    } else if s == "ppc64el"@ {
        Some(CPU::Ppc64el)
    } else if s == "riscv64"@ {
        Some(CPU::Riscv64)
    } else if s == "s390"@ {
        Some(CPU::S390)
    } else if s == "s390x"@ {
        Some(CPU::S390x)
    } else if s == "sh3"@ {
        Some(CPU::Sh3)
    } else if s == "sh3eb"@ {
        Some(CPU::Sh3eb)
    } else if s == "sh4"@ {
        Some(CPU::Sh4)
    } else if s == "sh4eb"@ {
        Some(CPU::Sh4eb)
    } else if s == "sparc"@ {
        Some(CPU::Sparc)
    } else if s == "sparc64"@ {
        Some(CPU::Sparc64)
    } else {
        None
    }
}

impl CPU {
    /// The text of the value.
    pub fn as_str(&self) -> (r: &'static str)
        ensures
            r@ == cpu_name(*self),
    {
        match self {
            CPU::Alpha => "alpha",
            CPU::Amd64 => "amd64",
            CPU::Arc => "arc",
            CPU::Armeb => "armeb",
            CPU::Arm => "arm",
            CPU::Arm64 => "arm64",
            CPU::Hppa => "hppa",
            CPU::Loong64 => "loong64",
            CPU::I386 => "i386",
            CPU::Ia64 => "ia64",
            CPU::M68k => "m68k",
            CPU::Mips => "mips",
            CPU::Mipsel => "mipsel",
            CPU::MipsR6 => "mipsr6",
            CPU::MipsR6el => "mipsr6el",
            CPU::Mips64 => "mips64",
            CPU::Mips64el => "mips64el",
            CPU::Mips64R6 => "mips64r6",
            CPU::Mips64R6el => "mips64r6el",
            CPU::Nios2 => "nios2",
            CPU::Or1k => "or1k",
            CPU::PowerPC => "powerpc",
            CPU::PowerPCel => "powerpcel",
            CPU::Ppc64 => "ppc64",
            CPU::Ppc64el => "ppc64el",
            CPU::Riscv64 => "riscv64",
            CPU::S390 => "s390",
            CPU::S390x => "s390x",
            CPU::Sh3 => "sh3",
            CPU::Sh3eb => "sh3eb",
            CPU::Sh4 => "sh4",
            CPU::Sh4eb => "sh4eb",
            CPU::Sparc => "sparc",
            CPU::Sparc64 => "sparc64",
        }
    }

    /// Parses the text of a value.
    pub fn try_from(value: &str) -> (r: Result<Self, ParseError>)
        ensures
            r == (match parse_cpu(value@) {
                Some(x) => Ok(x),
                None => Err(ParseError::InvalidArchitecture),
            }),
    {
        if str_eq(value, "alpha") {
            Ok(CPU::Alpha)
        } else if str_eq(value, "amd64") {
            Ok(CPU::Amd64)
        } else if str_eq(value, "arc") {
            Ok(CPU::Arc)
        } else if str_eq(value, "armeb") {
            Ok(CPU::Armeb)
        } else if str_eq(value, "arm") {
            Ok(CPU::Arm)
        } else if str_eq(value, "arm64") {
            Ok(CPU::Arm64)
        } else if str_eq(value, "hppa") {
            Ok(CPU::Hppa)
        } else if str_eq(value, "loong64") {
            Ok(CPU::Loong64)
        } else if str_eq(value, "i386") {
            Ok(CPU::I386)
        } else if str_eq(value, "ia64") {
            Ok(CPU::Ia64)
        } else if str_eq(value, "m68k") {
            Ok(CPU::M68k)
        } else if str_eq(value, "mips") {
            Ok(CPU::Mips)
        } else if str_eq(value, "mipsel") {
            Ok(CPU::Mipsel)
        } else if str_eq(value, "mipsr6") {
            Ok(CPU::MipsR6)
        } else if str_eq(value, "mipsr6el") {
            Ok(CPU::MipsR6el)
        } else if str_eq(value, "mips64") {
            Ok(CPU::Mips64)
        } else if str_eq(value, "mips64el") {
            Ok(CPU::Mips64el)
        } else if str_eq(value, "mips64r6") {
            Ok(CPU::Mips64R6)
        } else if str_eq(value, "mips64r6el") {
            Ok(CPU::Mips64R6el)
        } else if str_eq(value, "nios2") {
            Ok(CPU::Nios2)
        } else if str_eq(value, "or1k") {
            Ok(CPU::Or1k)
        } else if str_eq(value, "powerpc") {
            Ok(CPU::PowerPC)
        } else if str_eq(value, "powerpcel") {
            Ok(CPU::PowerPCel)
        } else if str_eq(value, "ppc64") {
            Ok(CPU::Ppc64)
        } else if str_eq(value, "ppc64el") {
            Ok(CPU::Ppc64el)
        } else if str_eq(value, "riscv64") {
            Ok(CPU::Riscv64)
        } else if str_eq(value, "s390") {
            Ok(CPU::S390)
        } else if str_eq(value, "s390x") {
            Ok(CPU::S390x)
        } else if str_eq(value, "sh3") {
            Ok(CPU::Sh3)
        } else if str_eq(value, "sh3eb") {
            Ok(CPU::Sh3eb)
        } else if str_eq(value, "sh4") {
            Ok(CPU::Sh4)
        } else if str_eq(value, "sh4eb") {
            Ok(CPU::Sh4eb)
        } else if str_eq(value, "sparc") {
            Ok(CPU::Sparc)
        } else if str_eq(value, "sparc64") {
            Ok(CPU::Sparc64)
        } else {
            Err(ParseError::InvalidArchitecture)
        }
    }
}

impl std::str::FromStr for CPU {
    type Err = ParseError;

    fn from_str(s: &str) -> (r: Result<Self, Self::Err>)
        ensures
            r == (match parse_cpu(s@) {
                Some(x) => Ok(x),
                None => Err(ParseError::InvalidArchitecture),
            }),
    {
        Self::try_from(s)
    }
}

/// Parsing the text of a value gives the value back.
pub proof fn lemma_cpu_text_parse(x: CPU)
    ensures
        parse_cpu(cpu_name(x)) == Some(x),
{
    reveal_strlit("alpha");
    reveal_strlit("amd64");
    reveal_strlit("arc");
    reveal_strlit("armeb");
    reveal_strlit("arm");
    reveal_strlit("arm64");
    reveal_strlit("hppa");
    reveal_strlit("loong64");
    reveal_strlit("i386");
    reveal_strlit("ia64");
    reveal_strlit("m68k");
    reveal_strlit("mips");
    reveal_strlit("mipsel");
    reveal_strlit("mipsr6");
    reveal_strlit("mipsr6el");
    reveal_strlit("mips64");
    reveal_strlit("mips64el");
    reveal_strlit("mips64r6");
    reveal_strlit("mips64r6el");
    reveal_strlit("nios2");
    reveal_strlit("or1k");
    reveal_strlit("powerpc");
    reveal_strlit("powerpcel");
    reveal_strlit("ppc64");
    reveal_strlit("ppc64el");
    reveal_strlit("riscv64");
    reveal_strlit("s390");
    reveal_strlit("s390x");
    reveal_strlit("sh3");
    reveal_strlit("sh3eb");
    reveal_strlit("sh4");
    reveal_strlit("sh4eb");
    reveal_strlit("sparc");
    reveal_strlit("sparc64");
    match x {
        CPU::Alpha => {
        },
        CPU::Amd64 => {
            assert("amd64"@[1] != "alpha"@[1]);
        },
        CPU::Arc => {
            assert("arc"@.len() != "alpha"@.len());
            assert("arc"@.len() != "amd64"@.len());
        },
        CPU::Armeb => {
            assert("armeb"@[1] != "alpha"@[1]);
            assert("armeb"@[1] != "amd64"@[1]);
            assert("armeb"@.len() != "arc"@.len());
        },
        CPU::Arm => {
            assert("arm"@.len() != "alpha"@.len());
            assert("arm"@.len() != "amd64"@.len());
            assert("arm"@[2] != "arc"@[2]);
            assert("arm"@.len() != "armeb"@.len());
        },
        CPU::Arm64 => {
            assert("arm64"@[1] != "alpha"@[1]);
            assert("arm64"@[1] != "amd64"@[1]);
            assert("arm64"@.len() != "arc"@.len());
            assert("arm64"@[3] != "armeb"@[3]);
            assert("arm64"@.len() != "arm"@.len());
        },
        CPU::Hppa => {
            assert("hppa"@.len() != "alpha"@.len());
            assert("hppa"@.len() != "amd64"@.len());
            assert("hppa"@.len() != "arc"@.len());
            assert("hppa"@.len() != "armeb"@.len());
            assert("hppa"@.len() != "arm"@.len());
            assert("hppa"@.len() != "arm64"@.len());
        },
        CPU::Loong64 => {
            assert("loong64"@.len() != "alpha"@.len());
            assert("loong64"@.len() != "amd64"@.len());
            assert("loong64"@.len() != "arc"@.len());
            assert("loong64"@.len() != "armeb"@.len());
            assert("loong64"@.len() != "arm"@.len());
            assert("loong64"@.len() != "arm64"@.len());
            assert("loong64"@.len() != "hppa"@.len());
        },
        CPU::I386 => {
            assert("i386"@.len() != "alpha"@.len());
            assert("i386"@.len() != "amd64"@.len());
            assert("i386"@.len() != "arc"@.len());
            assert("i386"@.len() != "armeb"@.len());
            assert("i386"@.len() != "arm"@.len());
            assert("i386"@.len() != "arm64"@.len());
            assert("i386"@[0] != "hppa"@[0]);
            assert("i386"@.len() != "loong64"@.len());
        },
        CPU::Ia64 => {
            assert("ia64"@.len() != "alpha"@.len());
            assert("ia64"@.len() != "amd64"@.len());
            assert("ia64"@.len() != "arc"@.len());
            assert("ia64"@.len() != "armeb"@.len());
            assert("ia64"@.len() != "arm"@.len());
            assert("ia64"@.len() != "arm64"@.len());
            assert("ia64"@[0] != "hppa"@[0]);
            assert("ia64"@.len() != "loong64"@.len());
            assert("ia64"@[1] != "i386"@[1]);
        },
        CPU::M68k => {
            assert("m68k"@.len() != "alpha"@.len());
            assert("m68k"@.len() != "amd64"@.len());
            assert("m68k"@.len() != "arc"@.len());
            assert("m68k"@.len() != "armeb"@.len());
            assert("m68k"@.len() != "arm"@.len());
            assert("m68k"@.len() != "arm64"@.len());
            assert("m68k"@[0] != "hppa"@[0]);
            assert("m68k"@.len() != "loong64"@.len());
            assert("m68k"@[0] != "i386"@[0]);
            assert("m68k"@[0] != "ia64"@[0]);
        },
        CPU::Mips => {
            assert("mips"@.len() != "alpha"@.len());
            assert("mips"@.len() != "amd64"@.len());
            assert("mips"@.len() != "arc"@.len());
            assert("mips"@.len() != "armeb"@.len());
            assert("mips"@.len() != "arm"@.len());
            assert("mips"@.len() != "arm64"@.len());
            assert("mips"@[0] != "hppa"@[0]);
            assert("mips"@.len() != "loong64"@.len());
            assert("mips"@[0] != "i386"@[0]);
            assert("mips"@[0] != "ia64"@[0]);
            assert("mips"@[1] != "m68k"@[1]);
        },
        CPU::Mipsel => {
            assert("mipsel"@.len() != "alpha"@.len());
            assert("mipsel"@.len() != "amd64"@.len());
            assert("mipsel"@.len() != "arc"@.len());
            assert("mipsel"@.len() != "armeb"@.len());
            assert("mipsel"@.len() != "arm"@.len());
            assert("mipsel"@.len() != "arm64"@.len());
            assert("mipsel"@.len() != "hppa"@.len());
            assert("mipsel"@.len() != "loong64"@.len());
            assert("mipsel"@.len() != "i386"@.len());
            assert("mipsel"@.len() != "ia64"@.len());
            assert("mipsel"@.len() != "m68k"@.len());
            assert("mipsel"@.len() != "mips"@.len());
        },
        CPU::MipsR6 => {
            assert("mipsr6"@.len() != "alpha"@.len());
            assert("mipsr6"@.len() != "amd64"@.len());
            assert("mipsr6"@.len() != "arc"@.len());
            assert("mipsr6"@.len() != "armeb"@.len());
            assert("mipsr6"@.len() != "arm"@.len());
            assert("mipsr6"@.len() != "arm64"@.len());
            assert("mipsr6"@.len() != "hppa"@.len());
            assert("mipsr6"@.len() != "loong64"@.len());
            assert("mipsr6"@.len() != "i386"@.len());
            assert("mipsr6"@.len() != "ia64"@.len());
            assert("mipsr6"@.len() != "m68k"@.len());
            assert("mipsr6"@.len() != "mips"@.len());
            assert("mipsr6"@[4] != "mipsel"@[4]);
        },
        CPU::MipsR6el => {
            assert("mipsr6el"@.len() != "alpha"@.len());
            assert("mipsr6el"@.len() != "amd64"@.len());
            assert("mipsr6el"@.len() != "arc"@.len());
            assert("mipsr6el"@.len() != "armeb"@.len());
            assert("mipsr6el"@.len() != "arm"@.len());
            assert("mipsr6el"@.len() != "arm64"@.len());
            assert("mipsr6el"@.len() != "hppa"@.len());
            assert("mipsr6el"@.len() != "loong64"@.len());
            assert("mipsr6el"@.len() != "i386"@.len());
            assert("mipsr6el"@.len() != "ia64"@.len());
            assert("mipsr6el"@.len() != "m68k"@.len());
            assert("mipsr6el"@.len() != "mips"@.len());
            assert("mipsr6el"@.len() != "mipsel"@.len());
            assert("mipsr6el"@.len() != "mipsr6"@.len());
        },
        CPU::Mips64 => {
            assert("mips64"@.len() != "alpha"@.len());
            assert("mips64"@.len() != "amd64"@.len());
            assert("mips64"@.len() != "arc"@.len());
            assert("mips64"@.len() != "armeb"@.len());
            assert("mips64"@.len() != "arm"@.len());
            assert("mips64"@.len() != "arm64"@.len());
            assert("mips64"@.len() != "hppa"@.len());
            assert("mips64"@.len() != "loong64"@.len());
            assert("mips64"@.len() != "i386"@.len());
            assert("mips64"@.len() != "ia64"@.len());
            assert("mips64"@.len() != "m68k"@.len());
            assert("mips64"@.len() != "mips"@.len());
            assert("mips64"@[4] != "mipsel"@[4]);
            assert("mips64"@[4] != "mipsr6"@[4]);
            assert("mips64"@.len() != "mipsr6el"@.len());
        },
        CPU::Mips64el => {
            assert("mips64el"@.len() != "alpha"@.len());
            assert("mips64el"@.len() != "amd64"@.len());
            assert("mips64el"@.len() != "arc"@.len());
            assert("mips64el"@.len() != "armeb"@.len());
            assert("mips64el"@.len() != "arm"@.len());
            assert("mips64el"@.len() != "arm64"@.len());
            assert("mips64el"@.len() != "hppa"@.len());
            assert("mips64el"@.len() != "loong64"@.len());
            assert("mips64el"@.len() != "i386"@.len());
            assert("mips64el"@.len() != "ia64"@.len());
            assert("mips64el"@.len() != "m68k"@.len());
            assert("mips64el"@.len() != "mips"@.len());
            assert("mips64el"@.len() != "mipsel"@.len());
            assert("mips64el"@.len() != "mipsr6"@.len());
            assert("mips64el"@[4] != "mipsr6el"@[4]);
            assert("mips64el"@.len() != "mips64"@.len());
        },
        CPU::Mips64R6 => {
            assert("mips64r6"@.len() != "alpha"@.len());
            assert("mips64r6"@.len() != "amd64"@.len());
            assert("mips64r6"@.len() != "arc"@.len());
            assert("mips64r6"@.len() != "armeb"@.len());
            assert("mips64r6"@.len() != "arm"@.len());
            assert("mips64r6"@.len() != "arm64"@.len());
            assert("mips64r6"@.len() != "hppa"@.len());
            assert("mips64r6"@.len() != "loong64"@.len());
            assert("mips64r6"@.len() != "i386"@.len());
            assert("mips64r6"@.len() != "ia64"@.len());
            assert("mips64r6"@.len() != "m68k"@.len());
            assert("mips64r6"@.len() != "mips"@.len());
            assert("mips64r6"@.len() != "mipsel"@.len());
            assert("mips64r6"@.len() != "mipsr6"@.len());
            assert("mips64r6"@[4] != "mipsr6el"@[4]);
            assert("mips64r6"@.len() != "mips64"@.len());
            assert("mips64r6"@[6] != "mips64el"@[6]);
        },
        CPU::Mips64R6el => {
            assert("mips64r6el"@.len() != "alpha"@.len());
            assert("mips64r6el"@.len() != "amd64"@.len());
            assert("mips64r6el"@.len() != "arc"@.len());
            assert("mips64r6el"@.len() != "armeb"@.len());
            assert("mips64r6el"@.len() != "arm"@.len());
            assert("mips64r6el"@.len() != "arm64"@.len());
            assert("mips64r6el"@.len() != "hppa"@.len());
            assert("mips64r6el"@.len() != "loong64"@.len());
            assert("mips64r6el"@.len() != "i386"@.len());
            assert("mips64r6el"@.len() != "ia64"@.len());
            assert("mips64r6el"@.len() != "m68k"@.len());
            assert("mips64r6el"@.len() != "mips"@.len());
            assert("mips64r6el"@.len() != "mipsel"@.len());
            assert("mips64r6el"@.len() != "mipsr6"@.len());
            assert("mips64r6el"@.len() != "mipsr6el"@.len());
            assert("mips64r6el"@.len() != "mips64"@.len());
            assert("mips64r6el"@.len() != "mips64el"@.len());
            assert("mips64r6el"@.len() != "mips64r6"@.len());
        },
        CPU::Nios2 => {
            assert("nios2"@[0] != "alpha"@[0]);
            assert("nios2"@[0] != "amd64"@[0]);
            assert("nios2"@.len() != "arc"@.len());
            assert("nios2"@[0] != "armeb"@[0]);
            assert("nios2"@.len() != "arm"@.len());
            assert("nios2"@[0] != "arm64"@[0]);
            assert("nios2"@.len() != "hppa"@.len());
            assert("nios2"@.len() != "loong64"@.len());
            assert("nios2"@.len() != "i386"@.len());
            assert("nios2"@.len() != "ia64"@.len());
            assert("nios2"@.len() != "m68k"@.len());
            assert("nios2"@.len() != "mips"@.len());
            assert("nios2"@.len() != "mipsel"@.len());
            assert("nios2"@.len() != "mipsr6"@.len());
            assert("nios2"@.len() != "mipsr6el"@.len());
            assert("nios2"@.len() != "mips64"@.len());
            assert("nios2"@.len() != "mips64el"@.len());
            assert("nios2"@.len() != "mips64r6"@.len());
            assert("nios2"@.len() != "mips64r6el"@.len());
        },
        CPU::Or1k => {
            assert("or1k"@.len() != "alpha"@.len());
            assert("or1k"@.len() != "amd64"@.len());
            assert("or1k"@.len() != "arc"@.len());
            assert("or1k"@.len() != "armeb"@.len());
            assert("or1k"@.len() != "arm"@.len());
            assert("or1k"@.len() != "arm64"@.len());
            assert("or1k"@[0] != "hppa"@[0]);
            assert("or1k"@.len() != "loong64"@.len());
            assert("or1k"@[0] != "i386"@[0]);
            assert("or1k"@[0] != "ia64"@[0]);
            assert("or1k"@[0] != "m68k"@[0]);
            assert("or1k"@[0] != "mips"@[0]);
            assert("or1k"@.len() != "mipsel"@.len());
            assert("or1k"@.len() != "mipsr6"@.len());
            assert("or1k"@.len() != "mipsr6el"@.len());
            assert("or1k"@.len() != "mips64"@.len());
            assert("or1k"@.len() != "mips64el"@.len());
            assert("or1k"@.len() != "mips64r6"@.len());
            assert("or1k"@.len() != "mips64r6el"@.len());
            assert("or1k"@.len() != "nios2"@.len());
        },
        CPU::PowerPC => {
            assert("powerpc"@.len() != "alpha"@.len());
            assert("powerpc"@.len() != "amd64"@.len());
            assert("powerpc"@.len() != "arc"@.len());
            assert("powerpc"@.len() != "armeb"@.len());
            assert("powerpc"@.len() != "arm"@.len());
            assert("powerpc"@.len() != "arm64"@.len());
            assert("powerpc"@.len() != "hppa"@.len());
            assert("powerpc"@[0] != "loong64"@[0]);
            assert("powerpc"@.len() != "i386"@.len());
            assert("powerpc"@.len() != "ia64"@.len());
            assert("powerpc"@.len() != "m68k"@.len());
            assert("powerpc"@.len() != "mips"@.len());
            assert("powerpc"@.len() != "mipsel"@.len());
            assert("powerpc"@.len() != "mipsr6"@.len());
            assert("powerpc"@.len() != "mipsr6el"@.len());
            assert("powerpc"@.len() != "mips64"@.len());
            assert("powerpc"@.len() != "mips64el"@.len());
            assert("powerpc"@.len() != "mips64r6"@.len());
            assert("powerpc"@.len() != "mips64r6el"@.len());
            assert("powerpc"@.len() != "nios2"@.len());
            assert("powerpc"@.len() != "or1k"@.len());
        },
        CPU::PowerPCel => {
            assert("powerpcel"@.len() != "alpha"@.len());
            assert("powerpcel"@.len() != "amd64"@.len());
            assert("powerpcel"@.len() != "arc"@.len());
            assert("powerpcel"@.len() != "armeb"@.len());
            assert("powerpcel"@.len() != "arm"@.len());
            assert("powerpcel"@.len() != "arm64"@.len());
            assert("powerpcel"@.len() != "hppa"@.len());
            assert("powerpcel"@.len() != "loong64"@.len());
            assert("powerpcel"@.len() != "i386"@.len());
            assert("powerpcel"@.len() != "ia64"@.len());
            assert("powerpcel"@.len() != "m68k"@.len());
            assert("powerpcel"@.len() != "mips"@.len());
            assert("powerpcel"@.len() != "mipsel"@.len());
            assert("powerpcel"@.len() != "mipsr6"@.len());
            assert("powerpcel"@.len() != "mipsr6el"@.len());
            assert("powerpcel"@.len() != "mips64"@.len());
            assert("powerpcel"@.len() != "mips64el"@.len());
            assert("powerpcel"@.len() != "mips64r6"@.len());
            assert("powerpcel"@.len() != "mips64r6el"@.len());
            assert("powerpcel"@.len() != "nios2"@.len());
            assert("powerpcel"@.len() != "or1k"@.len());
            assert("powerpcel"@.len() != "powerpc"@.len());
        },
        CPU::Ppc64 => {
            assert("ppc64"@[0] != "alpha"@[0]);
            assert("ppc64"@[0] != "amd64"@[0]);
            assert("ppc64"@.len() != "arc"@.len());
            assert("ppc64"@[0] != "armeb"@[0]);
            assert("ppc64"@.len() != "arm"@.len());
            assert("ppc64"@[0] != "arm64"@[0]);
            assert("ppc64"@.len() != "hppa"@.len());
            assert("ppc64"@.len() != "loong64"@.len());
            assert("ppc64"@.len() != "i386"@.len());
            assert("ppc64"@.len() != "ia64"@.len());
            assert("ppc64"@.len() != "m68k"@.len());
            assert("ppc64"@.len() != "mips"@.len());
            assert("ppc64"@.len() != "mipsel"@.len());
            assert("ppc64"@.len() != "mipsr6"@.len());
            assert("ppc64"@.len() != "mipsr6el"@.len());
            assert("ppc64"@.len() != "mips64"@.len());
            assert("ppc64"@.len() != "mips64el"@.len());
            assert("ppc64"@.len() != "mips64r6"@.len());
            assert("ppc64"@.len() != "mips64r6el"@.len());
            assert("ppc64"@[0] != "nios2"@[0]);
            assert("ppc64"@.len() != "or1k"@.len());
            assert("ppc64"@.len() != "powerpc"@.len());
            assert("ppc64"@.len() != "powerpcel"@.len());
        },
        CPU::Ppc64el => {
            assert("ppc64el"@.len() != "alpha"@.len());
            assert("ppc64el"@.len() != "amd64"@.len());
            assert("ppc64el"@.len() != "arc"@.len());
            assert("ppc64el"@.len() != "armeb"@.len());
            assert("ppc64el"@.len() != "arm"@.len());
            assert("ppc64el"@.len() != "arm64"@.len());
            assert("ppc64el"@.len() != "hppa"@.len());
            assert("ppc64el"@[0] != "loong64"@[0]);
            assert("ppc64el"@.len() != "i386"@.len());
            assert("ppc64el"@.len() != "ia64"@.len());
            assert("ppc64el"@.len() != "m68k"@.len());
            assert("ppc64el"@.len() != "mips"@.len());
            assert("ppc64el"@.len() != "mipsel"@.len());
            assert("ppc64el"@.len() != "mipsr6"@.len());
            assert("ppc64el"@.len() != "mipsr6el"@.len());
            assert("ppc64el"@.len() != "mips64"@.len());
            assert("ppc64el"@.len() != "mips64el"@.len());
            assert("ppc64el"@.len() != "mips64r6"@.len());
            assert("ppc64el"@.len() != "mips64r6el"@.len());
            assert("ppc64el"@.len() != "nios2"@.len());
            assert("ppc64el"@.len() != "or1k"@.len());
            assert("ppc64el"@[1] != "powerpc"@[1]);
            assert("ppc64el"@.len() != "powerpcel"@.len());
            assert("ppc64el"@.len() != "ppc64"@.len());
        },
        CPU::Riscv64 => {
            assert("riscv64"@.len() != "alpha"@.len());
            assert("riscv64"@.len() != "amd64"@.len());
            assert("riscv64"@.len() != "arc"@.len());
            assert("riscv64"@.len() != "armeb"@.len());
            assert("riscv64"@.len() != "arm"@.len());
            assert("riscv64"@.len() != "arm64"@.len());
            assert("riscv64"@.len() != "hppa"@.len());
            assert("riscv64"@[0] != "loong64"@[0]);
            assert("riscv64"@.len() != "i386"@.len());
            assert("riscv64"@.len() != "ia64"@.len());
            assert("riscv64"@.len() != "m68k"@.len());
            assert("riscv64"@.len() != "mips"@.len());
            assert("riscv64"@.len() != "mipsel"@.len());
            assert("riscv64"@.len() != "mipsr6"@.len());
            assert("riscv64"@.len() != "mipsr6el"@.len());
            assert("riscv64"@.len() != "mips64"@.len());
            assert("riscv64"@.len() != "mips64el"@.len());
            assert("riscv64"@.len() != "mips64r6"@.len());
            assert("riscv64"@.len() != "mips64r6el"@.len());
            assert("riscv64"@.len() != "nios2"@.len());
            assert("riscv64"@.len() != "or1k"@.len());
            assert("riscv64"@[0] != "powerpc"@[0]);
            assert("riscv64"@.len() != "powerpcel"@.len());
            assert("riscv64"@.len() != "ppc64"@.len());
            assert("riscv64"@[0] != "ppc64el"@[0]);
        },
        CPU::S390 => {
            assert("s390"@.len() != "alpha"@.len());
            assert("s390"@.len() != "amd64"@.len());
            assert("s390"@.len() != "arc"@.len());
            assert("s390"@.len() != "armeb"@.len());
            assert("s390"@.len() != "arm"@.len());
            assert("s390"@.len() != "arm64"@.len());
            assert("s390"@[0] != "hppa"@[0]);
            assert("s390"@.len() != "loong64"@.len());
            assert("s390"@[0] != "i386"@[0]);
            assert("s390"@[0] != "ia64"@[0]);
            assert("s390"@[0] != "m68k"@[0]);
            assert("s390"@[0] != "mips"@[0]);
            assert("s390"@.len() != "mipsel"@.len());
            assert("s390"@.len() != "mipsr6"@.len());
            assert("s390"@.len() != "mipsr6el"@.len());
            assert("s390"@.len() != "mips64"@.len());
            assert("s390"@.len() != "mips64el"@.len());
            assert("s390"@.len() != "mips64r6"@.len());
            assert("s390"@.len() != "mips64r6el"@.len());
            assert("s390"@.len() != "nios2"@.len());
            assert("s390"@[0] != "or1k"@[0]);
            assert("s390"@.len() != "powerpc"@.len());
            assert("s390"@.len() != "powerpcel"@.len());
            assert("s390"@.len() != "ppc64"@.len());
            assert("s390"@.len() != "ppc64el"@.len());
            assert("s390"@.len() != "riscv64"@.len());
        },
        CPU::S390x => {
            assert("s390x"@[0] != "alpha"@[0]);
            assert("s390x"@[0] != "amd64"@[0]);
            assert("s390x"@.len() != "arc"@.len());
            assert("s390x"@[0] != "armeb"@[0]);
            assert("s390x"@.len() != "arm"@.len());
            assert("s390x"@[0] != "arm64"@[0]);
            assert("s390x"@.len() != "hppa"@.len());
            assert("s390x"@.len() != "loong64"@.len());
            assert("s390x"@.len() != "i386"@.len());
            assert("s390x"@.len() != "ia64"@.len());
            assert("s390x"@.len() != "m68k"@.len());
            assert("s390x"@.len() != "mips"@.len());
            assert("s390x"@.len() != "mipsel"@.len());
            assert("s390x"@.len() != "mipsr6"@.len());
            assert("s390x"@.len() != "mipsr6el"@.len());
            assert("s390x"@.len() != "mips64"@.len());
            assert("s390x"@.len() != "mips64el"@.len());
            assert("s390x"@.len() != "mips64r6"@.len());
            assert("s390x"@.len() != "mips64r6el"@.len());
            assert("s390x"@[0] != "nios2"@[0]);
            assert("s390x"@.len() != "or1k"@.len());
            assert("s390x"@.len() != "powerpc"@.len());
            assert("s390x"@.len() != "powerpcel"@.len());
            assert("s390x"@[0] != "ppc64"@[0]);
            assert("s390x"@.len() != "ppc64el"@.len());
            assert("s390x"@.len() != "riscv64"@.len());
            assert("s390x"@.len() != "s390"@.len());
        },
        CPU::Sh3 => {
            assert("sh3"@.len() != "alpha"@.len());
            assert("sh3"@.len() != "amd64"@.len());
            assert("sh3"@[0] != "arc"@[0]);
            assert("sh3"@.len() != "armeb"@.len());
            assert("sh3"@[0] != "arm"@[0]);
            assert("sh3"@.len() != "arm64"@.len());
            assert("sh3"@.len() != "hppa"@.len());
            assert("sh3"@.len() != "loong64"@.len());
            assert("sh3"@.len() != "i386"@.len());
            assert("sh3"@.len() != "ia64"@.len());
            assert("sh3"@.len() != "m68k"@.len());
            assert("sh3"@.len() != "mips"@.len());
            assert("sh3"@.len() != "mipsel"@.len());
            assert("sh3"@.len() != "mipsr6"@.len());
            assert("sh3"@.len() != "mipsr6el"@.len());
            assert("sh3"@.len() != "mips64"@.len());
            assert("sh3"@.len() != "mips64el"@.len());
            assert("sh3"@.len() != "mips64r6"@.len());
            assert("sh3"@.len() != "mips64r6el"@.len());
            assert("sh3"@.len() != "nios2"@.len());
            assert("sh3"@.len() != "or1k"@.len());
            assert("sh3"@.len() != "powerpc"@.len());
            assert("sh3"@.len() != "powerpcel"@.len());
            assert("sh3"@.len() != "ppc64"@.len());
            assert("sh3"@.len() != "ppc64el"@.len());
            assert("sh3"@.len() != "riscv64"@.len());
            assert("sh3"@.len() != "s390"@.len());
            assert("sh3"@.len() != "s390x"@.len());
        },
        CPU::Sh3eb => {
            assert("sh3eb"@[0] != "alpha"@[0]);
            assert("sh3eb"@[0] != "amd64"@[0]);
            assert("sh3eb"@.len() != "arc"@.len());
            assert("sh3eb"@[0] != "armeb"@[0]);
            assert("sh3eb"@.len() != "arm"@.len());
            assert("sh3eb"@[0] != "arm64"@[0]);
            assert("sh3eb"@.len() != "hppa"@.len());
            assert("sh3eb"@.len() != "loong64"@.len());
            assert("sh3eb"@.len() != "i386"@.len());
            assert("sh3eb"@.len() != "ia64"@.len());
            assert("sh3eb"@.len() != "m68k"@.len());
            assert("sh3eb"@.len() != "mips"@.len());
            assert("sh3eb"@.len() != "mipsel"@.len());
            assert("sh3eb"@.len() != "mipsr6"@.len());
            assert("sh3eb"@.len() != "mipsr6el"@.len());
            assert("sh3eb"@.len() != "mips64"@.len());
            assert("sh3eb"@.len() != "mips64el"@.len());
            assert("sh3eb"@.len() != "mips64r6"@.len());
            assert("sh3eb"@.len() != "mips64r6el"@.len());
            assert("sh3eb"@[0] != "nios2"@[0]);
            assert("sh3eb"@.len() != "or1k"@.len());
            assert("sh3eb"@.len() != "powerpc"@.len());
            assert("sh3eb"@.len() != "powerpcel"@.len());
            assert("sh3eb"@[0] != "ppc64"@[0]);
            assert("sh3eb"@.len() != "ppc64el"@.len());
            assert("sh3eb"@.len() != "riscv64"@.len());
            assert("sh3eb"@.len() != "s390"@.len());
            assert("sh3eb"@[1] != "s390x"@[1]);
            assert("sh3eb"@.len() != "sh3"@.len());
        },
        CPU::Sh4 => {
            assert("sh4"@.len() != "alpha"@.len());
            assert("sh4"@.len() != "amd64"@.len());
            assert("sh4"@[0] != "arc"@[0]);
            assert("sh4"@.len() != "armeb"@.len());
            assert("sh4"@[0] != "arm"@[0]);
            assert("sh4"@.len() != "arm64"@.len());
            assert("sh4"@.len() != "hppa"@.len());
            assert("sh4"@.len() != "loong64"@.len());
            assert("sh4"@.len() != "i386"@.len());
            assert("sh4"@.len() != "ia64"@.len());
            assert("sh4"@.len() != "m68k"@.len());
            assert("sh4"@.len() != "mips"@.len());
            assert("sh4"@.len() != "mipsel"@.len());
            assert("sh4"@.len() != "mipsr6"@.len());
            assert("sh4"@.len() != "mipsr6el"@.len());
            assert("sh4"@.len() != "mips64"@.len());
            assert("sh4"@.len() != "mips64el"@.len());
            assert("sh4"@.len() != "mips64r6"@.len());
            assert("sh4"@.len() != "mips64r6el"@.len());
            assert("sh4"@.len() != "nios2"@.len());
            assert("sh4"@.len() != "or1k"@.len());
            assert("sh4"@.len() != "powerpc"@.len());
            assert("sh4"@.len() != "powerpcel"@.len());
            assert("sh4"@.len() != "ppc64"@.len());
            assert("sh4"@.len() != "ppc64el"@.len());
            assert("sh4"@.len() != "riscv64"@.len());
            assert("sh4"@.len() != "s390"@.len());
            assert("sh4"@.len() != "s390x"@.len());
            assert("sh4"@[2] != "sh3"@[2]);
            assert("sh4"@.len() != "sh3eb"@.len());
        },
        CPU::Sh4eb => {
            assert("sh4eb"@[0] != "alpha"@[0]);
            assert("sh4eb"@[0] != "amd64"@[0]);
            assert("sh4eb"@.len() != "arc"@.len());
            assert("sh4eb"@[0] != "armeb"@[0]);
            assert("sh4eb"@.len() != "arm"@.len());
            assert("sh4eb"@[0] != "arm64"@[0]);
            assert("sh4eb"@.len() != "hppa"@.len());
            assert("sh4eb"@.len() != "loong64"@.len());
            assert("sh4eb"@.len() != "i386"@.len());
            assert("sh4eb"@.len() != "ia64"@.len());
            assert("sh4eb"@.len() != "m68k"@.len());
            assert("sh4eb"@.len() != "mips"@.len());
            assert("sh4eb"@.len() != "mipsel"@.len());
            assert("sh4eb"@.len() != "mipsr6"@.len());
            assert("sh4eb"@.len() != "mipsr6el"@.len());
            assert("sh4eb"@.len() != "mips64"@.len());
            assert("sh4eb"@.len() != "mips64el"@.len());
            assert("sh4eb"@.len() != "mips64r6"@.len());
            assert("sh4eb"@.len() != "mips64r6el"@.len());
            assert("sh4eb"@[0] != "nios2"@[0]);
            assert("sh4eb"@.len() != "or1k"@.len());
            assert("sh4eb"@.len() != "powerpc"@.len());
            assert("sh4eb"@.len() != "powerpcel"@.len());
            assert("sh4eb"@[0] != "ppc64"@[0]);
            assert("sh4eb"@.len() != "ppc64el"@.len());
            assert("sh4eb"@.len() != "riscv64"@.len());
            assert("sh4eb"@.len() != "s390"@.len());
            assert("sh4eb"@[1] != "s390x"@[1]);
            assert("sh4eb"@.len() != "sh3"@.len());
            assert("sh4eb"@[2] != "sh3eb"@[2]);
            assert("sh4eb"@.len() != "sh4"@.len());
        },
        CPU::Sparc => {
            assert("sparc"@[0] != "alpha"@[0]);
            assert("sparc"@[0] != "amd64"@[0]);
            assert("sparc"@.len() != "arc"@.len());
            assert("sparc"@[0] != "armeb"@[0]);
            assert("sparc"@.len() != "arm"@.len());
            assert("sparc"@[0] != "arm64"@[0]);
            assert("sparc"@.len() != "hppa"@.len());
            assert("sparc"@.len() != "loong64"@.len());
            assert("sparc"@.len() != "i386"@.len());
            assert("sparc"@.len() != "ia64"@.len());
            assert("sparc"@.len() != "m68k"@.len());
            assert("sparc"@.len() != "mips"@.len());
            assert("sparc"@.len() != "mipsel"@.len());
            assert("sparc"@.len() != "mipsr6"@.len());
            assert("sparc"@.len() != "mipsr6el"@.len());
            assert("sparc"@.len() != "mips64"@.len());
            assert("sparc"@.len() != "mips64el"@.len());
            assert("sparc"@.len() != "mips64r6"@.len());
            assert("sparc"@.len() != "mips64r6el"@.len());
            assert("sparc"@[0] != "nios2"@[0]);
            assert("sparc"@.len() != "or1k"@.len());
            assert("sparc"@.len() != "powerpc"@.len());
            assert("sparc"@.len() != "powerpcel"@.len());
            assert("sparc"@[0] != "ppc64"@[0]);
            assert("sparc"@.len() != "ppc64el"@.len());
            assert("sparc"@.len() != "riscv64"@.len());
            assert("sparc"@.len() != "s390"@.len());
            assert("sparc"@[1] != "s390x"@[1]);
            assert("sparc"@.len() != "sh3"@.len());
            assert("sparc"@[1] != "sh3eb"@[1]);
            assert("sparc"@.len() != "sh4"@.len());
            assert("sparc"@[1] != "sh4eb"@[1]);
        },
        CPU::Sparc64 => {
            assert("sparc64"@.len() != "alpha"@.len());
            assert("sparc64"@.len() != "amd64"@.len());
            assert("sparc64"@.len() != "arc"@.len());
            assert("sparc64"@.len() != "armeb"@.len());
            assert("sparc64"@.len() != "arm"@.len());
            assert("sparc64"@.len() != "arm64"@.len());
            assert("sparc64"@.len() != "hppa"@.len());
            assert("sparc64"@[0] != "loong64"@[0]);
            assert("sparc64"@.len() != "i386"@.len());
            assert("sparc64"@.len() != "ia64"@.len());
            assert("sparc64"@.len() != "m68k"@.len());
            assert("sparc64"@.len() != "mips"@.len());
            assert("sparc64"@.len() != "mipsel"@.len());
            assert("sparc64"@.len() != "mipsr6"@.len());
            assert("sparc64"@.len() != "mipsr6el"@.len());
            assert("sparc64"@.len() != "mips64"@.len());
            assert("sparc64"@.len() != "mips64el"@.len());
            assert("sparc64"@.len() != "mips64r6"@.len());
            assert("sparc64"@.len() != "mips64r6el"@.len());
            assert("sparc64"@.len() != "nios2"@.len());
            assert("sparc64"@.len() != "or1k"@.len());
            assert("sparc64"@[0] != "powerpc"@[0]);
            assert("sparc64"@.len() != "powerpcel"@.len());
            assert("sparc64"@.len() != "ppc64"@.len());
            assert("sparc64"@[0] != "ppc64el"@[0]);
            assert("sparc64"@[0] != "riscv64"@[0]);
            assert("sparc64"@.len() != "s390"@.len());
            assert("sparc64"@.len() != "s390x"@.len());
            assert("sparc64"@.len() != "sh3"@.len());
            assert("sparc64"@.len() != "sh3eb"@.len());
            assert("sparc64"@.len() != "sh4"@.len());
            assert("sparc64"@.len() != "sh4eb"@.len());
            assert("sparc64"@.len() != "sparc"@.len());
        },
    }
}

/// An architecture tuple consisting of an ABI, libc, OS, and CPU.
///
/// Any value can be `None` to denote `any`. Hence, the tuple also works as wildcard.
#[derive(Debug, Clone, Copy, PartialEq, Eq, Hash, Structural)]
pub struct ArchitectureTuple {
    pub abi: Option<ABI>,
    pub libc: Option<LibC>,
    pub os: Option<OperatingSystem>,
    pub cpu: Option<CPU>,
}

/// `w` contains `t`: each component of `w` is `any` or equal to that of `t`.
pub open spec fn tuple_contains(w: ArchitectureTuple, t: ArchitectureTuple) -> bool {
    &&& (w.abi is None || t.abi == w.abi)
    &&& (w.libc is None || t.libc == w.libc)
    &&& (w.os is None || t.os == w.os)
    &&& (w.cpu is None || t.cpu == w.cpu)
}

/// The tuple of an architecture; `all` and `source` map to the tuple
/// that is `any` everywhere.
pub open spec fn architecture_tuple(a: Architecture) -> ArchitectureTuple {
    match a {
        Architecture::All => ArchitectureTuple { abi: None, libc: None, os: None, cpu: None },
        Architecture::Alpha => ArchitectureTuple {
            abi: Some(ABI::Base),
            libc: Some(LibC::GNU),
            os: Some(OperatingSystem::Linux),
            cpu: Some(CPU::Alpha),
        },
        Architecture::Amd64 => ArchitectureTuple {
            abi: Some(ABI::Base),
            libc: Some(LibC::GNU),
            os: Some(OperatingSystem::Linux),
            cpu: Some(CPU::Amd64),
        },
        Architecture::Arm64 => ArchitectureTuple {
            abi: Some(ABI::Base),
            libc: Some(LibC::GNU),
            os: Some(OperatingSystem::Linux),
            cpu: Some(CPU::Arm64),
        },
        Architecture::Armel => ArchitectureTuple {
            abi: Some(ABI::EmbeddedABI),
            libc: Some(LibC::GNU),
            os: Some(OperatingSystem::Linux),
            cpu: Some(CPU::Arm),
        },
        Architecture::Armhf => ArchitectureTuple {
            abi: Some(ABI::EmbeddedABIHardFloat),
            libc: Some(LibC::GNU),
            os: Some(OperatingSystem::Linux),
            cpu: Some(CPU::Arm),
        },
        Architecture::Hppa => ArchitectureTuple {
            abi: Some(ABI::Base),
            libc: Some(LibC::GNU),
            os: Some(OperatingSystem::Linux),
            cpu: Some(CPU::Hppa),
        },
        Architecture::HurdAmd64 => ArchitectureTuple {
            abi: Some(ABI::Base),
            libc: Some(LibC::GNU),
            os: Some(OperatingSystem::Hurd),
            cpu: Some(CPU::Amd64),
        },
        Architecture::HurdI386 => ArchitectureTuple {
            abi: Some(ABI::Base),
            libc: Some(LibC::GNU),
            os: Some(OperatingSystem::Hurd),
            cpu: Some(CPU::I386),
        },
        Architecture::I386 => ArchitectureTuple {
            abi: Some(ABI::Base),
            libc: Some(LibC::GNU),
            os: Some(OperatingSystem::Linux),
            cpu: Some(CPU::I386),
        },
        Architecture::Ia64 => ArchitectureTuple {
            abi: Some(ABI::Base),
            libc: Some(LibC::GNU),
            os: Some(OperatingSystem::Linux),
            cpu: Some(CPU::Ia64),
        },
        Architecture::Loong64 => ArchitectureTuple {
            abi: Some(ABI::Base),
            libc: Some(LibC::GNU),
            os: Some(OperatingSystem::Linux),
            cpu: Some(CPU::Loong64),
        },
        Architecture::M68k => ArchitectureTuple {
            abi: Some(ABI::Base),
            libc: Some(LibC::GNU),
            os: Some(OperatingSystem::Linux),
            cpu: Some(CPU::M68k),
        },
        Architecture::Mips64el => ArchitectureTuple {
            abi: Some(ABI::ABI64),
            libc: Some(LibC::GNU),
            os: Some(OperatingSystem::Linux),
            cpu: Some(CPU::Mips64el),
        },
        Architecture::Mipsel => ArchitectureTuple {
            abi: Some(ABI::ABIn32),
            libc: Some(LibC::GNU),
            os: Some(OperatingSystem::Linux),
            cpu: Some(CPU::Mips64el),
        },
        Architecture::PowerPC => ArchitectureTuple {
            abi: Some(ABI::Base),
            libc: Some(LibC::GNU),
            os: Some(OperatingSystem::Linux),
            cpu: Some(CPU::PowerPC),
        },
        Architecture::Ppc64 => ArchitectureTuple {
            abi: Some(ABI::Base),
            libc: Some(LibC::GNU),
            os: Some(OperatingSystem::Linux),
            cpu: Some(CPU::Ppc64),
        },
        Architecture::Ppc64el => ArchitectureTuple {
            abi: Some(ABI::Base),
            libc: Some(LibC::GNU),
            os: Some(OperatingSystem::Linux),
            cpu: Some(CPU::Ppc64el),
        },
        Architecture::Riscv64 => ArchitectureTuple {
            abi: Some(ABI::Base),
            libc: Some(LibC::GNU),
            os: Some(OperatingSystem::Linux),
            cpu: Some(CPU::Riscv64),
        },
        Architecture::S390x => ArchitectureTuple {
            abi: Some(ABI::Base),
            libc: Some(LibC::GNU),
            os: Some(OperatingSystem::Linux),
            cpu: Some(CPU::S390x),
        },
        Architecture::Sh4 => ArchitectureTuple {
            abi: Some(ABI::Base),
            libc: Some(LibC::GNU),
            os: Some(OperatingSystem::Linux),
            cpu: Some(CPU::S390x),
        },
        Architecture::Sparc64 => ArchitectureTuple {
            abi: Some(ABI::Base),
            libc: Some(LibC::GNU),
            os: Some(OperatingSystem::Linux),
            cpu: Some(CPU::Sparc64),
        },
        Architecture::X32 => ArchitectureTuple {
            abi: Some(ABI::X32),
            libc: Some(LibC::GNU),
            os: Some(OperatingSystem::Linux),
            cpu: Some(CPU::Amd64),
        },
        Architecture::Source => ArchitectureTuple { abi: None, libc: None, os: None, cpu: None },
    }
}

/// The tuple that is `any` everywhere.
pub open spec fn any_tuple() -> ArchitectureTuple {
    ArchitectureTuple { abi: None, libc: None, os: None, cpu: None }
}

/// One component of the text of a tuple.
pub open spec fn component_text(name: Option<Seq<char>>) -> Seq<char> {
    match name {
        Some(n) => n,
        None => "any"@,
    }
}

/// The text of a tuple, `abi-libc-os-cpu`, with `any` for a wildcard.
pub open spec fn tuple_text(t: ArchitectureTuple) -> Seq<char> {
    component_text(
        match t.abi {
            Some(x) => Some(abi_name(x)),
            None => None,
        },
    ) + "-"@ + component_text(
        match t.libc {
            Some(x) => Some(libc_name(x)),
            None => None,
        },
    ) + "-"@ + component_text(
        match t.os {
            Some(x) => Some(os_name(x)),
            None => None,
        },
    ) + "-"@ + component_text(
        match t.cpu {
            Some(x) => Some(cpu_name(x)),
            None => None,
        },
    )
}

/// One component: `any`, or a value that `parse` accepts; `Err` otherwise.
pub open spec fn parse_wildcard<T>(p: Seq<char>, parsed: Option<T>) -> Result<Option<T>, ParseError> {
    if p == "any"@ {
        Ok(None)
    } else {
        match parsed {
            Some(x) => Ok(Some(x)),
            None => Err(ParseError::InvalidArchitecture),
        }
    }
}

/// The four components of a wildcard, with `any` prepended to fewer.
pub open spec fn padded_parts(parts: Seq<Seq<char>>) -> Seq<Seq<char>> {
    Seq::new((4 - parts.len()) as nat, |i: int| "any"@) + parts
}

/// Parsing of an architecture or a tuple: a text with `any` among at most
/// four `-`-separated parts, or of exactly four parts, is a tuple (with
/// `any` prepended to fewer parts); any other text is an architecture.
pub open spec fn parse_tuple(s: Seq<char>) -> Result<ArchitectureTuple, ParseError> {
    let parts = split_all(s, '-');
    if s.len() == 0 || parts.len() > 4 {
        Err(ParseError::InvalidArchitecture)
    } else if !parts.contains("any"@) && parts.len() != 4 {
        match parse_architecture(s) {
            Some(a) => Ok(architecture_tuple(a)),
            None => Err(ParseError::InvalidArchitecture),
        }
    } else {
        let full = padded_parts(parts);
        match (
            parse_wildcard(full[0], parse_abi(full[0])),
            parse_wildcard(full[1], parse_libc(full[1])),
            parse_wildcard(full[2], parse_os(full[2])),
            parse_wildcard(full[3], parse_cpu(full[3])),
        ) {
            (Ok(abi), Ok(libc), Ok(os), Ok(cpu)) => Ok(ArchitectureTuple { abi, libc, os, cpu }),
            _ => Err(ParseError::InvalidArchitecture),
        }
    }
}

impl ArchitectureTuple {
    /// Checker whether an architecture wildcard contains another
    pub fn contains(&self, other: Self) -> (r: bool)
        ensures
            r == tuple_contains(*self, other),
    {
        let abi = match (self.abi, other.abi) {
            (None, _) => true,
            (Some(a), Some(b)) => a == b,
            (Some(_), None) => false,
        };
        let libc = match (self.libc, other.libc) {
            (None, _) => true,
            (Some(a), Some(b)) => a == b,
            (Some(_), None) => false,
        };
        let os = match (self.os, other.os) {
            (None, _) => true,
            (Some(a), Some(b)) => a == b,
            (Some(_), None) => false,
        };
        let cpu = match (self.cpu, other.cpu) {
            (None, _) => true,
            (Some(a), Some(b)) => a == b,
            (Some(_), None) => false,
        };
        abi && libc && os && cpu
    }

    /// The text of the tuple, `abi-libc-os-cpu` with `any` for wildcards.
    pub fn to_string(&self) -> (r: String)
        ensures
            r@ == tuple_text(*self),
    {
        let mut s = String::new();
        match self.abi {
            Some(x) => s.append(x.as_str()),
            None => s.append("any"),
        }
        s.append("-");
        match self.libc {
            Some(x) => s.append(x.as_str()),
            None => s.append("any"),
        }
        s.append("-");
        match self.os {
            Some(x) => s.append(x.as_str()),
            None => s.append("any"),
        }
        s.append("-");
        match self.cpu {
            Some(x) => s.append(x.as_str()),
            None => s.append("any"),
        }
        assert(s@ =~= tuple_text(*self));
        s
    }

    /// Parses an architecture or an architecture wildcard.
    pub fn try_from(value: &str) -> (r: Result<Self, ParseError>)
        ensures
            r == parse_tuple(value@),
    {
        let parts = split_str(value, '-');
        if value.is_empty() || parts.len() > 4 {
            return Err(ParseError::InvalidArchitecture);
        }
        let ghost pv = strings_view(parts@);
        let mut has_any = false;
        let mut i: usize = 0;
        while i < parts.len()
            invariant
                i <= parts.len(),
                pv == strings_view(parts@),
                has_any == exists|j: int| 0 <= j < i && pv[j] == "any"@,
            decreases parts.len() - i,
        {
            assert(pv[i as int] == parts@[i as int]@);
            if str_eq(parts[i].as_str(), "any") {
                has_any = true;
            }
            assert(has_any == exists|j: int| 0 <= j < i + 1 && pv[j] == "any"@) by {
                if has_any && !(exists|j: int| 0 <= j < i && pv[j] == "any"@) {
                    assert(pv[i as int] == "any"@);
                }
            }
            i = i + 1;
        }
        assert(has_any == pv.contains("any"@));
        if !has_any && parts.len() != 4 {
            return match Architecture::try_from(value) {
                Ok(a) => Ok(Self::from(a)),
                Err(_) => Err(ParseError::InvalidArchitecture),
            };
        }
        let n = parts.len();
        let ghost full = padded_parts(pv);
        let abi = if n < 4 {
            Ok(None)
        } else {
            wildcard(parts[n - 4].as_str(), ABI::try_from(parts[n - 4].as_str()))
        };
        let libc = if n < 3 {
            Ok(None)
        } else {
            wildcard(parts[n - 3].as_str(), LibC::try_from(parts[n - 3].as_str()))
        };
        let os = if n < 2 {
            Ok(None)
        } else {
            wildcard(parts[n - 2].as_str(), OperatingSystem::try_from(parts[n - 2].as_str()))
        };
        let cpu = wildcard(parts[n - 1].as_str(), CPU::try_from(parts[n - 1].as_str()));
        proof {
            assert(full.len() == 4);
            assert(n < 4 ==> full[0] == "any"@);
            assert(n >= 4 ==> full[0] == pv[n - 4]);
            assert(n < 3 ==> full[1] == "any"@);
            assert(n >= 3 ==> full[1] == pv[n - 3]);
            assert(n < 2 ==> full[2] == "any"@);
            assert(n >= 2 ==> full[2] == pv[n - 2]);
            assert(full[3] == pv[n - 1]);
        }
        match (abi, libc, os, cpu) {
            (Ok(abi), Ok(libc), Ok(os), Ok(cpu)) => Ok(ArchitectureTuple { abi, libc, os, cpu }),
            _ => Err(ParseError::InvalidArchitecture),
        }
    }
}

/// One component of a wildcard: `any`, or the parsed value.
fn wildcard<T>(p: &str, parsed: Result<T, ParseError>) -> (r: Result<Option<T>, ParseError>)
    ensures
        r == parse_wildcard(
            p@,
            match parsed {
                Ok(x) => Some(x),
                Err(_) => None,
            },
        ),
{
    if str_eq(p, "any") {
        Ok(None)
    } else {
        match parsed {
            Ok(x) => Ok(Some(x)),
            Err(_) => Err(ParseError::InvalidArchitecture),
        }
    }
}

impl From<Architecture> for ArchitectureTuple {
    fn from(value: Architecture) -> (r: Self) {
        match value {
            Architecture::All => ArchitectureTuple { abi: None, libc: None, os: None, cpu: None },
            Architecture::Alpha => ArchitectureTuple {
                abi: Some(ABI::Base),
                libc: Some(LibC::GNU),
                os: Some(OperatingSystem::Linux),
                cpu: Some(CPU::Alpha),
            },
            Architecture::Amd64 => ArchitectureTuple {
                abi: Some(ABI::Base),
                libc: Some(LibC::GNU),
                os: Some(OperatingSystem::Linux),
                cpu: Some(CPU::Amd64),
            },
            Architecture::Arm64 => ArchitectureTuple {
                abi: Some(ABI::Base),
                libc: Some(LibC::GNU),
                os: Some(OperatingSystem::Linux),
                cpu: Some(CPU::Arm64),
            },
            Architecture::Armel => ArchitectureTuple {
                abi: Some(ABI::EmbeddedABI),
                libc: Some(LibC::GNU),
                os: Some(OperatingSystem::Linux),
                cpu: Some(CPU::Arm),
            },
            Architecture::Armhf => ArchitectureTuple {
                abi: Some(ABI::EmbeddedABIHardFloat),
                libc: Some(LibC::GNU),
                os: Some(OperatingSystem::Linux),
                cpu: Some(CPU::Arm),
            },
            Architecture::Hppa => ArchitectureTuple {
                abi: Some(ABI::Base),
                libc: Some(LibC::GNU),
                os: Some(OperatingSystem::Linux),
                cpu: Some(CPU::Hppa),
            },
            Architecture::HurdAmd64 => ArchitectureTuple {
                abi: Some(ABI::Base),
                libc: Some(LibC::GNU),
                os: Some(OperatingSystem::Hurd),
                cpu: Some(CPU::Amd64),
            },
            Architecture::HurdI386 => ArchitectureTuple {
                abi: Some(ABI::Base),
                libc: Some(LibC::GNU),
                os: Some(OperatingSystem::Hurd),
                cpu: Some(CPU::I386),
            },
            Architecture::I386 => ArchitectureTuple {
                abi: Some(ABI::Base),
                libc: Some(LibC::GNU),
                os: Some(OperatingSystem::Linux),
                cpu: Some(CPU::I386),
            },
            Architecture::Ia64 => ArchitectureTuple {
                abi: Some(ABI::Base),
                libc: Some(LibC::GNU),
                os: Some(OperatingSystem::Linux),
                cpu: Some(CPU::Ia64),
            },
            Architecture::Loong64 => ArchitectureTuple {
                abi: Some(ABI::Base),
                libc: Some(LibC::GNU),
                os: Some(OperatingSystem::Linux),
                cpu: Some(CPU::Loong64),
            },
            Architecture::M68k => ArchitectureTuple {
                abi: Some(ABI::Base),
                libc: Some(LibC::GNU),
                os: Some(OperatingSystem::Linux),
                cpu: Some(CPU::M68k),
            },
            Architecture::Mips64el => ArchitectureTuple {
                abi: Some(ABI::ABI64),
                libc: Some(LibC::GNU),
                os: Some(OperatingSystem::Linux),
                cpu: Some(CPU::Mips64el),
            },
            Architecture::Mipsel => ArchitectureTuple {
                abi: Some(ABI::ABIn32),
                libc: Some(LibC::GNU),
                os: Some(OperatingSystem::Linux),
                cpu: Some(CPU::Mips64el),
            },
            Architecture::PowerPC => ArchitectureTuple {
                abi: Some(ABI::Base),
                libc: Some(LibC::GNU),
                os: Some(OperatingSystem::Linux),
                cpu: Some(CPU::PowerPC),
            },
            Architecture::Ppc64 => ArchitectureTuple {
                abi: Some(ABI::Base),
                libc: Some(LibC::GNU),
                os: Some(OperatingSystem::Linux),
                cpu: Some(CPU::Ppc64),
            },
            Architecture::Ppc64el => ArchitectureTuple {
                abi: Some(ABI::Base),
                libc: Some(LibC::GNU),
                os: Some(OperatingSystem::Linux),
                cpu: Some(CPU::Ppc64el),
            },
            Architecture::Riscv64 => ArchitectureTuple {
                abi: Some(ABI::Base),
                libc: Some(LibC::GNU),
                os: Some(OperatingSystem::Linux),
                cpu: Some(CPU::Riscv64),
            },
            Architecture::S390x => ArchitectureTuple {
                abi: Some(ABI::Base),
                libc: Some(LibC::GNU),
                os: Some(OperatingSystem::Linux),
                cpu: Some(CPU::S390x),
            },
            Architecture::Sh4 => ArchitectureTuple {
                abi: Some(ABI::Base),
                libc: Some(LibC::GNU),
                os: Some(OperatingSystem::Linux),
                cpu: Some(CPU::S390x),
            },
            Architecture::Sparc64 => ArchitectureTuple {
                abi: Some(ABI::Base),
                libc: Some(LibC::GNU),
                os: Some(OperatingSystem::Linux),
                cpu: Some(CPU::Sparc64),
            },
            Architecture::X32 => ArchitectureTuple {
                abi: Some(ABI::X32),
                libc: Some(LibC::GNU),
                os: Some(OperatingSystem::Linux),
                cpu: Some(CPU::Amd64),
            },
            Architecture::Source => ArchitectureTuple { abi: None, libc: None, os: None, cpu: None },
        }
    }
}

impl vstd::std_specs::convert::FromSpecImpl<Architecture> for ArchitectureTuple {
    open spec fn obeys_from_spec() -> bool {
        true
    }

    open spec fn from_spec(value: Architecture) -> Self {
        architecture_tuple(value)
    }
}

impl Architecture {
    /// Check if the architecture matches an architecture wildcard
    pub fn matches_wildcard(&self, at: ArchitectureTuple) -> (r: bool)
        ensures
            r == tuple_contains(at, architecture_tuple(*self)),
    {
        let converted = ArchitectureTuple::from(*self);
        at.contains(converted)
    }
}

/// A Linux architecture of the base ABI is named after its CPU, and a Hurd
/// architecture after its CPU with `hurd-` before it. `sh4`, whose tuple
/// carries the `s390x` CPU, is the one architecture that breaks the rule.
pub proof fn lemma_architecture_named_after_cpu(a: Architecture)
    requires
        a != Architecture::Sh4,
    ensures
        architecture_tuple(a).abi == Some(ABI::Base) && architecture_tuple(a).os == Some(
            OperatingSystem::Linux,
        ) ==> (architecture_tuple(a).cpu matches Some(c) && cpu_name(c) == architecture_name(a)),
        architecture_tuple(a).os == Some(OperatingSystem::Hurd) ==> (architecture_tuple(a).cpu matches Some(c)
            && seq!['h', 'u', 'r', 'd', '-'] + cpu_name(c) == architecture_name(a)),
{
    reveal_strlit("hurd-amd64");
    reveal_strlit("hurd-i386");
    reveal_strlit("amd64");
    reveal_strlit("i386");
    assert(seq!['h', 'u', 'r', 'd', '-'] + "amd64"@ =~= "hurd-amd64"@);
    assert(seq!['h', 'u', 'r', 'd', '-'] + "i386"@ =~= "hurd-i386"@);
}

/// Different architectures have different tuples, so that a wildcard that
/// names one architecture matches no other. `sh4` and `s390x`, whose tuples
/// coincide, are the one exception.
pub proof fn lemma_architecture_tuple_distinct(a: Architecture, b: Architecture)
    requires
        a != b,
        a != Architecture::All && a != Architecture::Source,
        b != Architecture::All && b != Architecture::Source,
        !(a == Architecture::Sh4 && b == Architecture::S390x),
        !(a == Architecture::S390x && b == Architecture::Sh4),
    ensures
        architecture_tuple(a) != architecture_tuple(b),
        !tuple_contains(architecture_tuple(a), architecture_tuple(b)),
{
}

/// Containment of wildcards is reflexive: every tuple contains itself, and
/// so every architecture matches its own tuple.
pub proof fn lemma_tuple_contains_refl(t: ArchitectureTuple)
    ensures
        tuple_contains(t, t),
{
}

/// Containment of wildcards is transitive.
pub proof fn lemma_tuple_contains_trans(a: ArchitectureTuple, b: ArchitectureTuple, c: ArchitectureTuple)
    requires
        tuple_contains(a, b),
        tuple_contains(b, c),
    ensures
        tuple_contains(a, c),
{
}

/// The tuple that is `any` everywhere contains every tuple.
pub proof fn lemma_any_contains_all(t: ArchitectureTuple)
    ensures
        tuple_contains(any_tuple(), t),
{
}

/// Two tuples that contain each other are equal.
pub proof fn lemma_tuple_contains_antisym(a: ArchitectureTuple, b: ArchitectureTuple)
    requires
        tuple_contains(a, b),
        tuple_contains(b, a),
    ensures
        a == b,
{
}

} // verus!
