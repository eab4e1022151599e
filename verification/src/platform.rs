//! Platform specifiers for registry entities: architecture, endianness,
//! operating system and C library, each either exact, explicitly "other",
//! or unconstrained.

#![allow(non_camel_case_types)]

use vstd::prelude::*;

verus! {

use crate::text::str_eq;

/// A CPU architecture; unknown names are kept as custom values.
#[derive(Debug)]
pub enum Arch {
    Custom(String),
    i386,
    amd64,
    aarch64,
    riscv64,
}

/// Byte order.
#[derive(Clone, Copy, PartialEq, Eq, Structural, Debug)]
pub enum Endian {
    little,
    big,
}

/// An operating system; unknown names are kept as custom values.
#[derive(Debug)]
pub enum OS {
    Custom(String),
    windows,
    linux,
    macos,
    freebsd,
}

/// A C library flavor; unknown names are kept as custom values.
#[derive(Debug)]
pub enum LibC {
    Custom(String),
    msft,
    musl,
    glibc,
}

/// A platform dimension: an exact value, explicitly "everything else", or
/// unconstrained.
#[derive(Debug)]
pub enum PlatformSpecifierState<T> {
    Exact { value: T },
    Other,
    Any,
}

/// A value that can stand in a platform dimension: it parses from and
/// renders to a text.
pub trait PlatformValue: Sized {
    /// Whether a text parses to some value.
    spec fn spec_can_parse(s: Seq<char>) -> bool;

    /// `v` is what the text `s` parses to.
    spec fn parses_to(s: Seq<char>, v: Self) -> bool;

    /// The rendering of this value.
    spec fn spec_text(&self) -> Seq<char>;

    /// Parses a text.
    fn parse_value(s: &str) -> (r: Option<Self>)
        ensures
            match r {
                Some(v) => Self::spec_can_parse(s@) && Self::parses_to(s@, v),
                None => !Self::spec_can_parse(s@),
            },
    ;

    /// Renders this value.
    fn value_text(&self) -> (r: String)
        ensures
            r@ == self.spec_text(),
    ;
}

impl PlatformValue for Arch {
    open spec fn spec_can_parse(s: Seq<char>) -> bool {
        true
    }

    open spec fn parses_to(s: Seq<char>, v: Arch) -> bool {
        if s == "i386"@ {
            v is i386
        } else if s == "amd64"@ {
            v is amd64
        } else if s == "aarch64"@ {
            v is aarch64
        } else if s == "riscv64"@ {
            v is riscv64
        } else {
            v matches Arch::Custom(c) && c@ == s
        }
    }

    open spec fn spec_text(&self) -> Seq<char> {
        match self {
            Arch::Custom(s) => s@,
            Arch::i386 => "i386"@,
            Arch::amd64 => "amd64"@,
            Arch::aarch64 => "aarch64"@,
            Arch::riscv64 => "riscv64"@,
        }
    }

    fn parse_value(s: &str) -> (r: Option<Arch>) {
        if str_eq(s, "i386") {
            Some(Arch::i386)
        } else if str_eq(s, "amd64") {
            Some(Arch::amd64)
        } else if str_eq(s, "aarch64") {
            Some(Arch::aarch64)
        } else if str_eq(s, "riscv64") {
            Some(Arch::riscv64)
        } else {
            Some(Arch::Custom(s.to_owned()))
        }
    }

    fn value_text(&self) -> (r: String) {
        match self {
            Arch::Custom(s) => s.clone(),
            Arch::i386 => String::from_str("i386"),
            Arch::amd64 => String::from_str("amd64"),
            Arch::aarch64 => String::from_str("aarch64"),
            Arch::riscv64 => String::from_str("riscv64"),
        }
    }
}

impl PlatformValue for OS {
    open spec fn spec_can_parse(s: Seq<char>) -> bool {
        true
    }

    open spec fn parses_to(s: Seq<char>, v: OS) -> bool {
        if s == "windows"@ {
            v is windows
        } else if s == "linux"@ {
            v is linux
        } else if s == "macos"@ {
            v is macos
        } else if s == "freebsd"@ {
            v is freebsd
        } else {
            v matches OS::Custom(c) && c@ == s
        }
    }

    open spec fn spec_text(&self) -> Seq<char> {
        match self {
            OS::Custom(s) => s@,
            OS::windows => "windows"@,
            OS::linux => "linux"@,
            OS::macos => "macos"@,
            OS::freebsd => "freebsd"@,
        }
    }

    fn parse_value(s: &str) -> (r: Option<OS>) {
        if str_eq(s, "windows") {
            Some(OS::windows)
        } else if str_eq(s, "linux") {
            Some(OS::linux)
        } else if str_eq(s, "macos") {
            Some(OS::macos)
        } else if str_eq(s, "freebsd") {
            Some(OS::freebsd)
        } else {
            Some(OS::Custom(s.to_owned()))
        }
    }

    fn value_text(&self) -> (r: String) {
        match self {
            OS::Custom(s) => s.clone(),
            OS::windows => String::from_str("windows"),
            OS::linux => String::from_str("linux"),
            OS::macos => String::from_str("macos"),
            OS::freebsd => String::from_str("freebsd"),
        }
    }
}

impl PlatformValue for LibC {
    open spec fn spec_can_parse(s: Seq<char>) -> bool {
        true
    }

    open spec fn parses_to(s: Seq<char>, v: LibC) -> bool {
        if s == "msft"@ {
            v is msft
        } else if s == "musl"@ {
            v is musl
        } else if s == "glibc"@ {
            v is glibc
        } else {
            v matches LibC::Custom(c) && c@ == s
        }
    }

    open spec fn spec_text(&self) -> Seq<char> {
        match self {
            LibC::Custom(s) => s@,
            LibC::msft => "msft"@,
            LibC::musl => "musl"@,
            LibC::glibc => "glibc"@,
        }
    }

    fn parse_value(s: &str) -> (r: Option<LibC>) {
        if str_eq(s, "msft") {
            Some(LibC::msft)
        } else if str_eq(s, "musl") {
            Some(LibC::musl)
        } else if str_eq(s, "glibc") {
            Some(LibC::glibc)
        } else {
            Some(LibC::Custom(s.to_owned()))
        }
    }

    fn value_text(&self) -> (r: String) {
        match self {
            LibC::Custom(s) => s.clone(),
            LibC::msft => String::from_str("msft"),
            LibC::musl => String::from_str("musl"),
            LibC::glibc => String::from_str("glibc"),
        }
    }
}

impl PlatformValue for Endian {
    open spec fn spec_can_parse(s: Seq<char>) -> bool {
        s == "little"@ || s == "big"@
    }

    open spec fn parses_to(s: Seq<char>, v: Endian) -> bool {
        if s == "little"@ {
            v is little
        } else if s == "big"@ {
            v is big
        } else {
            false
        }
    }

    open spec fn spec_text(&self) -> Seq<char> {
        match self {
            Endian::little => "little"@,
            Endian::big => "big"@,
        }
    }

    fn parse_value(s: &str) -> (r: Option<Endian>) {
        if str_eq(s, "little") {
            Some(Endian::little)
        } else if str_eq(s, "big") {
            Some(Endian::big)
        } else {
            None
        }
    }

    fn value_text(&self) -> (r: String) {
        match self {
            Endian::little => String::from_str("little"),
            Endian::big => String::from_str("big"),
        }
    }
}

impl PlatformValue for String {
    open spec fn spec_can_parse(s: Seq<char>) -> bool {
        true
    }

    open spec fn parses_to(s: Seq<char>, v: String) -> bool {
        v@ == s
    }

    open spec fn spec_text(&self) -> Seq<char> {
        self@
    }

    fn parse_value(s: &str) -> (r: Option<String>) {
        Some(s.to_owned())
    }

    fn value_text(&self) -> (r: String) {
        self.clone()
    }
}

impl<T: PlatformValue> PlatformSpecifierState<T> {
    /// Parses a dimension text: the `other` marker, the `any` marker, or
    /// an exact value.
    pub fn parse_with_other_and_any(s: &str, other: &str, any: &str) -> (r: Option<
        PlatformSpecifierState<T>,
    >)
        ensures
            match r {
                Some(st) => if s@ == other@ {
                    st is Other
                } else if s@ == any@ {
                    st is Any
                } else {
                    st matches PlatformSpecifierState::Exact { value } && T::spec_can_parse(s@)
                        && T::parses_to(s@, value)
                },
                None => s@ != other@ && s@ != any@ && !T::spec_can_parse(s@),
            },
    {
        if str_eq(s, other) {
            Some(PlatformSpecifierState::Other)
        } else if str_eq(s, any) {
            Some(PlatformSpecifierState::Any)
        } else {
            match T::parse_value(s) {
                Some(value) => Some(PlatformSpecifierState::Exact { value }),
                None => None,
            }
        }
    }

    /// Renders a dimension: the exact value's text, or the given `other`
    /// or `any` marker.
    pub fn write_with_other_and_any(&self, other: &str, any: &str) -> (r: String)
        ensures
            match self {
                PlatformSpecifierState::Exact { value } => r@ == value.spec_text(),
                PlatformSpecifierState::Other => r@ == other@,
                PlatformSpecifierState::Any => r@ == any@,
            },
    {
        match self {
            PlatformSpecifierState::Exact { value } => value.value_text(),
            PlatformSpecifierState::Other => other.to_owned(),
            PlatformSpecifierState::Any => any.to_owned(),
        }
    }
}

/// A platform: one specifier per dimension, plus a custom tag.
#[derive(Debug)]
pub struct Platform {
    pub arch: PlatformSpecifierState<Arch>,
    pub endian: Option<Endian>,
    pub os: PlatformSpecifierState<OS>,
    pub libc: PlatformSpecifierState<LibC>,
    pub custom: PlatformSpecifierState<String>,
}

} // verus!
