//! The written form of a compression: `None`, or the name of the algorithm,
//! a slash, and the number of the level, as in `ZStd/3`.

use vstd::prelude::*;
use crate::compression::Compression;
use crate::compression::DeflateLevel;
use crate::compression::GZipLevel;
use crate::compression::ZLibLevel;
use crate::compression::ZStdLevel;

verus! {

/// Why some text names no compression.
#[derive(Clone, Copy, Debug, PartialEq, Eq, Structural)]
pub enum CompressionTextError {
    /// The text is neither `None` nor of the form `{format}/{level}`.
    Usage,
    /// The format is none of `ZStd`, `ZLib`, `Deflate` and `GZip`.
    UnknownFormat,
    /// The level is no number from 1 to 22.
    NoZStdLevel,
    /// The level is no number from 0 to 9.
    NoZLibLevel,
    /// The level is no number from 0 to 9.
    NoDeflateLevel,
    /// The level is no number from 1 to 9.
    NoGZipLevel,
}

impl CompressionTextError {
    /// The text of the message.
    pub open spec fn spec_message(&self) -> Seq<char> {
        match self {
            CompressionTextError::Usage => "Invalid compression format. Usage: \"{format}/{level}\""@,
            CompressionTextError::UnknownFormat => "Allowed compression formats are: ZStd, ZLib, Deflate, GZip"@,
            CompressionTextError::NoZStdLevel => "Out of range 1-22"@,
            CompressionTextError::NoZLibLevel => "Out of range 0-9"@,
            CompressionTextError::NoDeflateLevel => "Out of range 0-9"@,
            CompressionTextError::NoGZipLevel => "Out of range 1-9"@,
        }
    }

    /// What to tell the user.
    pub fn message(&self) -> (r: &'static str)
        ensures
            r@ == self.spec_message(),
    {
        match self {
            CompressionTextError::Usage => "Invalid compression format. Usage: \"{format}/{level}\"",
            CompressionTextError::UnknownFormat => "Allowed compression formats are: ZStd, ZLib, Deflate, GZip",
            CompressionTextError::NoZStdLevel => "Out of range 1-22",
            CompressionTextError::NoZLibLevel => "Out of range 0-9",
            CompressionTextError::NoDeflateLevel => "Out of range 0-9",
            CompressionTextError::NoGZipLevel => "Out of range 1-9",
        }
    }
}

/// The place of the first slash in `s`, from `i` on.
pub open spec fn slash_from(s: Seq<char>, i: int) -> Option<int>
    decreases s.len() - i,
{
    if i < 0 || i >= s.len() {
        None
    } else if s[i] == '/' {
        Some(i)
    } else {
        slash_from(s, i + 1)
    }
}

/// The value of a decimal digit.
pub open spec fn digit(c: char) -> Option<nat> {
    if '0' <= c <= '9' {
        Some((c as nat - '0' as nat) as nat)
    } else {
        None
    }
}

/// The number that `s` writes out, for numbers below 100 written as they are
/// printed: one digit, or two of which the first is not zero.
pub open spec fn small_number(s: Seq<char>) -> Option<nat> {
    if s.len() == 1 {
        digit(s[0])
    } else if s.len() == 2 && s[0] != '0' {
        match (digit(s[0]), digit(s[1])) {
            (Some(tens), Some(ones)) => Some(10 * tens + ones),
            _ => None,
        }
    } else {
        None
    }
}

/// The chars of `None`.
pub open spec fn name_none() -> Seq<char> {
    seq!['N', 'o', 'n', 'e']
}

/// The chars of `ZStd`.
pub open spec fn name_zstd() -> Seq<char> {
    seq!['Z', 'S', 't', 'd']
}

/// The chars of `ZLib`.
pub open spec fn name_zlib() -> Seq<char> {
    seq!['Z', 'L', 'i', 'b']
}

/// The chars of `Deflate`.
pub open spec fn name_deflate() -> Seq<char> {
    seq!['D', 'e', 'f', 'l', 'a', 't', 'e']
}

/// The chars of `GZip`.
pub open spec fn name_gzip() -> Seq<char> {
    seq!['G', 'Z', 'i', 'p']
}

/// The level that a number stands for, where it is one of the algorithm's.
pub open spec fn leveled(format: Seq<char>, level: Option<nat>) -> Result<
    Compression,
    CompressionTextError,
> {
    if format == name_zstd() {
        match level {
            Some(n) if 1 <= n <= 22 => Ok(Compression::ZStd(zstd_level(n))),
            _ => Err(CompressionTextError::NoZStdLevel),
        }
    } else if format == name_zlib() {
        match level {
            Some(n) if n <= 9 => Ok(Compression::ZLib(zlib_level(n))),
            _ => Err(CompressionTextError::NoZLibLevel),
        }
    } else if format == name_deflate() {
        match level {
            Some(n) if n <= 9 => Ok(Compression::Deflate(deflate_level(n))),
            _ => Err(CompressionTextError::NoDeflateLevel),
        }
    } else if format == name_gzip() {
        match level {
            Some(n) if 1 <= n <= 9 => Ok(Compression::GZip(gzip_level(n))),
            _ => Err(CompressionTextError::NoGZipLevel),
        }
    } else {
        Err(CompressionTextError::UnknownFormat)
    }
}

/// The Zstandard level with the given number.
pub open spec fn zstd_level(n: nat) -> ZStdLevel {
    choose|l: ZStdLevel| l.spec_level() == n
}

/// The zlib level with the given number.
pub open spec fn zlib_level(n: nat) -> ZLibLevel {
    choose|l: ZLibLevel| l.spec_level() == n
}

/// The deflate level with the given number.
pub open spec fn deflate_level(n: nat) -> DeflateLevel {
    choose|l: DeflateLevel| l.spec_level() == n
}

/// The gzip level with the given number.
pub open spec fn gzip_level(n: nat) -> GZipLevel {
    choose|l: GZipLevel| l.spec_level() == n
}

/// The compression that the text names: `None` for none, and otherwise a
/// format, the first slash, and a level.
pub open spec fn named(s: Seq<char>) -> Result<Compression, CompressionTextError> {
    if s == name_none() {
        Ok(Compression::Uncompressed)
    } else {
        match slash_from(s, 0) {
            None => Err(CompressionTextError::Usage),
            Some(at) => leveled(s.take(at), small_number(s.skip(at + 1))),
        }
    }
}

/// Whether the chars from `from` to `to` are those of `name`.
fn is_name(chars: &Vec<char>, from: usize, to: usize, name: &[char]) -> (r: bool)
    requires
        from <= to <= chars@.len(),
    ensures
        r == (chars@.subrange(from as int, to as int) == name@),
{
    if to - from != name.len() {
        return false;
    }
    let mut i: usize = 0;
    while i < name.len()
        invariant
            from <= to <= chars@.len(),
            to - from == name@.len(),
            i <= name@.len(),
            forall|j: int| 0 <= j < i ==> chars@[from + j] == name@[j],
        decreases name@.len() - i,
    {
        if chars[from + i] != name[i] {
            assert(chars@.subrange(from as int, to as int)[i as int] != name@[i as int]);
            return false;
        }
        i += 1;
    }
    assert(chars@.subrange(from as int, to as int) =~= name@);
    true
}

/// The value of a decimal digit.
fn digit_of(c: char) -> (r: Option<u8>)
    ensures
        r matches Some(d) ==> digit(c) == Some(d as nat) && d <= 9,
        r is None ==> digit(c) is None,
{
    if '0' <= c && c <= '9' {
        Some((c as u32 - '0' as u32) as u8)
    } else {
        None
    }
}

/// The number below 100 that the chars from `from` on write out.
fn small_number_of(chars: &Vec<char>, from: usize) -> (r: Option<u8>)
    requires
        from <= chars@.len(),
    ensures
        r matches Some(n) ==> small_number(chars@.skip(from as int)) == Some(n as nat) && n < 100,
        r is None ==> small_number(chars@.skip(from as int)) is None,
{
    let n = chars.len() - from;
    if n == 1 {
        digit_of(chars[from])
    } else if n == 2 && chars[from] != '0' {
        match (digit_of(chars[from]), digit_of(chars[from + 1])) {
            (Some(tens), Some(ones)) => Some(10 * tens + ones),
            _ => None,
        }
    } else {
        None
    }
}

impl Compression {
    /// Reads a compression from its written form: `None`, or a format out of
    /// `ZStd`, `ZLib`, `Deflate` and `GZip`, a slash, and the number of a
    /// level of that format.
    pub fn parse(text: &str) -> (r: Result<Compression, CompressionTextError>)
        ensures
            r == named(text@),
    {
        let mut chars: Vec<char> = Vec::new();
        for c in it: text.chars()
            invariant
                it.seq() == text@,
                chars@ == text@.take(it.index() as int),
        {
            chars.push(c);
            assert(text@.take(it.index() + 1) =~= text@.take(it.index() as int).push(c));
        }
        assert(chars@ =~= text@);
        let n = chars.len();
        assert(chars@.subrange(0, n as int) =~= chars@);
        if is_name(&chars, 0, n, &['N', 'o', 'n', 'e']) {
            return Ok(Compression::Uncompressed);
        }
        let mut at: usize = 0;
        while at < n && chars[at] != '/'
            invariant
                at <= n,
                n == chars@.len(),
                slash_from(chars@, 0) == slash_from(chars@, at as int),
            decreases n - at,
        {
            at += 1;
        }
        if at == n {
            return Err(CompressionTextError::Usage);
        }
        let level = small_number_of(&chars, at + 1);
        assert(chars@.take(at as int) =~= chars@.subrange(0, at as int));
        if is_name(&chars, 0, at, &['Z', 'S', 't', 'd']) {
            match level {
                Some(n) => match ZStdLevel::from_level(n) {
                    Some(l) => Ok(Compression::ZStd(l)),
                    None => Err(CompressionTextError::NoZStdLevel),
                },
                None => Err(CompressionTextError::NoZStdLevel),
            }
        } else if is_name(&chars, 0, at, &['Z', 'L', 'i', 'b']) {
            match level {
                Some(n) => match ZLibLevel::from_level(n) {
                    Some(l) => Ok(Compression::ZLib(l)),
                    None => Err(CompressionTextError::NoZLibLevel),
                },
                None => Err(CompressionTextError::NoZLibLevel),
            }
        } else if is_name(&chars, 0, at, &['D', 'e', 'f', 'l', 'a', 't', 'e']) {
            match level {
                Some(n) => match DeflateLevel::from_level(n) {
                    Some(l) => Ok(Compression::Deflate(l)),
                    None => Err(CompressionTextError::NoDeflateLevel),
                },
                None => Err(CompressionTextError::NoDeflateLevel),
            }
        } else if is_name(&chars, 0, at, &['G', 'Z', 'i', 'p']) {
            match level {
                Some(n) => match GZipLevel::from_level(n) {
                    Some(l) => Ok(Compression::GZip(l)),
                    None => Err(CompressionTextError::NoGZipLevel),
                },
                None => Err(CompressionTextError::NoGZipLevel),
            }
        } else {
            Err(CompressionTextError::UnknownFormat)
        }
    }
}

impl core::str::FromStr for Compression {
    type Err = &'static str;

    /// Reads a compression from its written form, as [`Compression::parse`]
    /// does, and gives the message of the error in place of the error.
    fn from_str(s: &str) -> (r: Result<Self, Self::Err>)
        ensures
            match named(s@) {
                Ok(c) => r == Ok::<Compression, &'static str>(c),
                Err(e) => r matches Err(m) && m@ == e.spec_message(),
            },
    {
        match Compression::parse(s) {
            Ok(c) => Ok(c),
            Err(e) => Err(e.message()),
        }
    }
}

} // verus!
