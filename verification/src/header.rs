//! Reading the native library's header: the version and build facts that its
//! `#define` lines state, and the check that the version found is one the
//! bindings can link against.

use crate::number::{decimal_i32, decimal_int, parse_i32, parse_i32_spec};
use crate::text::{
    chars_of, contains, extend_chars, find, first_match, occurs, push_str, split_chars, split_on,
    string_of, strip_chars, texts, trim, trim_matches, Strip,
};
use crate::version::{
    compatible, compatible_version, ECM_VERSION_MAJOR, ECM_VERSION_MINOR, ECM_VERSION_PATCHLEVEL,
};
use vstd::prelude::*;

verus! {

/// Stands before the library's version, which follows in double quotes.
pub const KEY_ECM_VERSION: &'static str = "#define ECM_VERSION ";

/// Stands before a major version.
pub const KEY_VERSION: &'static str = "#define __GNU_MP_VERSION ";

/// Stands before a minor version.
pub const KEY_VERSION_MINOR: &'static str = "#define __GNU_MP_VERSION_MINOR ";

/// Stands before a patch level.
pub const KEY_VERSION_PATCHLEVEL: &'static str = "#define __GNU_MP_VERSION_PATCHLEVEL ";

/// Says that a limb is not a `long long`.
pub const KEY_NOT_LONG_LONG_LIMB: &'static str = "#undef _LONG_LONG_LIMB";

/// Says that a limb is a `long long`.
pub const KEY_LONG_LONG_LIMB: &'static str = "#define _LONG_LONG_LIMB 1";

/// Stands before the number of bits in a limb.
pub const KEY_LIMB_BITS: &'static str = "#define ECM_LIMB_BITS ";

/// Stands before the number of nail bits in a limb.
pub const KEY_NAIL_BITS: &'static str = "#define ECM_NAIL_BITS ";

/// Stands before the C compiler that built the library.
pub const KEY_CC: &'static str = "#define __ECM_CC ";

/// Stands before the flags that the C compiler was given.
pub const KEY_CFLAGS: &'static str = "#define __ECM_CFLAGS ";

/// What a header has stated so far.
#[derive(Debug, Clone)]
pub struct HeaderInfo {
    /// Major version.
    pub major: Option<i32>,
    /// Minor version.
    pub minor: Option<i32>,
    /// Patch level.
    pub patchlevel: Option<i32>,
    /// Bits in a limb.
    pub limb_bits: Option<i32>,
    /// Nail bits in a limb.
    pub nail_bits: Option<i32>,
    /// Whether a limb is a `long long`.
    pub long_long_limb: Option<bool>,
    /// The C compiler that built the library.
    pub cc: Option<String>,
    /// The flags that the C compiler was given.
    pub cflags: Option<String>,
}

/// What a header has stated so far, with texts as sequences of characters.
pub struct HeaderFacts {
    /// Major version.
    pub major: Option<i32>,
    /// Minor version.
    pub minor: Option<i32>,
    /// Patch level.
    pub patchlevel: Option<i32>,
    /// Bits in a limb.
    pub limb_bits: Option<i32>,
    /// Nail bits in a limb.
    pub nail_bits: Option<i32>,
    /// Whether a limb is a `long long`.
    pub long_long_limb: Option<bool>,
    /// The C compiler that built the library.
    pub cc: Option<Seq<char>>,
    /// The flags that the C compiler was given.
    pub cflags: Option<Seq<char>>,
}

/// The characters of a text that may be absent.
pub open spec fn text_of(s: Option<String>) -> Option<Seq<char>> {
    match s {
        Some(t) => Some(t@),
        None => None,
    }
}

impl View for HeaderInfo {
    type V = HeaderFacts;

    open spec fn view(&self) -> HeaderFacts {
        HeaderFacts {
            major: self.major,
            minor: self.minor,
            patchlevel: self.patchlevel,
            limb_bits: self.limb_bits,
            nail_bits: self.nail_bits,
            long_long_limb: self.long_long_limb,
            cc: text_of(self.cc),
            cflags: text_of(self.cflags),
        }
    }
}

/// Why a header cannot be used.
#[derive(Clone, Copy, Debug, PartialEq, Eq, Structural)]
pub enum HeaderError {
    /// What follows the version key is not a text of two characters or more
    /// whose first and last character take one byte each.
    MalformedVersion,
    /// No line stated a major version.
    NoMajor,
    /// No line stated a minor version.
    NoMinor,
    /// No line stated a patch level.
    NoPatchlevel,
    /// The header is of a version that the bindings cannot link against.
    Incompatible {
        /// Major version found.
        major: i32,
        /// Minor version found.
        minor: i32,
        /// Patch level found.
        patchlevel: i32,
    },
}

/// The facts of a header of which nothing has been read.
pub open spec fn no_facts() -> HeaderFacts {
    HeaderFacts {
        major: None,
        minor: None,
        patchlevel: None,
        limb_bits: None,
        nail_bits: None,
        long_long_limb: None,
        cc: None,
        cflags: None,
    }
}

/// What follows the first `key` in `line`, without the whitespace at its
/// ends; `None` where `line` does not hold `key`.
pub open spec fn value_after(line: Seq<char>, key: Seq<char>) -> Option<Seq<char>> {
    match first_match(line, key) {
        Some(i) => Some(trim(line.skip(i + key.len()))),
        None => None,
    }
}

/// The `i32` that `s` writes in decimal, if it writes one.
pub open spec fn number_of(s: Seq<char>) -> Option<i32> {
    match parse_i32_spec(s) {
        Some(v) => Some(v as i32),
        None => None,
    }
}

/// The number that a line gives for `key`: where the line holds the key, what
/// follows it read as a number, else the number known before.
pub open spec fn number_after(known: Option<i32>, line: Seq<char>, key: Seq<char>) -> Option<
    i32,
> {
    match value_after(line, key) {
        Some(v) => number_of(v),
        None => known,
    }
}

/// The text that a line gives for `key`: where the line holds the key, what
/// follows it without the double quotes at its ends, else the text known
/// before.
pub open spec fn text_after(known: Option<Seq<char>>, line: Seq<char>, key: Seq<char>) -> Option<
    Seq<char>,
> {
    match value_after(line, key) {
        Some(v) => Some(trim_matches(v, '"')),
        None => known,
    }
}

/// Whether `c` takes one byte in UTF-8.
pub open spec fn one_byte(c: char) -> bool {
    (c as u32) < 0x80
}

/// `v` without its first and its last byte, where that is a text.
pub open spec fn unquoted(v: Seq<char>) -> Option<Seq<char>> {
    if v.len() >= 2 && one_byte(v.first()) && one_byte(v.last()) {
        Some(v.subrange(1, v.len() - 1))
    } else {
        None
    }
}

/// The number that field `k` of a dotted version writes.
pub open spec fn field_number(fields: Seq<Seq<char>>, k: int) -> Option<i32> {
    if 0 <= k < fields.len() {
        number_of(fields[k])
    } else {
        None
    }
}

/// The facts after a line that may hold the quoted version.
pub open spec fn with_quoted_version(facts: HeaderFacts, line: Seq<char>) -> Result<
    HeaderFacts,
    HeaderError,
> {
    match value_after(line, KEY_ECM_VERSION@) {
        None => Ok(facts),
        Some(v) => match unquoted(v) {
            None => Err(HeaderError::MalformedVersion),
            Some(u) => {
                let fields = split_on(u, '.');
                Ok(
                    HeaderFacts {
                        major: field_number(fields, 0),
                        minor: field_number(fields, 1),
                        patchlevel: field_number(fields, 2),
                        ..facts
                    },
                )
            },
        },
    }
}

/// Whether a limb is a `long long`, after a line that may say so.
pub open spec fn long_long_after(known: Option<bool>, line: Seq<char>) -> Option<bool> {
    if occurs(line, KEY_LONG_LONG_LIMB@) {
        Some(true)
    } else if occurs(line, KEY_NOT_LONG_LONG_LIMB@) {
        Some(false)
    } else {
        known
    }
}

/// The facts after a line that holds no malformed quoted version.
pub open spec fn with_defines(facts: HeaderFacts, line: Seq<char>) -> HeaderFacts {
    HeaderFacts {
        major: number_after(facts.major, line, KEY_VERSION@),
        minor: number_after(facts.minor, line, KEY_VERSION_MINOR@),
        patchlevel: number_after(facts.patchlevel, line, KEY_VERSION_PATCHLEVEL@),
        limb_bits: number_after(facts.limb_bits, line, KEY_LIMB_BITS@),
        nail_bits: number_after(facts.nail_bits, line, KEY_NAIL_BITS@),
        long_long_limb: long_long_after(facts.long_long_limb, line),
        cc: text_after(facts.cc, line, KEY_CC@),
        cflags: text_after(facts.cflags, line, KEY_CFLAGS@),
    }
}

/// The facts after one more line. A key sets its fact anew each time it is
/// met: a value that cannot be read clears what was known. The quoted version
/// sets all three numbers, and a separate number on the same line comes after
/// it.
pub open spec fn scan_line_spec(facts: HeaderFacts, line: Seq<char>) -> Result<
    HeaderFacts,
    HeaderError,
> {
    match with_quoted_version(facts, line) {
        Ok(f) => Ok(with_defines(f, line)),
        Err(e) => Err(e),
    }
}

/// The facts after the lines `lines`, read in order; the first malformed line
/// ends the reading.
pub open spec fn scan_lines_spec(facts: HeaderFacts, lines: Seq<Seq<char>>) -> Result<
    HeaderFacts,
    HeaderError,
>
    decreases lines.len(),
{
    if lines.len() == 0 {
        Ok(facts)
    } else {
        match scan_line_spec(facts, lines[0]) {
            Ok(f) => scan_lines_spec(f, lines.skip(1)),
            Err(e) => Err(e),
        }
    }
}

/// The facts that the header `text` states, line by line.
pub open spec fn scan_header_spec(text: Seq<char>) -> Result<HeaderFacts, HeaderError> {
    scan_lines_spec(no_facts(), split_on(text, '\n'))
}

/// The version that the facts state, where it is complete and compatible
/// with the version the bindings are written for.
pub open spec fn found_version_spec(facts: HeaderFacts, use_system_libs: bool) -> Result<
    (i32, i32, i32),
    HeaderError,
> {
    match (facts.major, facts.minor, facts.patchlevel) {
        (None, _, _) => Err(HeaderError::NoMajor),
        (Some(_), None, _) => Err(HeaderError::NoMinor),
        (Some(_), Some(_), None) => Err(HeaderError::NoPatchlevel),
        (Some(major), Some(minor), Some(patchlevel)) => if compatible(
            use_system_libs,
            major as int,
            minor as int,
            patchlevel as int,
            (
                ECM_VERSION_MAJOR as int,
                ECM_VERSION_MINOR as int,
                ECM_VERSION_PATCHLEVEL as int,
            ),
        ) {
            Ok((major, minor, patchlevel))
        } else {
            Err(HeaderError::Incompatible { major, minor, patchlevel })
        },
    }
}

/// Whether `line` holds one of the keys that the reading looks for.
pub open spec fn holds_a_key(line: Seq<char>) -> bool {
    ||| occurs(line, KEY_ECM_VERSION@)
    ||| occurs(line, KEY_VERSION@)
    ||| occurs(line, KEY_VERSION_MINOR@)
    ||| occurs(line, KEY_VERSION_PATCHLEVEL@)
    ||| occurs(line, KEY_LIMB_BITS@)
    ||| occurs(line, KEY_NAIL_BITS@)
    ||| occurs(line, KEY_LONG_LONG_LIMB@)
    ||| occurs(line, KEY_NOT_LONG_LONG_LIMB@)
    ||| occurs(line, KEY_CC@)
    ||| occurs(line, KEY_CFLAGS@)
}

/// A line that holds none of the keys changes nothing and is never
/// malformed.
pub proof fn lemma_other_lines_change_nothing(facts: HeaderFacts, line: Seq<char>)
    requires
        !holds_a_key(line),
    ensures
        scan_line_spec(facts, line) == Ok::<_, HeaderError>(facts),
{
}

/// Lines that hold none of the keys can stand anywhere in a header without
/// changing what is read from it: here, in front of the other lines.
pub proof fn lemma_leading_line_without_key(
    facts: HeaderFacts,
    line: Seq<char>,
    rest: Seq<Seq<char>>,
)
    requires
        !holds_a_key(line),
    ensures
        scan_lines_spec(facts, seq![line] + rest) == scan_lines_spec(facts, rest),
{
    let all = seq![line] + rest;
    assert(all[0] == line);
    assert(all.skip(1) =~= rest);
    lemma_other_lines_change_nothing(facts, line);
}

/// What follows the first `key` in `line`, without the whitespace at its ends.
fn value_after_key<'a>(line: &'a [char], key: &str) -> (r: Option<&'a [char]>)
    ensures
        match r {
            Some(v) => value_after(line@, key@) == Some(v@),
            None => value_after(line@, key@) is None,
        },
{
    let k: Vec<char> = chars_of(key);
    match find(line, k.as_slice()) {
        Some(i) => {
            assert(i + k.len() <= line.len());
            let rest: &[char] = &line[i + k.len()..line.len()];
            assert(rest@ =~= line@.skip(i + key@.len()));
            Some(strip_chars(rest, Strip::Whitespace))
        },
        None => None,
    }
}

/// Reads `s` as a decimal `i32`.
fn read_number(s: &[char]) -> (r: Option<i32>)
    ensures
        r == number_of(s@),
{
    parse_i32(s)
}

/// The number that a line gives for `key`.
fn read_number_after(known: Option<i32>, line: &[char], key: &str) -> (r: Option<i32>)
    ensures
        r == number_after(known, line@, key@),
{
    match value_after_key(line, key) {
        Some(v) => read_number(v),
        None => known,
    }
}

/// The text that a line gives for `key`.
fn read_text_after(known: Option<String>, line: &[char], key: &str) -> (r: Option<String>)
    ensures
        text_of(r) == text_after(text_of(known), line@, key@),
{
    match value_after_key(line, key) {
        Some(v) => Some(string_of(strip_chars(v, Strip::Char('"')))),
        None => known,
    }
}

/// The number that field `k` of a dotted version writes.
fn read_field(fields: &Vec<Vec<char>>, k: usize) -> (r: Option<i32>)
    ensures
        r == field_number(texts(fields@), k as int),
{
    if k < fields.len() {
        read_number(fields[k].as_slice())
    } else {
        None
    }
}

impl HeaderInfo {
    /// A header of which nothing has been read.
    pub fn new() -> (r: HeaderInfo)
        ensures
            r@ == no_facts(),
    {
        HeaderInfo {
            major: None,
            minor: None,
            patchlevel: None,
            limb_bits: None,
            nail_bits: None,
            long_long_limb: None,
            cc: None,
            cflags: None,
        }
    }

    /// Takes in one line, given by its characters.
    fn scan_chars(self, line: &[char]) -> (r: Result<HeaderInfo, HeaderError>)
        ensures
            match r {
                Ok(info) => scan_line_spec(self@, line@) == Ok::<_, HeaderError>(info@),
                Err(e) => scan_line_spec(self@, line@) == Err::<HeaderFacts, _>(e),
            },
    {
        let mut info: HeaderInfo = self;
        match value_after_key(line, KEY_ECM_VERSION) {
            None => {},
            Some(v) => {
                let n: usize = v.len();
                if n < 2 || (v[0] as u32) >= 0x80 || (v[n - 1] as u32) >= 0x80 {
                    return Err(HeaderError::MalformedVersion);
                }
                let fields: Vec<Vec<char>> = split_chars(&v[1..n - 1], '.');
                info.major = read_field(&fields, 0);
                info.minor = read_field(&fields, 1);
                info.patchlevel = read_field(&fields, 2);
            },
        }
        info.major = read_number_after(info.major, line, KEY_VERSION);
        info.minor = read_number_after(info.minor, line, KEY_VERSION_MINOR);
        info.patchlevel = read_number_after(info.patchlevel, line, KEY_VERSION_PATCHLEVEL);
        let undef: Vec<char> = chars_of(KEY_NOT_LONG_LONG_LIMB);
        if contains(line, undef.as_slice()) {
            info.long_long_limb = Some(false);
        }
        let def: Vec<char> = chars_of(KEY_LONG_LONG_LIMB);
        if contains(line, def.as_slice()) {
            info.long_long_limb = Some(true);
        }
        info.limb_bits = read_number_after(info.limb_bits, line, KEY_LIMB_BITS);
        info.nail_bits = read_number_after(info.nail_bits, line, KEY_NAIL_BITS);
        info.cc = read_text_after(info.cc, line, KEY_CC);
        info.cflags = read_text_after(info.cflags, line, KEY_CFLAGS);
        Ok(info)
    }

    /// Takes in one line of the header.
    pub fn scan_line(self, line: &str) -> (r: Result<HeaderInfo, HeaderError>)
        ensures
            match r {
                Ok(info) => scan_line_spec(self@, line@) == Ok::<_, HeaderError>(info@),
                Err(e) => scan_line_spec(self@, line@) == Err::<HeaderFacts, _>(e),
            },
    {
        let chars: Vec<char> = chars_of(line);
        self.scan_chars(chars.as_slice())
    }

    /// The version that the header stated, where it is complete and one that
    /// the bindings can link against.
    pub fn found_version(&self, use_system_libs: bool) -> (r: Result<(i32, i32, i32), HeaderError>)
        ensures
            r == found_version_spec(self@, use_system_libs),
    {
        let major: i32 = match self.major {
            Some(v) => v,
            None => {
                return Err(HeaderError::NoMajor);
            },
        };
        let minor: i32 = match self.minor {
            Some(v) => v,
            None => {
                return Err(HeaderError::NoMinor);
            },
        };
        let patchlevel: i32 = match self.patchlevel {
            Some(v) => v,
            None => {
                return Err(HeaderError::NoPatchlevel);
            },
        };
        if compatible_version(
            use_system_libs,
            major,
            minor,
            patchlevel,
            (ECM_VERSION_MAJOR, ECM_VERSION_MINOR, ECM_VERSION_PATCHLEVEL),
        ) {
            Ok((major, minor, patchlevel))
        } else {
            Err(HeaderError::Incompatible { major, minor, patchlevel })
        }
    }
}

/// Reads the header `text` line by line.
pub fn scan_header(text: &str) -> (r: Result<HeaderInfo, HeaderError>)
    ensures
        match r {
            Ok(info) => scan_header_spec(text@) == Ok::<_, HeaderError>(info@),
            Err(e) => scan_header_spec(text@) == Err::<HeaderFacts, _>(e),
        },
{
    let chars: Vec<char> = chars_of(text);
    let lines: Vec<Vec<char>> = split_chars(chars.as_slice(), '\n');
    let mut info: HeaderInfo = HeaderInfo::new();
    let mut i: usize = 0;
    assert(texts(lines@).skip(0) =~= texts(lines@));
    while i < lines.len()
        invariant
            i <= lines.len(),
            texts(lines@) == split_on(text@, '\n'),
            scan_header_spec(text@) == scan_lines_spec(info@, texts(lines@).skip(i as int)),
        decreases lines.len() - i,
    {
        let ghost rest = texts(lines@).skip(i as int);
        assert(rest[0] == lines@[i as int]@);
        assert(rest.skip(1) =~= texts(lines@).skip(i + 1));
        match info.scan_chars(lines[i].as_slice()) {
            Ok(next) => {
                info = next;
            },
            Err(e) => {
                return Err(e);
            },
        }
        i += 1;
    }
    Ok(info)
}

/// The Rust source that states the version found as three constants.
pub open spec fn constants_source_spec(major: int, minor: int, patchlevel: int) -> Seq<char> {
    "const ECM_VERSION: c_int = "@ + decimal_int(major) + ";\n"@
        + "const ECM_VERSION_MINOR: c_int = "@ + decimal_int(minor) + ";\n"@
        + "const ECM_VERSION_PATCHLEVEL: c_int = "@ + decimal_int(patchlevel) + ";\n"@
}

/// Appends a number in decimal to `out`.
fn push_number(out: &mut Vec<char>, n: i32)
    ensures
        final(out)@ == old(out)@ + decimal_int(n as int),
{
    let digits: Vec<char> = decimal_i32(n);
    extend_chars(out, digits.as_slice());
}

/// The Rust source that states the version found as three constants.
pub fn constants_source(major: i32, minor: i32, patchlevel: i32) -> (r: String)
    ensures
        r@ == constants_source_spec(major as int, minor as int, patchlevel as int),
{
    let mut out: Vec<char> = chars_of("const ECM_VERSION: c_int = ");
    push_number(&mut out, major);
    push_str(&mut out, ";\n");
    push_str(&mut out, "const ECM_VERSION_MINOR: c_int = ");
    push_number(&mut out, minor);
    push_str(&mut out, ";\n");
    push_str(&mut out, "const ECM_VERSION_PATCHLEVEL: c_int = ");
    push_number(&mut out, patchlevel);
    push_str(&mut out, ";\n");
    string_of(out.as_slice())
}

/// A version written with dots between its three numbers.
pub open spec fn dotted(major: int, minor: int, patchlevel: int) -> Seq<char> {
    decimal_int(major) + "."@ + decimal_int(minor) + "."@ + decimal_int(patchlevel)
}

/// What an error says to the reader of a build log.
pub open spec fn message_spec(e: HeaderError) -> Seq<char> {
    match e {
        HeaderError::MalformedVersion => "Cannot read ECM_VERSION"@,
        HeaderError::NoMajor => "Cannot determine __GNU_MP_VERSION"@,
        HeaderError::NoMinor => "Cannot determine __GNU_MP_VERSION_MINOR"@,
        HeaderError::NoPatchlevel => "Cannot determine __GNU_MP_VERSION_PATCHLEVEL"@,
        HeaderError::Incompatible { major, minor, patchlevel } =>
            "This version of gmp-ecm-sys supports ECM "@ + dotted(
                ECM_VERSION_MAJOR as int,
                ECM_VERSION_MINOR as int,
                ECM_VERSION_PATCHLEVEL as int,
            ) + ", but "@ + dotted(major as int, minor as int, patchlevel as int)
                + " was found"@,
    }
}

/// Appends a dotted version to `out`.
fn push_dotted(out: &mut Vec<char>, major: i32, minor: i32, patchlevel: i32)
    ensures
        final(out)@ == old(out)@ + dotted(major as int, minor as int, patchlevel as int),
{
    push_number(out, major);
    push_str(out, ".");
    push_number(out, minor);
    push_str(out, ".");
    push_number(out, patchlevel);
    assert(out@ =~= old(out)@ + dotted(major as int, minor as int, patchlevel as int));
}

impl HeaderError {
    /// What the error says to the reader of a build log.
    pub fn message(&self) -> (r: String)
        ensures
            r@ == message_spec(*self),
    {
        match self {
            HeaderError::MalformedVersion => string_of(
                chars_of("Cannot read ECM_VERSION").as_slice(),
            ),
            HeaderError::NoMajor => string_of(
                chars_of("Cannot determine __GNU_MP_VERSION").as_slice(),
            ),
            HeaderError::NoMinor => string_of(
                chars_of("Cannot determine __GNU_MP_VERSION_MINOR").as_slice(),
            ),
            HeaderError::NoPatchlevel => string_of(
                chars_of("Cannot determine __GNU_MP_VERSION_PATCHLEVEL").as_slice(),
            ),
            HeaderError::Incompatible { major, minor, patchlevel } => {
                let mut out: Vec<char> = chars_of("This version of gmp-ecm-sys supports ECM ");
                push_dotted(
                    &mut out,
                    ECM_VERSION_MAJOR,
                    ECM_VERSION_MINOR,
                    ECM_VERSION_PATCHLEVEL,
                );
                push_str(&mut out, ", but ");
                push_dotted(&mut out, *major, *minor, *patchlevel);
                push_str(&mut out, " was found");
                string_of(out.as_slice())
            },
        }
    }
}

/// What a header comes to: the source of the version constants, where the
/// header states a complete version that the bindings can link against.
pub open spec fn process_ecm_header_spec(text: Seq<char>, use_system_libs: bool) -> Result<
    Seq<char>,
    HeaderError,
> {
    match scan_header_spec(text) {
        Err(e) => Err(e),
        Ok(facts) => match found_version_spec(facts, use_system_libs) {
            Err(e) => Err(e),
            Ok(v) => Ok(constants_source_spec(v.0 as int, v.1 as int, v.2 as int)),
        },
    }
}

/// Reads the header `text`, checks the version it states, and gives the
/// source of the version constants.
pub fn process_ecm_header(text: &str, use_system_libs: bool) -> (r: Result<String, HeaderError>)
    ensures
        match r {
            Ok(source) => process_ecm_header_spec(text@, use_system_libs) == Ok::<
                _,
                HeaderError,
            >(source@),
            Err(e) => process_ecm_header_spec(text@, use_system_libs) == Err::<Seq<char>, _>(e),
        },
{
    let info: HeaderInfo = match scan_header(text) {
        Ok(info) => info,
        Err(e) => {
            return Err(e);
        },
    };
    match info.found_version(use_system_libs) {
        Ok(v) => Ok(constants_source(v.0, v.1, v.2)),
        Err(e) => Err(e),
    }
}

} // verus!
