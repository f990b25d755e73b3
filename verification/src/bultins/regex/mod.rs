use std::ops::Range;

use regress::Error as RegexError;
use vstd::prelude::*;
use vstd::string::StrSliceExecFns;
use vstd::string::StringExecFns;
use vstd::string::StringSliceAdditionalSpecFns;
use vstd::utf8::*;

verus! {

broadcast use vstd::string::group_string_axioms;

/// The flags of a regular expression, one bit per JavaScript flag letter.
#[derive(Debug, Clone, Copy, PartialEq, Eq, Structural, PartialOrd, Ord)]
pub struct RegExpFlags(u8);

#[allow(non_upper_case_globals)]
impl RegExpFlags {
    const Empty: u8 = 0b00000000;
    const HasIndices: u8 = 0b00000001;
    const Global: u8 = 0b00000010;
    const IgnoreCase: u8 = 0b00000100;
    const Multiline: u8 = 0b00001000;
    const DotAll: u8 = 0b00010000;
    const Unicode: u8 = 0b00100000;
    const Sticky: u8 = 0b01000000;
}

impl RegExpFlags {
    /// The raw flag bits.
    pub closed spec fn bits(self) -> u8 {
        self.0
    }

    /// Whether any bit of `mask` is set.
    pub open spec fn has(self, mask: u8) -> bool {
        self.bits() & mask != 0
    }

    /// `d`: match indices are reported.
    pub fn has_indices(self) -> (r: bool)
        ensures
            r == self.has(1),
    {
        self & RegExpFlags(Self::HasIndices)
    }

    /// `g`: the search is global and resumes at `last_index`.
    pub fn global(self) -> (r: bool)
        ensures
            r == self.has(2),
    {
        self & RegExpFlags(Self::Global)
    }

    /// `i`: case is ignored.
    pub fn ignore_case(self) -> (r: bool)
        ensures
            r == self.has(4),
    {
        self & RegExpFlags(Self::IgnoreCase)
    }

    /// `m`: `^` and `$` match at line breaks.
    pub fn multiline(self) -> (r: bool)
        ensures
            r == self.has(8),
    {
        self & RegExpFlags(Self::Multiline)
    }

    /// `s`: `.` matches line terminators.
    pub fn dotall(self) -> (r: bool)
        ensures
            r == self.has(16),
    {
        self & RegExpFlags(Self::DotAll)
    }

    /// `u`: the pattern is read as code points.
    pub fn unicode(self) -> (r: bool)
        ensures
            r == self.has(32),
    {
        self & RegExpFlags(Self::Unicode)
    }

    /// `y`: the match must start exactly at `last_index`.
    pub fn sticky(self) -> (r: bool)
        ensures
            r == self.has(64),
    {
        self & RegExpFlags(Self::Sticky)
    }
}

impl core::ops::BitOr for RegExpFlags {
    type Output = RegExpFlags;

    fn bitor(self, rhs: RegExpFlags) -> (r: RegExpFlags)
        ensures
            r.bits() == self.bits() | rhs.bits(),
    {
        RegExpFlags(self.0 | rhs.0)
    }
}

impl vstd::std_specs::ops::BitOrSpecImpl for RegExpFlags {
    open spec fn obeys_bitor_spec() -> bool {
        true
    }

    open spec fn bitor_req(self, rhs: RegExpFlags) -> bool {
        true
    }

    closed spec fn bitor_spec(self, rhs: RegExpFlags) -> RegExpFlags {
        RegExpFlags(self.0 | rhs.0)
    }
}

impl core::ops::BitOrAssign for RegExpFlags {
    fn bitor_assign(&mut self, rhs: RegExpFlags)
        ensures
            final(self).bits() == old(self).bits() | rhs.bits(),
    {
        *self = RegExpFlags(self.0 | rhs.0)
    }
}

impl core::ops::BitAnd for RegExpFlags {
    type Output = bool;

    /// Whether the two sets of flags share a flag.
    fn bitand(self, rhs: RegExpFlags) -> (r: bool)
        ensures
            r == (self.bits() & rhs.bits() != 0),
    {
        (self.0 & rhs.0) != 0
    }
}

impl vstd::std_specs::ops::BitAndSpecImpl for RegExpFlags {
    open spec fn obeys_bitand_spec() -> bool {
        true
    }

    open spec fn bitand_req(self, rhs: RegExpFlags) -> bool {
        true
    }

    open spec fn bitand_spec(self, rhs: RegExpFlags) -> bool {
        self.bits() & rhs.bits() != 0
    }
}


/// Number of bytes of the UTF-8 encoding of `c`.
pub fn utf8_width(c: char) -> (r: usize)
    ensures
        r == encode_scalar(c as u32).len(),
        1 <= r <= 4,
{
    proof {
        char_is_scalar(c);
    }
    let u = c as u32;
    if u < 0x80 {
        1
    } else if u < 0x800 {
        2
    } else if u < 0x10000 {
        3
    } else {
        4
    }
}

/// The number of bytes of the UTF-8 encoding of `c`.
pub open spec fn char_width(c: char) -> int {
    encode_scalar(c as u32).len() as int
}

/// The character whose encoding starts at byte `index` of the encoding of
/// `s`, if a character starts there.
pub open spec fn char_at_byte(s: Seq<char>, index: int) -> Option<char>
    decreases s.len(),
{
    if s.len() == 0 || index < 0 {
        None
    } else if index == 0 {
        Some(s[0])
    } else {
        char_at_byte(s.drop_first(), index - char_width(s[0]))
    }
}

/// The byte index that a search moves to after failing at byte `index`:
/// one further without the unicode flag or when at most one byte is left,
/// otherwise past the character that starts at `index` (one byte further
/// where no character starts there).
pub open spec fn spec_advance_string_index(s: Seq<char>, index: int, unicode: bool) -> int {
    if !unicode || index + 1 >= encode_utf8(s).len() {
        index + 1
    } else {
        match char_at_byte(s, index) {
            Some(c) => index + char_width(c),
            None => index + 1,
        }
    }
}

/// Where the next index fits in a `usize`.
pub open spec fn advance_string_index_defined(s: Seq<char>, index: int, unicode: bool) -> bool {
    &&& index < usize::MAX
    &&& encode_utf8(s).len() <= usize::MAX
}

/// The next byte index at which a search is tried: one further, or with the
/// unicode flag past the character that starts at `index`.
pub fn advance_string_index(s: &str, index: usize, unicode: bool) -> (r: usize)
    requires
        advance_string_index_defined(s@, index as int, unicode),
    ensures
        r == spec_advance_string_index(s@, index as int, unicode),
{
    if !unicode {
        return index + 1;
    }
    let length = s.len();
    if index + 1 >= length {
        return index + 1;
    }
    let n = s.unicode_len();
    let mut k: usize = 0;
    let mut pos: usize = 0;
    proof {
        assert(s@.skip(0) =~= s@);
    }
    while k < n && pos < index
        invariant
            n == s@.len(),
            k <= n,
            length == encode_utf8(s@).len(),
            encode_utf8(s@).len() <= usize::MAX,
            pos + encode_utf8(s@.skip(k as int)).len() == encode_utf8(s@).len(),
            char_at_byte(s@, index as int) == char_at_byte(s@.skip(k as int), index - pos),
        decreases n - k,
    {
        let c = s.get_char(k);
        let w = utf8_width(c);
        proof {
            assert(s@.skip(k as int).drop_first() =~= s@.skip(k + 1));
            assert(s@.skip(k as int)[0] == c);
            reveal_with_fuel(encode_utf8, 2);
        }
        pos = pos + w;
        k = k + 1;
    }
    if k < n && pos == index {
        let c = s.get_char(k);
        proof {
            assert(s@.skip(k as int)[0] == c);
            assert(s@.skip(k as int).drop_first() =~= s@.skip(k + 1));
            reveal_with_fuel(encode_utf8, 2);
        }
        index + utf8_width(c)
    } else {
        index + 1
    }
}

/// Whether the character `c` occurs in `s`.
pub fn letters_contain(s: &str, c: char) -> (r: bool)
    ensures
        r == s@.contains(c),
{
    let n = s.unicode_len();
    let mut i: usize = 0;
    while i < n
        invariant
            n == s@.len(),
            i <= n,
            forall|j: int| 0 <= j < i ==> s@[j] != c,
        decreases n - i,
    {
        if s.get_char(i) == c {
            return true;
        }
        i = i + 1;
    }
    false
}

/// The flags named by the letters of `letters`: `d`, `g`, `i`, `m`, `s`,
/// `u` and `y`; other letters set no flag.
pub open spec fn flags_from_letters(letters: Seq<char>) -> u8 {
    ((if letters.contains('d') { 1u8 } else { 0u8 }) + (if letters.contains('g') { 2u8 } else { 0u8 })
        + (if letters.contains('i') { 4u8 } else { 0u8 }) + (if letters.contains('m') { 8u8 } else { 0u8 })
        + (if letters.contains('s') { 16u8 } else { 0u8 }) + (if letters.contains('u') { 32u8 } else { 0u8 })
        + (if letters.contains('y') { 64u8 } else { 0u8 })) as u8
}

proof fn lemma_or_fresh_bit(x: u8, b: u8)
    requires
        b == 1 || b == 2 || b == 4 || b == 8 || b == 16 || b == 32 || b == 64,
        x < b,
    ensures
        x | b == x + b,
{
    assert(x | b == x + b) by (bit_vector)
        requires
            b == 1 || b == 2 || b == 4 || b == 8 || b == 16 || b == 32 || b == 64,
            x < b,
    ;
}

/// Each flag letter sets exactly its own bit.
pub proof fn lemma_flags_from_letters(letters: Seq<char>)
    ensures
        (flags_from_letters(letters) & 1 != 0) == letters.contains('d'),
        (flags_from_letters(letters) & 2 != 0) == letters.contains('g'),
        (flags_from_letters(letters) & 4 != 0) == letters.contains('i'),
        (flags_from_letters(letters) & 8 != 0) == letters.contains('m'),
        (flags_from_letters(letters) & 16 != 0) == letters.contains('s'),
        (flags_from_letters(letters) & 32 != 0) == letters.contains('u'),
        (flags_from_letters(letters) & 64 != 0) == letters.contains('y'),
        flags_from_letters(letters) < 128,
{
    let d = letters.contains('d');
    let g = letters.contains('g');
    let i = letters.contains('i');
    let m = letters.contains('m');
    let s = letters.contains('s');
    let u = letters.contains('u');
    let y = letters.contains('y');
    let v = flags_from_letters(letters);
    assert(v == ((if d { 1u8 } else { 0u8 }) + (if g { 2u8 } else { 0u8 }) + (if i { 4u8 } else { 0u8 })
        + (if m { 8u8 } else { 0u8 }) + (if s { 16u8 } else { 0u8 }) + (if u { 32u8 } else { 0u8 })
        + (if y { 64u8 } else { 0u8 })) as u8);
    assert({
        &&& (v & 1 != 0) == d
        &&& (v & 2 != 0) == g
        &&& (v & 4 != 0) == i
        &&& (v & 8 != 0) == m
        &&& (v & 16 != 0) == s
        &&& (v & 32 != 0) == u
        &&& (v & 64 != 0) == y
        &&& v < 128
    }) by (bit_vector)
        requires
            v == ((if d { 1u8 } else { 0u8 }) + (if g { 2u8 } else { 0u8 }) + (if i { 4u8 } else { 0u8 })
                + (if m { 8u8 } else { 0u8 }) + (if s { 16u8 } else { 0u8 }) + (if u { 32u8 } else { 0u8 })
                + (if y { 64u8 } else { 0u8 })) as u8,
    ;
}

/// Parses the flag letters of a regular expression literal.
pub fn parse_flags(flags: &str) -> (r: RegExpFlags)
    ensures
        r.bits() == flags_from_letters(flags@),
{
    let mut f = RegExpFlags(RegExpFlags::Empty);
    if letters_contain(flags, 'd') {
        proof { lemma_or_fresh_bit(f.0, 1); }
        f = f | RegExpFlags(RegExpFlags::HasIndices);
    }
    if letters_contain(flags, 'g') {
        proof { lemma_or_fresh_bit(f.0, 2); }
        f = f | RegExpFlags(RegExpFlags::Global);
    }
    if letters_contain(flags, 'i') {
        proof { lemma_or_fresh_bit(f.0, 4); }
        f = f | RegExpFlags(RegExpFlags::IgnoreCase);
    }
    if letters_contain(flags, 'm') {
        proof { lemma_or_fresh_bit(f.0, 8); }
        f = f | RegExpFlags(RegExpFlags::Multiline);
    }
    if letters_contain(flags, 's') {
        proof { lemma_or_fresh_bit(f.0, 16); }
        f = f | RegExpFlags(RegExpFlags::DotAll);
    }
    if letters_contain(flags, 'u') {
        proof { lemma_or_fresh_bit(f.0, 32); }
        f = f | RegExpFlags(RegExpFlags::Unicode);
    }
    if letters_contain(flags, 'y') {
        proof { lemma_or_fresh_bit(f.0, 64); }
        f = f | RegExpFlags(RegExpFlags::Sticky);
    }
    f
}


#[verifier::external_type_specification]
#[verifier::external_body]
pub struct ExRegex(regress::Regex);

/// The error text with which `regress` refuses `pattern` under the flag
/// letters `flags`, or `None` where it compiles the pattern.
pub uninterp spec fn regex_compile_error(pattern: Seq<char>, flags: Seq<char>) -> Option<Seq<char>>;

/// The error of `regress`: the message is its text.
#[verifier::external_type_specification]
pub struct ExRegexError(RegexError);

/// Compiles `pattern` with `regress::Regex::with_flags`, which reads the
/// flag letters `i`, `m` and `s` of `flags` and ignores the others. The
/// contract claims that whether the pattern compiles, and the text of the
/// error when it does not, depend on the pattern and the flag letters alone.
#[verifier::external_body]
fn compile_regex(pattern: &str, flags: &str) -> (r: Result<regress::Regex, RegexError>)
    ensures
        match r {
            Ok(_) => regex_compile_error(pattern@, flags@) is None,
            Err(e) => regex_compile_error(pattern@, flags@) == Some(e.text@),
        },
{
    regress::Regex::with_flags(pattern, flags)
}

/// A match as the matcher reports it: the matched byte range, the range of
/// each capture group (`None` for a group that took no part), and each named
/// group with its range.
pub struct FoundMatch {
    pub range: Range<usize>,
    pub captures: Vec<Option<Range<usize>>>,
    pub named: Vec<(String, Option<Range<usize>>)>,
}

/// A byte range as a pair of offsets.
pub open spec fn range_pair(r: Range<usize>) -> (usize, usize) {
    (r.start, r.end)
}

/// The capture ranges as pairs of offsets.
pub open spec fn captures_view(c: Seq<Option<Range<usize>>>) -> Seq<Option<(usize, usize)>> {
    c.map_values(
        |o: Option<Range<usize>>|
            match o {
                Some(r) => Some(range_pair(r)),
                None => None,
            },
    )
}

/// The first match that the pattern `pattern`, compiled under the flag
/// letters `flags`, finds in `text` starting at byte `start` or later: the
/// matched range and the range of each capture group, or `None`.
pub uninterp spec fn regex_find(pattern: Seq<char>, flags: Seq<char>, text: Seq<char>, start: usize) -> Option<
    ((usize, usize), Seq<Option<(usize, usize)>>),
>;

/// A pattern compiled under its flag letters: the pattern and the letters
/// it was compiled from, and the compiled matcher. It is only made by
/// compiling, so the matcher is always the one of its pattern and letters.
pub struct CompiledPattern {
    source: String,
    flag_letters: String,
    matcher: regress::Regex,
}

impl CompiledPattern {
    /// The pattern that was compiled.
    pub closed spec fn source(&self) -> Seq<char> {
        self.source@
    }

    /// The flag letters it was compiled under.
    pub closed spec fn flag_letters(&self) -> Seq<char> {
        self.flag_letters@
    }
}

/// A compiled regular expression with its flags and the index at which a
/// global or sticky search resumes.
pub struct RegExp {
    pub flags: RegExpFlags,
    pub last_index: usize,
    pub matcher: CompiledPattern,
}

impl RegExp {
    /// The pattern the expression was compiled from.
    pub open spec fn source(&self) -> Seq<char> {
        self.matcher.source()
    }

    /// The flag letters the expression was compiled under.
    pub open spec fn flag_letters(&self) -> Seq<char> {
        self.matcher.flag_letters()
    }
}

/// The first match of the expression in `text` that starts at byte `start`
/// or later, from `regress::Regex::find_from` on the matcher compiled from
/// the expression's pattern and flag letters. The contract claims that the
/// range and captures of the match are a function of the pattern, the flag
/// letters, the text and `start`, and that the match lies within `text`
/// and starts no earlier than `start`; it says nothing of the named groups,
/// which come in the order of the matcher's hash map.
#[verifier::external_body]
fn find_from(re: &CompiledPattern, text: &str, start: usize) -> (r: Option<FoundMatch>)
    requires
        start <= text.len() ==> is_char_boundary(text.spec_bytes(), start as int),
    ensures
        match r {
            Some(m) => {
                &&& regex_find(re.source(), re.flag_letters(), text@, start) == Some(
                    (range_pair(m.range), captures_view(m.captures@)),
                )
                &&& start <= m.range.start <= m.range.end <= text.len()
            },
            None => regex_find(re.source(), re.flag_letters(), text@, start) is None,
        },
{
    let m = re.matcher.find_from(text, start).next()?;
    let named = m.named_groups().map(|(n, g)| (n.to_string(), g)).collect();
    Some(FoundMatch { range: m.range, captures: m.captures, named })
}

/// A successful match: the matched byte range, the capture groups, and the
/// named groups that took part in the match.
pub struct Match {
    pub substr: Range<usize>,
    pub captures: Vec<Option<Range<usize>>>,
    pub named_groups: Vec<(String, Range<usize>)>,
}

impl RegExp {
    /// Compiles `pattern` under the flag letters `flags`; the error is the
    /// matcher's message.
    pub fn with_flags(pattern: &str, flags: &str) -> (r: Result<RegExp, String>)
        ensures
            r is Ok <==> regex_compile_error(pattern@, flags@) is None,
            r matches Err(e) ==> regex_compile_error(pattern@, flags@) == Some(e@),
            r matches Ok(re) ==> {
                &&& re.flags.bits() == flags_from_letters(flags@)
                &&& re.last_index == 0
                &&& re.source() == pattern@
                &&& re.flag_letters() == flags@
            },
    {
        let f = parse_flags(flags);
        let m = match compile_regex(pattern, flags) {
            Ok(v) => v,
            Err(e) => return Err(e.text),
        };
        Ok(
            RegExp {
                flags: f,
                last_index: 0,
                matcher: CompiledPattern {
                    source: String::from_str(pattern),
                    flag_letters: String::from_str(flags),
                    matcher: m,
                },
            },
        )
    }
}

/// The named groups that took part in a match, in the order given, each
/// with its range.
pub open spec fn present_groups(named: Seq<(String, Option<Range<usize>>)>) -> Seq<(Seq<char>, Range<usize>)>
    decreases named.len(),
{
    if named.len() == 0 {
        Seq::empty()
    } else {
        let rest = present_groups(named.drop_last());
        match named.last().1 {
            Some(r) => rest.push((named.last().0@, r)),
            None => rest,
        }
    }
}

/// The named groups of `named` that matched, in order.
pub fn collect_named_groups(named: &Vec<(String, Option<Range<usize>>)>) -> (r: Vec<(String, Range<usize>)>)
    ensures
        r@.map_values(|p: (String, Range<usize>)| (p.0@, p.1)) == present_groups(named@),
{
    let mut groups: Vec<(String, Range<usize>)> = Vec::new();
    let mut i: usize = 0;
    while i < named.len()
        invariant
            i <= named.len(),
            groups@.map_values(|p: (String, Range<usize>)| (p.0@, p.1)) == present_groups(named@.take(i as int)),
        decreases named.len() - i,
    {
        proof {
            assert(named@.take(i + 1).drop_last() =~= named@.take(i as int));
        }
        match &named[i].1 {
            Some(r) => {
                let range = Range { start: r.start, end: r.end };
                groups.push((named[i].0.clone(), range));
            },
            None => {},
        }
        i = i + 1;
    }
    proof {
        assert(named@.take(named.len() as int) =~= named@);
    }
    groups
}

/// What a search does after trying at one index.
pub enum SearchStep {
    /// The match starts at the index tried: it is the result.
    Found,
    /// Try again at the given index.
    Retry(usize),
    /// Give up: a sticky search found no match at its index.
    Fail,
}

/// The step after trying at `last_index`, where the matcher reported a match
/// starting at `found_start`, or none.
pub open spec fn spec_search_step(
    sticky: bool,
    unicode: bool,
    text: Seq<char>,
    last_index: int,
    found_start: Option<usize>,
) -> SearchStep {
    if found_start == Some(last_index as usize) {
        SearchStep::Found
    } else if sticky {
        SearchStep::Fail
    } else {
        SearchStep::Retry(spec_advance_string_index(text, last_index, unicode) as usize)
    }
}

/// Decides, from what the matcher reported for the search at `last_index`,
/// whether the match is taken, the search moves on, or it fails.
pub fn search_step(
    sticky: bool,
    unicode: bool,
    text: &str,
    last_index: usize,
    found_start: Option<usize>,
) -> (r: SearchStep)
    requires
        advance_string_index_defined(text@, last_index as int, unicode),
    ensures
        r == spec_search_step(sticky, unicode, text@, last_index as int, found_start),
{
    match found_start {
        Some(start) => {
            if start == last_index {
                return SearchStep::Found;
            }
        },
        None => {},
    }
    if sticky {
        SearchStep::Fail
    } else {
        SearchStep::Retry(advance_string_index(text, last_index, unicode))
    }
}

/// A character that starts at byte `index` ends within the encoding.
proof fn lemma_char_at_byte_fits(s: Seq<char>, index: int)
    ensures
        char_at_byte(s, index) matches Some(c) ==> 0 <= index && index + char_width(c) <= encode_utf8(s).len(),
    decreases s.len(),
{
    reveal_with_fuel(encode_utf8, 2);
    if s.len() > 0 && index > 0 {
        lemma_char_at_byte_fits(s.drop_first(), index - char_width(s[0]));
    }
}

/// A search step moves at least one byte forward, and no further than one
/// byte past the current index or the end of the text.
pub proof fn lemma_advance_moves(s: Seq<char>, index: int, unicode: bool)
    ensures
        spec_advance_string_index(s, index, unicode) > index,
        spec_advance_string_index(s, index, unicode) <= index + 1
            || spec_advance_string_index(s, index, unicode) <= encode_utf8(s).len(),
{
    lemma_char_at_byte_fits(s, index);
    if let Some(c) = char_at_byte(s, index) {
        vstd::utf8::char_is_scalar(c);
    }
}

/// The match a search for the pattern finds when it tries byte `pos` and
/// moves on as `exec` does: a match is taken where it starts exactly at the
/// position tried (positions inside a character are passed over); a sticky
/// search tries one position only; the search fails past the end of the
/// text.
pub open spec fn search_from(
    pattern: Seq<char>,
    flags: Seq<char>,
    text: Seq<char>,
    pos: int,
    sticky: bool,
    unicode: bool,
) -> Option<((usize, usize), Seq<Option<(usize, usize)>>)>
    decreases (if pos <= encode_utf8(text).len() {
        encode_utf8(text).len() + 1 - pos
    } else {
        0
    }),
{
    let length = encode_utf8(text).len();
    if pos < 0 || pos > length {
        None
    } else {
        let here = if is_char_boundary(encode_utf8(text), pos) {
            regex_find(pattern, flags, text, pos as usize)
        } else {
            None
        };
        let found_start: Option<usize> = match here {
            Some(m) => Some(m.0.0),
            None => None,
        };
        if found_start == Some(pos as usize) {
            here
        } else if sticky {
            None
        } else {
            proof {
                lemma_advance_moves(text, pos, unicode);
            }
            search_from(pattern, flags, text, spec_advance_string_index(text, pos, unicode), sticky, unicode)
        }
    }
}

/// What a run of `exec` on `text` does: the expression is kept but for
/// `last_index`; the search starts at byte 0, or at `last_index` for a
/// global or sticky expression, and its result is the match that
/// [`search_from`] finds, with that range and those captures. A failed
/// global or sticky search resets `last_index` to 0; a match lies in the
/// text, starts no earlier than the search, and moves `last_index` to its
/// end for a global or sticky expression; a plain expression keeps
/// `last_index`.
pub open spec fn exec_outcome(before: RegExp, after: RegExp, text: Seq<char>, r: Option<Match>) -> bool {
    let resumes = before.flags.has(2) || before.flags.has(64);
    let length = encode_utf8(text).len();
    let found = search_from(
        before.source(),
        before.flag_letters(),
        text,
        before.search_start(),
        before.flags.has(64),
        before.flags.has(32),
    );
    &&& after.flags == before.flags
    &&& after.source() == before.source()
    &&& after.flag_letters() == before.flag_letters()
    &&& match r {
        Some(m) => found == Some((range_pair(m.substr), captures_view(m.captures@))),
        None => found is None,
    }
    &&& r is None ==> after.last_index == (if resumes {
        0
    } else {
        before.last_index
    })
    &&& r matches Some(m) ==> {
        &&& before.search_start() <= m.substr.start <= m.substr.end <= length
        &&& before.flags.has(64) ==> m.substr.start == before.last_index
        &&& after.last_index == (if resumes {
            m.substr.end
        } else {
            before.last_index
        })
    }
}

/// Successive matches of a global expression on one text do not overlap
/// and come in order: each starts no earlier than the previous one ends.
pub proof fn lemma_global_matches_advance(
    r0: RegExp,
    r1: RegExp,
    r2: RegExp,
    text: Seq<char>,
    m1: Match,
    m2: Match,
)
    requires
        r0.flags.has(2),
        exec_outcome(r0, r1, text, Some(m1)),
        exec_outcome(r1, r2, text, Some(m2)),
    ensures
        m1.substr.end <= m2.substr.start,
        r2.last_index == m2.substr.end,
{
}

impl RegExp {
    /// The byte index at which a search with these flags begins: the
    /// resume index for a global or sticky expression, else 0.
    pub open spec fn search_start(self) -> int {
        if self.flags.has(2) || self.flags.has(64) {
            self.last_index as int
        } else {
            0
        }
    }

    /// Runs the expression on `text`, as `RegExp.prototype.exec` does: a
    /// global or sticky expression resumes at `last_index` and moves it past
    /// the match, or back to 0 when nothing matches; a sticky expression only
    /// takes a match that starts exactly there; a search that finds a match
    /// starting later moves on by one position and tries again.
    pub fn exec(&mut self, text: &str) -> (r: Option<Match>)
        requires
            encode_utf8(text@).len() < usize::MAX,
        ensures
            exec_outcome(*old(self), *final(self), text@, r),
    {
        let length = text.len();
        let mut last_index = self.last_index;
        let global = self.flags.global();
        let sticky = self.flags.sticky();
        let unicode = self.flags.unicode();

        if !global && !sticky {
            last_index = 0;
        }
        let ghost start = last_index;
        let ghost target = search_from(
            self.source(),
            self.flag_letters(),
            text@,
            start as int,
            sticky,
            unicode,
        );
        let mut found: Option<FoundMatch> = None;
        loop
            invariant_except_break
                found is None,
            invariant
                length == text.len(),
                length == encode_utf8(text@).len(),
                length < usize::MAX,
                self.flags == old(self).flags,
                self.source() == old(self).source(),
                self.flag_letters() == old(self).flag_letters(),
                self.last_index == old(self).last_index,
                global == self.flags.has(2),
                sticky == self.flags.has(64),
                unicode == self.flags.has(32),
                start == old(self).search_start(),
                target == search_from(old(self).source(), old(self).flag_letters(), text@, start as int, sticky, unicode),
                target == search_from(old(self).source(), old(self).flag_letters(), text@, last_index as int, sticky, unicode),
                start <= last_index,
                last_index <= length + 1 || last_index == start,
                sticky ==> last_index == start,
            ensures
                found matches Some(m) && m.range.start == last_index && m.range.start <= m.range.end <= length,
                found matches Some(m) ==> target == Some((range_pair(m.range), captures_view(m.captures@))),
                start <= last_index,
                sticky ==> last_index == start,
                self.flags == old(self).flags,
                self.source() == old(self).source(),
                self.flag_letters() == old(self).flag_letters(),
            decreases (if last_index <= length {
                length + 1 - last_index
            } else {
                0
            }),
        {
            if last_index > length {
                if global || sticky {
                    self.last_index = 0;
                }
                return None;
            }
            let r = if text.is_char_boundary(last_index) {
                find_from(&self.matcher, text, last_index)
            } else {
                None
            };
            let found_start = match &r {
                Some(m) => Some(m.range.start),
                None => None,
            };
            proof {
                lemma_advance_moves(text@, last_index as int, unicode);
            }
            match search_step(sticky, unicode, text, last_index, found_start) {
                SearchStep::Found => {
                    found = r;
                    break ;
                },
                SearchStep::Retry(next) => {
                    last_index = next;
                },
                SearchStep::Fail => {
                    self.last_index = 0;
                    return None;
                },
            }
        }
        let m = match found {
            Some(m) => m,
            None => {
                return None;
            },
        };
        let e = m.range.end;
        if global || sticky {
            self.last_index = e;
        }
        let groups = collect_named_groups(&m.named);
        Some(Match { substr: m.range, captures: m.captures, named_groups: groups })
    }
}

} // verus!
