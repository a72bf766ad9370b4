//! The version that a configuration declares, and what it means for the
//! running program.

use vstd::prelude::*;

verus! {

/// Why a version could not be read. The first of its three numbers that
/// cannot be read decides.
#[derive(Debug, Clone, Copy, PartialEq, Eq)]
pub enum VersionError {
    /// A number is missing or empty, or the text does not begin with `v`.
    Empty,
    /// A number holds something other than decimal digits after an optional
    /// leading `+`.
    InvalidDigit,
    /// A number is larger than 65535.
    Overflow,
}

/// Whether a character is a decimal digit.
pub open spec fn is_digit(c: char) -> bool {
    '0' <= c && c <= '9'
}

/// The number that a decimal digit stands for.
pub open spec fn digit_value(c: char) -> int {
    c as int - '0' as int
}

/// Reads the digits from position `i` on, with `acc` the number read so far:
/// the number that they denote, or the first thing that is wrong with them.
pub open spec fn scan_digits(digits: Seq<char>, i: int, acc: int) -> Result<u16, VersionError>
    decreases digits.len() - i,
{
    if i < 0 || i >= digits.len() {
        Ok(acc as u16)
    } else if !is_digit(digits[i]) {
        Err(VersionError::InvalidDigit)
    } else if acc * 10 + digit_value(digits[i]) > u16::MAX {
        Err(VersionError::Overflow)
    } else {
        scan_digits(digits, i + 1, acc * 10 + digit_value(digits[i]))
    }
}

/// The number that a piece of text denotes: decimal digits, at least one,
/// after an optional `+`, no larger than 65535.
pub open spec fn number_of(s: Seq<char>) -> Result<u16, VersionError> {
    if s.len() == 0 {
        Err(VersionError::Empty)
    } else if s[0] == '+' {
        if s.len() == 1 {
            Err(VersionError::InvalidDigit)
        } else {
            scan_digits(s, 1, 0)
        }
    } else {
        scan_digits(s, 0, 0)
    }
}

/// The position of the first dot at or after `from`, or the length of the
/// text where there is none.
pub open spec fn piece_end(s: Seq<char>, from: int) -> int
    decreases s.len() - from,
{
    if from < 0 || from >= s.len() {
        s.len() as int
    } else if s[from] == '.' {
        from
    } else {
        piece_end(s, from + 1)
    }
}

/// The piece of text that begins at `from` and ends before the next dot;
/// empty where the text has ended before `from`.
pub open spec fn piece(s: Seq<char>, from: int) -> Seq<char> {
    if 0 <= from <= s.len() {
        s.subrange(from, piece_end(s, from))
    } else {
        Seq::empty()
    }
}

/// A piece ends at the first dot after its beginning, or with the text.
pub proof fn lemma_piece_end_is(s: Seq<char>, from: int, end: int)
    requires
        0 <= from <= end <= s.len(),
        forall|j: int| from <= j < end ==> s[j] != '.',
        end < s.len() ==> s[end] == '.',
    ensures
        piece_end(s, from) == end,
    decreases end - from,
{
    if from < end {
        lemma_piece_end_is(s, from + 1, end);
    }
}

/// The three numbers of a version. What follows the leading `v` is cut at its
/// dots, and the first three pieces are read as major, minor and bugfix
/// number. A missing piece is an empty one, and a text that does not begin
/// with `v` has no pieces at all. Pieces after the third are not looked at.
pub open spec fn version_of(text: Seq<char>) -> Result<(u16, u16, u16), VersionError> {
    if text.len() == 0 || text[0] != 'v' {
        Err(VersionError::Empty)
    } else {
        let minor_at = piece_end(text, 1) + 1;
        let bugfix_at = piece_end(text, minor_at) + 1;
        match number_of(piece(text, 1)) {
            Err(e) => Err(e),
            Ok(major) => match number_of(piece(text, minor_at)) {
                Err(e) => Err(e),
                Ok(minor) => match number_of(piece(text, bugfix_at)) {
                    Err(e) => Err(e),
                    Ok(bugfix) => Ok((major, minor, bugfix)),
                },
            },
        }
    }
}

/// Whether a text holds no dot.
pub open spec fn dotless(s: Seq<char>) -> bool {
    forall|i: int| 0 <= i < s.len() ==> #[trigger] s[i] != '.'
}

/// The text `v`, then three pieces without dots with a dot between them, is
/// read as the numbers of the three pieces; so is such a text with a dot and
/// anything else after it.
pub proof fn lemma_version_of_three_pieces(
    major: Seq<char>,
    minor: Seq<char>,
    bugfix: Seq<char>,
    rest: Seq<char>,
)
    requires
        dotless(major),
        dotless(minor),
        dotless(bugfix),
        rest.len() == 0 || rest[0] == '.',
    ensures
        version_of(seq!['v'] + major + seq!['.'] + minor + seq!['.'] + bugfix + rest) == match (
            number_of(major),
            number_of(minor),
            number_of(bugfix),
        ) {
            (Ok(a), Ok(b), Ok(c)) => Ok((a, b, c)),
            (Ok(_), Ok(_), Err(e)) => Err(e),
            (Ok(_), Err(e), _) => Err(e),
            (Err(e), _, _) => Err(e),
        },
{
    let text = seq!['v'] + major + seq!['.'] + minor + seq!['.'] + bugfix + rest;
    let minor_at: int = major.len() as int + 2;
    let bugfix_at: int = minor_at + minor.len() + 1;
    let bugfix_end: int = bugfix_at + bugfix.len();
    assert(text[0] == 'v');
    assert(text[minor_at - 1] == '.');
    assert(text[bugfix_at - 1] == '.');
    assert forall|j: int| 1 <= j < minor_at - 1 implies text[j] != '.' by {
        assert(text[j] == major[j - 1]);
    }
    assert forall|j: int| minor_at <= j < bugfix_at - 1 implies text[j] != '.' by {
        assert(text[j] == minor[j - minor_at]);
    }
    assert forall|j: int| bugfix_at <= j < bugfix_end implies text[j] != '.' by {
        assert(text[j] == bugfix[j - bugfix_at]);
    }
    if bugfix_end < text.len() {
        assert(text[bugfix_end] == rest[0]);
    }
    lemma_piece_end_is(text, 1, minor_at - 1);
    lemma_piece_end_is(text, minor_at, bugfix_at - 1);
    lemma_piece_end_is(text, bugfix_at, bugfix_end);
    assert(piece(text, 1) =~= major);
    assert(piece(text, minor_at) =~= minor);
    assert(piece(text, bugfix_at) =~= bugfix);
}

/// The number that decimal digits denote.
pub open spec fn decimal(digits: Seq<char>) -> int
    decreases digits.len(),
{
    if digits.len() == 0 {
        0
    } else {
        decimal(digits.drop_last()) * 10 + digit_value(digits.last())
    }
}

/// Whether a text is made of decimal digits only.
pub open spec fn all_digits(s: Seq<char>) -> bool {
    forall|i: int| 0 <= i < s.len() ==> is_digit(#[trigger] s[i])
}

/// The digits of a number: the text without its leading `+`, if it has one.
pub open spec fn unsigned(s: Seq<char>) -> Seq<char> {
    if s.len() > 0 && s[0] == '+' {
        s.drop_first()
    } else {
        s
    }
}

/// The first digits of a number denote no more than all of them.
pub proof fn lemma_decimal_grows(digits: Seq<char>, k: int)
    requires
        all_digits(digits),
        0 <= k <= digits.len(),
    ensures
        0 <= decimal(digits.take(k)) <= decimal(digits),
    decreases digits.len(),
{
    if k == digits.len() {
        assert(digits.take(k) =~= digits);
        if k > 0 {
            assert(is_digit(digits[k - 1]));
            assert(all_digits(digits.drop_last()));
            lemma_decimal_grows(digits.drop_last(), k - 1);
            assert(digits.drop_last().take(k - 1) =~= digits.drop_last());
        }
    } else {
        assert(is_digit(digits[digits.len() - 1]));
        assert(all_digits(digits.drop_last()));
        lemma_decimal_grows(digits.drop_last(), k);
        assert(digits.drop_last().take(k) =~= digits.take(k));
    }
}

/// Reading on from position `i`, with the digits before it read into `acc`,
/// succeeds exactly where the rest are digits too and the whole denotes a
/// number that fits, and gives that number.
proof fn lemma_scan_digits(s: Seq<char>, start: int, i: int, acc: int)
    requires
        0 <= start <= i <= s.len(),
        all_digits(s.subrange(start, i)),
        acc == decimal(s.subrange(start, i)),
        0 <= acc <= u16::MAX,
    ensures
        scan_digits(s, i, acc) is Ok <==> all_digits(s.subrange(start, s.len() as int)) && decimal(
            s.subrange(start, s.len() as int),
        ) <= u16::MAX,
        scan_digits(s, i, acc) is Ok ==> scan_digits(s, i, acc)->Ok_0 == decimal(
            s.subrange(start, s.len() as int),
        ),
        scan_digits(s, i, acc) != Err::<u16, VersionError>(VersionError::Empty),
    decreases s.len() - i,
{
    let whole = s.subrange(start, s.len() as int);
    if i >= s.len() {
        assert(s.subrange(start, i) =~= whole);
    } else if !is_digit(s[i]) {
        assert(whole[i - start] == s[i]);
    } else {
        let longer = s.subrange(start, i + 1);
        assert(longer.drop_last() =~= s.subrange(start, i));
        assert(longer.last() == s[i]);
        assert(all_digits(longer)) by {
            assert forall|j: int| 0 <= j < longer.len() implies is_digit(#[trigger] longer[j]) by {
                if j < i - start {
                    assert(longer[j] == s.subrange(start, i)[j]);
                }
            }
        }
        if acc * 10 + digit_value(s[i]) > u16::MAX {
            if all_digits(whole) {
                lemma_decimal_grows(whole, i + 1 - start);
                assert(whole.take(i + 1 - start) =~= longer);
            }
        } else {
            lemma_scan_digits(s, start, i + 1, acc * 10 + digit_value(s[i]));
        }
    }
}

/// A text denotes a number exactly where, after an optional leading `+`, it
/// is made of at least one decimal digit and of decimal digits only, and they
/// denote no more than 65535; the number is the one that they denote. Only an
/// empty text is reported as empty.
pub proof fn lemma_number_of(s: Seq<char>)
    ensures
        number_of(s) is Ok <==> unsigned(s).len() > 0 && all_digits(unsigned(s)) && decimal(
            unsigned(s),
        ) <= u16::MAX,
        number_of(s) is Ok ==> number_of(s)->Ok_0 == decimal(unsigned(s)),
        number_of(s) == Err::<u16, VersionError>(VersionError::Empty) <==> s.len() == 0,
{
    if s.len() == 0 {
    } else if s[0] == '+' {
        if s.len() > 1 {
            assert(s.subrange(1, 1) =~= Seq::<char>::empty());
            assert(s.subrange(1, s.len() as int) =~= s.drop_first());
            lemma_scan_digits(s, 1, 1, 0);
        }
    } else {
        assert(s.subrange(0, 0) =~= Seq::<char>::empty());
        assert(s.subrange(0, s.len() as int) =~= s);
        lemma_scan_digits(s, 0, 0, 0);
    }
}

/// Whether the running program can use a configuration of the given version.
pub open spec fn compatible(version: (u16, u16, u16)) -> bool {
    version.0 == 0 && version.1 == 5 && version.2 <= 4
}

/// What the user is told about a configuration of the given version, if
/// anything.
pub open spec fn notice_of(version: (u16, u16, u16)) -> Option<Seq<char>> {
    if version == (0u16, 5u16, 5u16) {
        None
    } else if version == (0u16, 5u16, 4u16) {
        Some("App version updated. Significant reduction in CPU usage"@)
    } else if version == (0u16, 5u16, 3u16) {
        Some("App version updated. Fixed exit on permission denied"@)
    } else if version == (0u16, 5u16, 2u16) {
        Some("App version updated. Now pwd is synced with your terminal session"@)
    } else if version == (0u16, 5u16, 1u16) {
        Some("App version updated. Now follow symlinks using 'gf'"@)
    } else {
        Some(
            "App version updated. New: added sort and filter support and some hacks: https://github.com/sayanarijit/xplr/wiki/Hacks"@,
        )
    }
}

/// The characters of a text.
fn chars_of(s: &str) -> (r: Vec<char>)
    ensures
        r@ == s@,
{
    let mut out: Vec<char> = Vec::new();
    for c in it: s.chars()
        invariant
            it.seq() == s@,
            out@ == s@.take(it.index() as int),
    {
        proof {
            assert(s@.take(it.index() + 1) =~= s@.take(it.index() as int).push(c));
        }
        out.push(c);
    }
    proof {
        assert(s@.take(s@.len() as int) =~= s@);
    }
    out
}

/// Reads the number that the characters from `from` up to `to` denote.
fn parse_number(text: &Vec<char>, from: usize, to: usize) -> (r: Result<u16, VersionError>)
    requires
        from <= to <= text@.len(),
    ensures
        r == number_of(text@.subrange(from as int, to as int)),
{
    let ghost s = text@.subrange(from as int, to as int);
    if from == to {
        return Err(VersionError::Empty);
    }
    let mut i: usize = from;
    if text[from] == '+' {
        if to - from == 1 {
            return Err(VersionError::InvalidDigit);
        }
        i = from + 1;
    }
    let mut acc: u32 = 0;
    while i < to
        invariant
            from <= i <= to,
            to <= text@.len(),
            s == text@.subrange(from as int, to as int),
            acc <= u16::MAX,
            number_of(s) == scan_digits(s, i - from, acc as int),
        decreases to - i,
    {
        let c = text[i];
        assert(c == s[i - from]);
        if !(c >= '0' && c <= '9') {
            return Err(VersionError::InvalidDigit);
        }
        let d: u32 = c as u32 - '0' as u32;
        let next: u32 = acc * 10 + d;
        if next > 65535 {
            return Err(VersionError::Overflow);
        }
        acc = next;
        i = i + 1;
    }
    Ok(acc as u16)
}

/// The end of the piece that begins at `from`.
fn find_piece_end(text: &Vec<char>, from: usize) -> (r: usize)
    requires
        from <= text@.len(),
    ensures
        r == piece_end(text@, from as int),
        from <= r <= text@.len(),
{
    let n: usize = text.len();
    let mut i: usize = from;
    while i < n && text[i] != '.'
        invariant
            from <= i <= n,
            n == text@.len(),
            piece_end(text@, from as int) == piece_end(text@, i as int),
        decreases n - i,
    {
        i = i + 1;
    }
    i
}

/// Reads the number of the piece that begins at `from`, and says where the
/// next piece begins, if the text goes on. Without a beginning the piece is
/// missing.
fn parse_piece(text: &Vec<char>, from: Option<usize>) -> (r: (
    Result<u16, VersionError>,
    Option<usize>,
))
    requires
        from is Some ==> from->0 <= text@.len(),
    ensures
        r.0 == number_of(piece(text@, start_of(text@, from))),
        start_of(text@, r.1) == piece_end(text@, start_of(text@, from)) + 1,
        r.1 is Some ==> r.1->0 <= text@.len(),
{
    match from {
        None => (Err(VersionError::Empty), None),
        Some(from) => {
            let end = find_piece_end(text, from);
            let next = if end < text.len() {
                Some(end + 1)
            } else {
                None
            };
            (parse_number(text, from, end), next)
        },
    }
}

/// The position at which a piece begins: past the end of the text where the
/// piece is missing.
pub open spec fn start_of(s: Seq<char>, from: Option<usize>) -> int {
    match from {
        Some(from) => from as int,
        None => s.len() as int + 1,
    }
}

/// Reads the three numbers of a version.
pub fn parse_version(text: &str) -> (r: Result<(u16, u16, u16), VersionError>)
    ensures
        r == version_of(text@),
{
    let chars = chars_of(text);
    let n: usize = chars.len();
    if n == 0 || chars[0] != 'v' {
        return Err(VersionError::Empty);
    }
    let (major, minor_at) = parse_piece(&chars, Some(1));
    let (minor, bugfix_at) = parse_piece(&chars, minor_at);
    let (bugfix, _) = parse_piece(&chars, bugfix_at);
    match major {
        Err(e) => Err(e),
        Ok(major) => match minor {
            Err(e) => Err(e),
            Ok(minor) => match bugfix {
                Err(e) => Err(e),
                Ok(bugfix) => Ok((major, minor, bugfix)),
            },
        },
    }
}

/// The versions that the running program can use are 0.5.0 to 0.5.4, and no
/// others.
pub proof fn lemma_compatible_versions(version: (u16, u16, u16))
    ensures
        compatible(version) <==> (version == (0u16, 5u16, 0u16) || version == (0u16, 5u16, 1u16)
            || version == (0u16, 5u16, 2u16) || version == (0u16, 5u16, 3u16) || version == (
            0u16,
            5u16,
            4u16,
        )),
{
}

/// Version 0.5.5 is the only one of which the user is told nothing, and what
/// the user is told of any other is not empty.
pub proof fn lemma_only_the_newest_is_silent(version: (u16, u16, u16))
    ensures
        notice_of(version) is None <==> version == (0u16, 5u16, 5u16),
        notice_of(version) is Some ==> notice_of(version)->0.len() > 0,
{
    lemma_notices_differ();
}

/// The notices of the versions 0.5.1 to 0.5.4 and the notice of the other
/// versions are five different texts, none of them empty.
pub proof fn lemma_notices_differ()
    ensures
        notice_of((0, 5, 1)) is Some,
        notice_of((0, 5, 2)) is Some,
        notice_of((0, 5, 3)) is Some,
        notice_of((0, 5, 4)) is Some,
        notice_of((0, 6, 0)) is Some,
        notice_of((0, 5, 1))->0.len() > 0,
        notice_of((0, 5, 2))->0.len() > 0,
        notice_of((0, 5, 3))->0.len() > 0,
        notice_of((0, 5, 4))->0.len() > 0,
        notice_of((0, 6, 0))->0.len() > 0,
        notice_of((0, 5, 1)) != notice_of((0, 5, 2)),
        notice_of((0, 5, 1)) != notice_of((0, 5, 3)),
        notice_of((0, 5, 1)) != notice_of((0, 5, 4)),
        notice_of((0, 5, 1)) != notice_of((0, 6, 0)),
        notice_of((0, 5, 2)) != notice_of((0, 5, 3)),
        notice_of((0, 5, 2)) != notice_of((0, 5, 4)),
        notice_of((0, 5, 2)) != notice_of((0, 6, 0)),
        notice_of((0, 5, 3)) != notice_of((0, 5, 4)),
        notice_of((0, 5, 3)) != notice_of((0, 6, 0)),
        notice_of((0, 5, 4)) != notice_of((0, 6, 0)),
{
    reveal_strlit("App version updated. Significant reduction in CPU usage");
    assert("App version updated. Significant reduction in CPU usage"@.len() == 55);
    reveal_strlit("App version updated. Fixed exit on permission denied");
    assert("App version updated. Fixed exit on permission denied"@.len() == 52);
    reveal_strlit("App version updated. Now pwd is synced with your terminal session");
    assert("App version updated. Now pwd is synced with your terminal session"@.len() == 65);
    reveal_strlit("App version updated. Now follow symlinks using 'gf'");
    assert("App version updated. Now follow symlinks using 'gf'"@.len() == 51);
    reveal_strlit("App version updated. New: added sort and filter support and some hacks: https://github.com/sayanarijit/xplr/wiki/Hacks");
    assert("App version updated. New: added sort and filter support and some hacks: https://github.com/sayanarijit/xplr/wiki/Hacks"@.len() == 118);
}

} // verus!
