//! Text primitives: the order in which keys are kept, and equality of text.

use vstd::prelude::*;
use vstd::slice::*;
use vstd::string::*;
use vstd::utf8::*;

verus! {

/// Lexicographic comparison of two byte strings from position `i` on.
pub open spec fn bytes_lt_from(a: Seq<u8>, b: Seq<u8>, i: int) -> bool
    decreases a.len() - i,
{
    if i < 0 || i >= b.len() {
        false
    } else if i >= a.len() {
        true
    } else if a[i] != b[i] {
        a[i] < b[i]
    } else {
        bytes_lt_from(a, b, i + 1)
    }
}

/// `a` comes strictly before `b` in lexicographic byte order.
pub open spec fn bytes_lt(a: Seq<u8>, b: Seq<u8>) -> bool {
    bytes_lt_from(a, b, 0)
}

/// The order of keys: text is ordered by its UTF-8 bytes, lexicographically.
pub open spec fn key_lt(a: Seq<char>, b: Seq<char>) -> bool {
    bytes_lt(encode_utf8(a), encode_utf8(b))
}

/// A sequence of keys in strictly ascending order.
pub open spec fn ascending(keys: Seq<Seq<char>>) -> bool {
    forall|i: int, j: int| 0 <= i < j < keys.len() ==> key_lt(#[trigger] keys[i], #[trigger] keys[j])
}

pub proof fn lemma_bytes_lt_irreflexive(a: Seq<u8>, i: int)
    requires
        0 <= i,
    ensures
        !bytes_lt_from(a, a, i),
    decreases a.len() - i,
{
    if i < a.len() {
        lemma_bytes_lt_irreflexive(a, i + 1);
    }
}

pub proof fn lemma_bytes_lt_transitive(a: Seq<u8>, b: Seq<u8>, c: Seq<u8>, i: int)
    requires
        0 <= i,
        bytes_lt_from(a, b, i),
        bytes_lt_from(b, c, i),
    ensures
        bytes_lt_from(a, c, i),
    decreases a.len() - i,
{
    if i < a.len() && a[i] == b[i] && b[i] == c[i] {
        lemma_bytes_lt_transitive(a, b, c, i + 1);
    }
}

/// Two byte strings that agree before `i` and of which neither comes before
/// the other from `i` on are the same.
pub proof fn lemma_bytes_lt_total(a: Seq<u8>, b: Seq<u8>, i: int)
    requires
        0 <= i <= a.len(),
        i <= b.len(),
        forall|j: int| 0 <= j < i ==> a[j] == b[j],
        !bytes_lt_from(a, b, i),
        !bytes_lt_from(b, a, i),
    ensures
        a == b,
    decreases a.len() - i,
{
    if i < a.len() && i < b.len() {
        lemma_bytes_lt_total(a, b, i + 1);
    } else {
        assert(a =~= b);
    }
}

/// Text is determined by its UTF-8 bytes.
pub proof fn lemma_same_bytes_same_text(a: Seq<char>, b: Seq<char>)
    requires
        encode_utf8(a) == encode_utf8(b),
    ensures
        a == b,
{
    encode_utf8_decode_utf8(a);
    encode_utf8_decode_utf8(b);
}

/// No key comes before itself.
pub proof fn lemma_key_lt_irreflexive(a: Seq<char>)
    ensures
        !key_lt(a, a),
{
    lemma_bytes_lt_irreflexive(encode_utf8(a), 0);
}

/// The order of keys is transitive.
pub proof fn lemma_key_lt_transitive(a: Seq<char>, b: Seq<char>, c: Seq<char>)
    requires
        key_lt(a, b),
        key_lt(b, c),
    ensures
        key_lt(a, c),
{
    lemma_bytes_lt_transitive(encode_utf8(a), encode_utf8(b), encode_utf8(c), 0);
}

/// Of two keys, one comes before the other or they are the same key.
pub proof fn lemma_key_lt_total(a: Seq<char>, b: Seq<char>)
    ensures
        key_lt(a, b) || key_lt(b, a) || a == b,
{
    if !key_lt(a, b) && !key_lt(b, a) {
        lemma_bytes_lt_total(encode_utf8(a), encode_utf8(b), 0);
        lemma_same_bytes_same_text(a, b);
    }
}

/// No two of three: a key cannot both precede and follow another.
pub proof fn lemma_key_lt_asymmetric(a: Seq<char>, b: Seq<char>)
    requires
        key_lt(a, b),
    ensures
        !key_lt(b, a),
        a != b,
{
    lemma_key_lt_irreflexive(a);
    if key_lt(b, a) {
        lemma_key_lt_transitive(a, b, a);
    }
}

/// Where one key stands relative to another.
#[derive(Debug, Clone, Copy, PartialEq, Eq)]
pub enum KeyOrder {
    Before,
    Same,
    After,
}

/// What `key_order` answers for two keys.
pub open spec fn key_order_of(a: Seq<char>, b: Seq<char>) -> KeyOrder {
    if a == b {
        KeyOrder::Same
    } else if key_lt(a, b) {
        KeyOrder::Before
    } else {
        KeyOrder::After
    }
}

/// Compares two keys by their UTF-8 bytes.
pub fn key_order(a: &str, b: &str) -> (r: KeyOrder)
    ensures
        r == key_order_of(a@, b@),
        r == KeyOrder::Before <==> key_lt(a@, b@),
        r == KeyOrder::Same <==> a@ == b@,
        r == KeyOrder::After <==> key_lt(b@, a@),
{
    let x = a.as_bytes();
    let y = b.as_bytes();
    let n: usize = x.len();
    let m: usize = y.len();
    let mut i: usize = 0;
    proof {
        lemma_key_lt_total(a@, b@);
        if key_lt(a@, b@) {
            lemma_key_lt_asymmetric(a@, b@);
        }
        if key_lt(b@, a@) {
            lemma_key_lt_asymmetric(b@, a@);
        }
    }
    while i < n && i < m
        invariant
            i <= n,
            i <= m,
            n == x@.len(),
            m == y@.len(),
            x@ == encode_utf8(a@),
            y@ == encode_utf8(b@),
            forall|j: int| 0 <= j < i ==> x@[j] == y@[j],
            bytes_lt(x@, y@) == bytes_lt_from(x@, y@, i as int),
            bytes_lt(y@, x@) == bytes_lt_from(y@, x@, i as int),
        decreases n - i,
    {
        if x[i] < y[i] {
            return KeyOrder::Before;
        }
        if x[i] > y[i] {
            return KeyOrder::After;
        }
        i = i + 1;
    }
    if i < m {
        KeyOrder::Before
    } else if i < n {
        KeyOrder::After
    } else {
        proof {
            lemma_bytes_lt_total(x@, y@, i as int);
            lemma_same_bytes_same_text(a@, b@);
        }
        KeyOrder::Same
    }
}

/// Whether two pieces of text are the same.
pub fn same_text(a: &str, b: &str) -> (r: bool)
    ensures
        r == (a@ == b@),
{
    let x = a.as_bytes();
    let y = b.as_bytes();
    let n: usize = x.len();
    if n != y.len() {
        return false;
    }
    let mut i: usize = 0;
    while i < n
        invariant
            i <= n,
            n == x@.len(),
            n == y@.len(),
            x@ == encode_utf8(a@),
            y@ == encode_utf8(b@),
            forall|j: int| 0 <= j < i ==> x@[j] == y@[j],
        decreases n - i,
    {
        if x[i] != y[i] {
            return false;
        }
        i = i + 1;
    }
    proof {
        assert(x@ =~= y@);
        lemma_same_bytes_same_text(a@, b@);
    }
    true
}

/// The lines of `s` that remain when the line that began at `start` has been
/// read up to `i`. A line ends at a line feed; a carriage return just before
/// that line feed belongs to the line ending, not to the line. Text after the
/// last line feed is a line of its own unless it is empty.
pub open spec fn lines_scan(s: Seq<char>, start: int, i: int) -> Seq<Seq<char>>
    decreases s.len() - i,
{
    if i < 0 || i >= s.len() {
        if 0 <= start < s.len() {
            seq![s.subrange(start, s.len() as int)]
        } else {
            Seq::empty()
        }
    } else if s[i] == '\n' {
        seq![s.subrange(start, line_stop(s, start, i))] + lines_scan(s, i + 1, i + 1)
    } else {
        lines_scan(s, start, i + 1)
    }
}

/// Where the line that began at `start` stops, given the line feed at `i`:
/// before the carriage return that precedes the line feed, if there is one.
pub open spec fn line_stop(s: Seq<char>, start: int, i: int) -> int {
    if start < i && s[i - 1] == '\r' {
        i - 1
    } else {
        i
    }
}

/// The lines of `s`, without their line endings.
pub open spec fn lines_of(s: Seq<char>) -> Seq<Seq<char>> {
    lines_scan(s, 0, 0)
}

/// The views of a sequence of texts.
pub open spec fn texts(v: Seq<String>) -> Seq<Seq<char>> {
    Seq::new(v.len(), |i: int| v[i]@)
}

/// Splits text into its lines.
pub fn lines(s: &str) -> (r: Vec<String>)
    ensures
        texts(r@) == lines_of(s@),
{
    let mut out: Vec<String> = Vec::new();
    let n: usize = s.unicode_len();
    let mut start: usize = 0;
    let mut i: usize = 0;
    let mut after_cr: bool = false;
    proof {
        assert(texts(out@) =~= Seq::<Seq<char>>::empty());
    }
    for c in it: s.chars()
        invariant
            it.seq() == s@,
            n == s@.len(),
            i == it.index(),
            start <= i <= n,
            after_cr == (start < i && s@[i - 1] == '\r'),
            lines_of(s@) == texts(out@) + lines_scan(s@, start as int, i as int),
    {
        if c == '\n' {
            let stop: usize = if after_cr {
                i - 1
            } else {
                i
            };
            let line = s.substring_char(start, stop).to_owned();
            proof {
                assert(texts(out@.push(line)) =~= texts(out@) + seq![
                    s@.subrange(start as int, stop as int),
                ]);
            }
            out.push(line);
            start = i + 1;
            after_cr = false;
        } else {
            after_cr = c == '\r';
        }
        i = i + 1;
    }
    if start < n {
        let line = s.substring_char(start, n).to_owned();
        proof {
            assert(texts(out@.push(line)) =~= texts(out@) + seq![
                s@.subrange(start as int, n as int),
            ]);
        }
        out.push(line);
    }
    out
}

} // verus!
