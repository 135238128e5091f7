//! Positions in text: lines, columns, byte windows and byte differences.
use vstd::arithmetic::div_mod::{
    lemma_mod_multiples_vanish, lemma_mul_mod_noop_left, lemma_small_mod,
};
use vstd::prelude::*;
use vstd::utf8::*;

use crate::strings::{chars_of, text_of};

verus! {

/// How many characters of a mismatching text a rejection quotes.
pub const MAX_MISMATCH_SNIPPET_CHARS: usize = 40;

/// A place in a text: the line and the byte offset in that line, both from 0.
#[derive(Clone, Copy, Debug, PartialEq, Eq, Structural)]
pub struct Point {
    pub row: usize,
    pub column: usize,
}

/// One replaced stretch of bytes that leads from an old text to a new one.
#[derive(Clone, Copy, Debug, PartialEq, Eq, Structural)]
pub struct InputEdit {
    pub start_byte: usize,
    pub old_end_byte: usize,
    pub new_end_byte: usize,
    pub start_position: Point,
    pub old_end_position: Point,
    pub new_end_position: Point,
}

/// Number of line feeds among the first `n` characters of `s`.
pub open spec fn newlines_before(s: Seq<char>, n: int) -> nat
    decreases n,
{
    if n <= 0 {
        0
    } else {
        newlines_before(s, n - 1) + if n <= s.len() && s[n - 1] == '\n' {
            1nat
        } else {
            0nat
        }
    }
}

/// Index of the first character of the line that holds position `n`.
pub open spec fn line_head(s: Seq<char>, n: int) -> int
    decreases n,
{
    if n <= 0 {
        0
    } else if s[n - 1] == '\n' {
        n
    } else {
        line_head(s, n - 1)
    }
}

/// `n`, or the length of `s` if `n` lies beyond it.
pub open spec fn clamped(s: Seq<char>, n: int) -> int {
    if n <= s.len() {
        n
    } else {
        s.len() as int
    }
}

/// The number of line feeds grows with the characters, and not beyond the end.
pub proof fn newlines_step(s: Seq<char>, a: int, b: int)
    requires
        a <= b,
    ensures
        newlines_before(s, a) <= newlines_before(s, b),
        a >= s.len() ==> newlines_before(s, a) == newlines_before(s, b),
    decreases b - a,
{
    if a < b {
        newlines_step(s, a, b - 1);
    }
}

/// The line of a character position, counted from 0. A position behind the end is on the last
/// line.
pub fn line_of_char(text: &str, char_idx: usize) -> (r: u32)
    requires
        newlines_before(text@, char_idx as int) <= u32::MAX,
    ensures
        r == newlines_before(text@, char_idx as int),
        r == newlines_before(text@, clamped(text@, char_idx as int)),
{
    let cs = chars_of(text);
    let end: usize = if char_idx < cs.len() {
        char_idx
    } else {
        cs.len()
    };
    let mut line: u32 = 0;
    let mut i: usize = 0;
    proof {
        newlines_step(text@, end as int, char_idx as int);
    }
    while i < end
        invariant
            i <= end <= cs.len(),
            cs@ == text@,
            line == newlines_before(text@, i as int),
            newlines_before(text@, end as int) <= u32::MAX,
        decreases end - i,
    {
        proof {
            newlines_step(text@, i as int + 1, end as int);
        }
        if cs[i] == '\n' {
            line = line + 1;
        }
        i = i + 1;
    }
    line
}

/// The column of a character position in its line, counted from 1. A position behind the end is
/// taken as the end.
pub fn col_of_char(text: &str, char_idx: usize) -> (r: u32)
    requires
        text@.len() < usize::MAX,
    ensures
        ({
            let n = clamped(text@, char_idx as int);
            r == (n - line_head(text@, n) + 1) as u32
        }),
{
    let cs = chars_of(text);
    let end: usize = if char_idx < cs.len() {
        char_idx
    } else {
        cs.len()
    };
    let mut line_start: usize = 0;
    let mut i: usize = 0;
    while i < end
        invariant
            i <= end <= cs.len(),
            cs@ == text@,
            line_start <= i,
            line_start == line_head(text@, i as int),
        decreases end - i,
    {
        if cs[i] == '\n' {
            line_start = i + 1;
        }
        i = i + 1;
    }
    let column: usize = end - line_start + 1;
    #[verifier::truncate]
    (column as u32)
}

/// The place where `k` more lines have begun, reading `b` from `at`; the end of `b` if it has
/// fewer.
pub open spec fn line_from(b: Seq<u8>, at: int, k: int) -> int
    decreases b.len() - at,
{
    if k <= 0 {
        at
    } else if at >= b.len() {
        b.len() as int
    } else if b[at] == 10 {
        line_from(b, at + 1, k - 1)
    } else {
        line_from(b, at + 1, k)
    }
}

/// The first byte of line `k` of `b`, or its length if there is no such line.
pub open spec fn line_byte(b: Seq<u8>, k: int) -> int {
    line_from(b, 0, k)
}

proof fn line_from_bounds(b: Seq<u8>, at: int, k: int)
    requires
        0 <= at <= b.len(),
    ensures
        at <= line_from(b, at, k) <= b.len(),
    decreases b.len() - at,
{
    if k > 0 && at < b.len() {
        line_from_bounds(b, at + 1, if b[at] == 10 { k - 1 } else { k });
    }
}

proof fn line_from_compose(b: Seq<u8>, at: int, j: int, k: int)
    requires
        0 <= at <= b.len(),
        j >= 0,
        k >= 0,
    ensures
        line_from(b, line_from(b, at, j), k) == line_from(b, at, j + k),
    decreases b.len() - at,
{
    if j > 0 && at < b.len() {
        line_from_compose(b, at + 1, if b[at] == 10 { j - 1 } else { j }, k);
    }
}

/// Steps over `lines` line feeds of `b`, beginning at `from`.
fn skip_lines(b: &[u8], from: usize, lines: usize) -> (r: usize)
    requires
        from <= b@.len(),
    ensures
        r == line_from(b@, from as int, lines as int),
        from <= r <= b@.len(),
{
    let mut at: usize = from;
    let mut left: usize = lines;
    proof {
        line_from_bounds(b@, from as int, lines as int);
    }
    while left > 0 && at < b.len()
        invariant
            from <= at <= b@.len(),
            line_from(b@, at as int, left as int) == line_from(b@, from as int, lines as int),
        decreases b@.len() - at,
    {
        if b[at] == 10 {
            left = left - 1;
        }
        at = at + 1;
    }
    at
}

/// The byte range of the lines `first_line..first_line + height`. A window of no height is empty;
/// lines that the text lacks are empty and lie at its end.
pub fn visible_window_range(text: &str, first_line: usize, height: usize) -> (r: std::ops::Range<
    usize,
>)
    ensures
        r.start == line_byte(encode_utf8(text@), first_line as int),
        r.end == line_byte(encode_utf8(text@), first_line + height),
        r.start <= r.end <= encode_utf8(text@).len(),
{
    let b = text.as_bytes();
    let start: usize = skip_lines(b, 0, first_line);
    proof {
        line_from_compose(b@, 0, first_line as int, height as int);
    }
    let end: usize = skip_lines(b, start, height);
    start..end
}

/// Number of line feeds among the first `n` bytes of `b`.
pub open spec fn rows_before(b: Seq<u8>, n: int) -> nat
    decreases n,
{
    if n <= 0 {
        0
    } else {
        rows_before(b, n - 1) + if b[n - 1] == 10 {
            1nat
        } else {
            0nat
        }
    }
}

/// The first byte of the line that holds byte position `n`.
pub open spec fn row_head(b: Seq<u8>, n: int) -> int
    decreases n,
{
    if n <= 0 {
        0
    } else if b[n - 1] == 10 {
        n
    } else {
        row_head(b, n - 1)
    }
}

/// Whether `p` is the place of byte `n` of `b`.
pub open spec fn is_point(b: Seq<u8>, n: int, p: Point) -> bool {
    p.row == rows_before(b, n) && p.column == n - row_head(b, n)
}

/// The place of a byte of a text.
pub fn byte_point(text: &str, byte: usize) -> (r: Point)
    requires
        byte <= encode_utf8(text@).len(),
    ensures
        is_point(encode_utf8(text@), byte as int, r),
{
    let b = text.as_bytes();
    let mut row: usize = 0;
    let mut head: usize = 0;
    let mut i: usize = 0;
    while i < byte
        invariant
            i <= byte <= b@.len(),
            b@ == encode_utf8(text@),
            row <= i,
            head <= i,
            row == rows_before(b@, i as int),
            head == row_head(b@, i as int),
        decreases byte - i,
    {
        if b[i] == 10 {
            row = row + 1;
            head = i + 1;
        }
        i = i + 1;
    }
    Point { row, column: byte - head }
}

/// Whether `s..o` of `old` and `s..n` of `new` are all in which the two differ: what the two share in
/// front is left in front, what they share at the back of the rest is left at the back.
pub open spec fn is_change(old: Seq<char>, new: Seq<char>, s: int, o: int, n: int) -> bool {
    &&& 0 <= s <= o <= old.len()
    &&& s <= n <= new.len()
    &&& old.len() - o == new.len() - n
    &&& old.take(s) == new.take(s)
    &&& old.skip(o) == new.skip(n)
    &&& s == old.len() || s == new.len() || old[s] != new[s]
    &&& o == s || n == s || old[o - 1] != new[n - 1]
}

/// The byte at which character `n` of a text begins.
pub open spec fn byte_of(text: Seq<char>, n: int) -> int {
    encode_utf8(text.take(n)).len() as int
}

/// Whether `e` is the shortest single replacement of characters that leads from `old` to `new`,
/// counted in bytes.
pub open spec fn is_diff(old: Seq<char>, new: Seq<char>, e: InputEdit) -> bool {
    let (a, b) = (encode_utf8(old), encode_utf8(new));
    &&& exists|s: int, o: int, n: int|
        {
            &&& #[trigger] is_change(old, new, s, o, n)
            &&& e.start_byte == byte_of(old, s)
            &&& e.old_end_byte == byte_of(old, o)
            &&& e.new_end_byte == byte_of(new, n)
        }
    &&& is_char_boundary(a, e.start_byte as int)
    &&& is_char_boundary(a, e.old_end_byte as int)
    &&& is_char_boundary(b, e.new_end_byte as int)
    &&& is_point(a, e.start_byte as int, e.start_position)
    &&& is_point(a, e.old_end_byte as int, e.old_end_position)
    &&& is_point(b, e.new_end_byte as int, e.new_end_position)
}

/// The bytes of a text are those before a character and those from it on.
pub proof fn bytes_split(text: Seq<char>, n: int)
    requires
        0 <= n <= text.len(),
    ensures
        encode_utf8(text) == encode_utf8(text.take(n)) + encode_utf8(text.skip(n)),
        is_char_boundary(encode_utf8(text), byte_of(text, n)),
        0 <= byte_of(text, n) <= encode_utf8(text).len(),
    decreases n,
{
    let bytes = encode_utf8(text);
    encode_utf8_valid_utf8(text);
    if n == 0 {
        assert(text.skip(0) =~= text);
    } else {
        let rest = text.drop_first();
        bytes_split(rest, n - 1);
        assert(rest.skip(n - 1) =~= text.skip(n));
        assert(text.take(n).drop_first() =~= rest.take(n - 1));
        assert(bytes =~= encode_utf8(text.take(n)) + encode_utf8(text.skip(n)));
        encode_utf8_first_scalar(text);
        assert(pop_first_scalar(bytes) =~= encode_utf8(rest));
        assert(byte_of(text, n) == encode_scalar(text[0] as u32).len() + byte_of(rest, n - 1));
        assert(encode_scalar(text[0] as u32).len() > 0);
    }
}

/// The number of bytes in front of a character.
fn bytes_before(chars: &Vec<char>, n: usize) -> (r: usize)
    requires
        n <= chars@.len(),
    ensures
        r == byte_of(chars@, n as int),
{
    let front = text_of(chars, 0, n);
    assert(front@ =~= chars@.take(n as int));
    front.as_str().as_bytes().len()
}

/// The replacement that leads from an old text to a new one, cut between characters.
pub fn input_edit_from_diff(old: &str, new: &str) -> (r: InputEdit)
    ensures
        is_diff(old@, new@, r),
{
    let a = chars_of(old);
    let b = chars_of(new);
    let mut prefix: usize = 0;
    while prefix < a.len() && prefix < b.len() && a[prefix] == b[prefix]
        invariant
            prefix <= a@.len(),
            prefix <= b@.len(),
            forall|j: int| 0 <= j < prefix ==> a@[j] == b@[j],
        decreases a@.len() - prefix,
    {
        prefix = prefix + 1;
    }
    let mut old_end: usize = a.len();
    let mut new_end: usize = b.len();
    while prefix < old_end && prefix < new_end && a[old_end - 1] == b[new_end - 1]
        invariant
            prefix <= old_end <= a@.len(),
            prefix <= new_end <= b@.len(),
            a@.len() - old_end == b@.len() - new_end,
            forall|j: int|
                0 <= j < a@.len() - old_end ==> #[trigger] a@.skip(old_end as int)[j] == b@.skip(
                    new_end as int,
                )[j],
        decreases old_end,
    {
        proof {
            let x = a@.skip(old_end as int);
            let y = b@.skip(new_end as int);
            let x2 = a@.skip(old_end - 1);
            let y2 = b@.skip(new_end - 1);
            assert forall|j: int| 0 <= j < a@.len() - (old_end - 1) implies x2[j] == y2[j] by {
                if j > 0 {
                    assert(x2[j] == x[j - 1]);
                    assert(y2[j] == y[j - 1]);
                }
            }
        }
        old_end = old_end - 1;
        new_end = new_end - 1;
    }
    proof {
        assert(a@.take(prefix as int) =~= b@.take(prefix as int));
        assert(a@.skip(old_end as int) =~= b@.skip(new_end as int));
        assert(is_change(old@, new@, prefix as int, old_end as int, new_end as int));
        bytes_split(old@, prefix as int);
        bytes_split(old@, old_end as int);
        bytes_split(new@, new_end as int);
    }
    let start_byte = bytes_before(&a, prefix);
    let old_end_byte = bytes_before(&a, old_end);
    let new_end_byte = bytes_before(&b, new_end);
    InputEdit {
        start_byte,
        old_end_byte,
        new_end_byte,
        start_position: byte_point(old, start_byte),
        old_end_position: byte_point(old, old_end_byte),
        new_end_position: byte_point(new, new_end_byte),
    }
}

/// No replacement of one stretch is shorter: whatever two texts share at the front and behind it at the
/// back, the difference names no more characters of either than lie between.
pub proof fn diff_is_as_short_as_can_be(
    old: Seq<char>,
    new: Seq<char>,
    e: InputEdit,
    p: int,
    q: int,
)
    requires
        is_diff(old, new, e),
        0 <= p,
        0 <= q,
        p + q <= old.len(),
        p + q <= new.len(),
        old.take(p) == new.take(p),
        old.skip(old.len() - q) == new.skip(new.len() - q),
    ensures
        exists|s: int, o: int, n: int|
            0 <= s <= o <= old.len() && s <= n <= new.len() && e.start_byte == #[trigger] byte_of(
                old,
                s,
            ) && e.old_end_byte == #[trigger] byte_of(old, o) && e.new_end_byte
                == #[trigger] byte_of(new, n) && o - s <= old.len() - p - q && n - s <= new.len() - p
                - q,
{
    let (s, o, n) = choose|s: int, o: int, n: int|
        {
            &&& #[trigger] is_change(old, new, s, o, n)
            &&& e.start_byte == byte_of(old, s)
            &&& e.old_end_byte == byte_of(old, o)
            &&& e.new_end_byte == byte_of(new, n)
        };
    if s < p {
        assert(old.take(p)[s] == old[s]);
        assert(new.take(p)[s] == new[s]);
    }
    let back = old.len() - o;
    if back < q && o > s && n > s {
        let k = q - back - 1;
        assert(old.skip(old.len() - q)[k] == old[o - 1]);
        assert(new.skip(new.len() - q)[k] == new[n - 1]);
    }
    assert(s >= p);
    assert(back >= q || o == s || n == s);
    assert(s + back >= p + q);
    assert(e.start_byte == byte_of(old, s) && e.old_end_byte == byte_of(old, o) && e.new_end_byte
        == byte_of(new, n));
}

/// Replacing the stretch of bytes that the difference names in the old text by the stretch it names
/// in the new text gives the new text.
pub proof fn diff_leads_to_new(old: Seq<char>, new: Seq<char>, e: InputEdit)
    requires
        is_diff(old, new, e),
    ensures
        e.start_byte <= e.old_end_byte <= encode_utf8(old).len(),
        e.start_byte <= e.new_end_byte <= encode_utf8(new).len(),
        encode_utf8(old).take(e.start_byte as int) + encode_utf8(new).subrange(
            e.start_byte as int,
            e.new_end_byte as int,
        ) + encode_utf8(old).skip(e.old_end_byte as int) == encode_utf8(new),
{
    let (a, b) = (encode_utf8(old), encode_utf8(new));
    let (s, o, n) = choose|s: int, o: int, n: int|
        {
            &&& #[trigger] is_change(old, new, s, o, n)
            &&& e.start_byte == byte_of(old, s)
            &&& e.old_end_byte == byte_of(old, o)
            &&& e.new_end_byte == byte_of(new, n)
        };
    bytes_split(old, s);
    bytes_split(old, o);
    bytes_split(new, s);
    bytes_split(new, n);
    bytes_split(old.take(o), s);
    bytes_split(new.take(n), s);
    assert(old.take(o).take(s) =~= old.take(s));
    assert(new.take(n).take(s) =~= new.take(s));
    assert(a.take(e.start_byte as int) =~= encode_utf8(old.take(s)));
    assert(b.take(e.start_byte as int) =~= encode_utf8(new.take(s)));
    assert(a.skip(e.old_end_byte as int) =~= encode_utf8(old.skip(o)));
    assert(b.skip(e.new_end_byte as int) =~= encode_utf8(new.skip(n)));
    assert(b.take(e.start_byte as int) + b.subrange(e.start_byte as int, e.new_end_byte as int)
        + b.skip(e.new_end_byte as int) =~= b);
}

/// A text that did not change has an empty difference at its end.
pub proof fn diff_of_same_is_empty(text: Seq<char>, e: InputEdit)
    requires
        is_diff(text, text, e),
    ensures
        e.start_byte == encode_utf8(text).len(),
        e.old_end_byte == e.start_byte,
        e.new_end_byte == e.start_byte,
{
    assert(text.take(text.len() as int) =~= text);
}

/// What a rejection quotes of a text: all of it, or its beginning and an ellipsis.
pub open spec fn snippet(s: Seq<char>) -> Seq<char> {
    if s.len() > MAX_MISMATCH_SNIPPET_CHARS {
        s.take(MAX_MISMATCH_SNIPPET_CHARS as int).push('…')
    } else {
        s
    }
}

/// Shortens a text for a rejection message.
pub fn mismatch_snippet(s: &str) -> (r: String)
    ensures
        r@ == snippet(s@),
{
    let cs = chars_of(s);
    if cs.len() > MAX_MISMATCH_SNIPPET_CHARS {
        let mut out = text_of(&cs, 0, MAX_MISMATCH_SNIPPET_CHARS);
        assert(out@ =~= s@.take(MAX_MISMATCH_SNIPPET_CHARS as int));
        out.push('…');
        out
    } else {
        let out = text_of(&cs, 0, cs.len());
        assert(out@ =~= s@);
        out
    }
}

/// Start value of the 64-bit FNV-1a hash.
pub const FNV_OFFSET: u64 = 0xcbf2_9ce4_8422_2325;

/// Multiplier of the 64-bit FNV-1a hash.
pub const FNV_PRIME: u64 = 0x0000_0100_0000_01b3;

/// The 64-bit FNV-1a hash: each byte in turn is mixed in by exclusive or and the result is
/// multiplied by the prime, modulo 2 to the 64.
pub open spec fn fnv(bytes: Seq<u8>) -> u64
    decreases bytes.len(),
{
    if bytes.len() == 0 {
        FNV_OFFSET
    } else {
        (fnv(bytes.drop_last()) ^ (bytes.last() as u64)).wrapping_mul(FNV_PRIME)
    }
}

/// The checksum by which clients name the text that they have read.
pub open spec fn checksum(text: Seq<char>) -> u64 {
    fnv(encode_utf8(text))
}

/// Computes the 64-bit FNV-1a hash.
pub fn fnv1a64(bytes: &[u8]) -> (r: u64)
    ensures
        r == fnv(bytes@),
{
    let mut h: u64 = FNV_OFFSET;
    let mut i: usize = 0;
    while i < bytes.len()
        invariant
            i <= bytes@.len(),
            h == fnv(bytes@.take(i as int)),
        decreases bytes@.len() - i,
    {
        assert(bytes@.take(i as int + 1).drop_last() =~= bytes@.take(i as int));
        h = (h ^ (bytes[i] as u64)).wrapping_mul(FNV_PRIME);
        i = i + 1;
    }
    assert(bytes@.take(bytes@.len() as int) =~= bytes@);
    h
}

/// Bytes that differ in one place have different hashes.
pub proof fn one_changed_byte_changes_the_hash(a: Seq<u8>, b: Seq<u8>, i: int)
    requires
        a.len() == b.len(),
        0 <= i < a.len(),
        a[i] != b[i],
        forall|j: int| 0 <= j < a.len() && j != i ==> a[j] == b[j],
    ensures
        fnv(a) != fnv(b),
    decreases a.len(),
{
    let (s, t) = (a.drop_last(), b.drop_last());
    if i == a.len() - 1 {
        assert(s =~= t);
    } else {
        one_changed_byte_changes_the_hash(s, t, i);
        assert(a[a.len() - 1] == b[b.len() - 1]);
    }
    if fnv(a) == fnv(b) {
        mixing_loses_nothing(fnv(s), fnv(t), a.last(), b.last());
    }
}

/// The multiplier has an inverse modulo 2 to the 64, so a step of the hash can be undone.
proof fn mixing_loses_nothing(s: u64, t: u64, x: u8, y: u8)
    requires
        (s ^ (x as u64)).wrapping_mul(FNV_PRIME) == (t ^ (y as u64)).wrapping_mul(FNV_PRIME),
    ensures
        x == y ==> s == t,
        s == t ==> x == y,
{
    let (u, v) = (s ^ (x as u64), t ^ (y as u64));
    undone(u as int);
    undone(v as int);
    if x == y {
        assert(s == t) by (bit_vector)
            requires
                s ^ (x as u64) == t ^ (x as u64),
        ;
    }
    if s == t {
        assert(x == y) by (bit_vector)
            requires
                s ^ (x as u64) == s ^ (y as u64),
        ;
    }
}

proof fn undone(u: int)
    requires
        0 <= u <= u64::MAX,
    ensures
        (((u * FNV_PRIME as int) % 0x1_0000_0000_0000_0000) * 0xce96_5057_aff6_957b)
            % 0x1_0000_0000_0000_0000 == u,
{
    let (p, q, m) = (FNV_PRIME as int, 0xce96_5057_aff6_957bint, 0x1_0000_0000_0000_0000int);
    lemma_mul_mod_noop_left(u * p, q, m);
    assert(p * q == 887285111055 * m + 1);
    assert((u * p) * q == u * (p * q)) by (nonlinear_arith);
    assert(u * (887285111055 * m + 1) == m * (887285111055 * u) + u) by (nonlinear_arith);
    lemma_mod_multiples_vanish(887285111055 * u, u, m);
    lemma_small_mod(u as nat, m as nat);
}

/// Index of the first line feed of `s` from `i` on, or its length.
pub open spec fn line_break(s: Seq<char>, i: int) -> int
    decreases s.len() - i,
{
    if i >= s.len() {
        s.len() as int
    } else if s[i] == '\n' {
        i
    } else {
        line_break(s, i + 1)
    }
}

/// The first character of the line that holds a position.
pub fn line_start_of(chars: &Vec<char>, at: usize) -> (r: usize)
    ensures
        r == line_head(chars@, clamped(chars@, at as int)),
        r <= at,
{
    let mut i: usize = if at < chars.len() {
        at
    } else {
        chars.len()
    };
    let ghost end = i;
    while i > 0 && chars[i - 1] != '\n'
        invariant
            i <= end <= chars@.len(),
            line_head(chars@, i as int) == line_head(chars@, end as int),
        decreases i,
    {
        i = i - 1;
    }
    i
}

/// The end of the line that holds a position: its line feed, or the end of the text.
pub fn line_end_of(chars: &Vec<char>, at: usize) -> (r: usize)
    ensures
        r == line_break(chars@, at as int),
        r <= chars@.len(),
{
    let mut i: usize = if at < chars.len() {
        at
    } else {
        chars.len()
    };
    while i < chars.len() && chars[i] != '\n'
        invariant
            i <= chars@.len(),
            line_break(chars@, i as int) == line_break(chars@, at as int),
        decreases chars@.len() - i,
    {
        i = i + 1;
    }
    i
}

/// A line without the carriage return before its line feed.
pub open spec fn without_cr(line: Seq<char>) -> Seq<char> {
    if line.len() > 0 && line.last() == '\r' {
        line.drop_last()
    } else {
        line
    }
}

/// The lines of `s` from index `i` on, without their line ends. A last line without a line feed
/// counts if it is not empty, and keeps a carriage return.
pub open spec fn lines_from(s: Seq<char>, i: int) -> Seq<Seq<char>>
    decreases s.len() - i,
{
    if i < 0 || i >= s.len() {
        seq![]
    } else {
        let e = line_break(s, i);
        if i <= e < s.len() {
            seq![without_cr(s.subrange(i, e))] + lines_from(s, e + 1)
        } else {
            seq![s.subrange(i, s.len() as int)]
        }
    }
}

/// The lines of a text.
pub open spec fn lines_of(s: Seq<char>) -> Seq<Seq<char>> {
    lines_from(s, 0)
}

proof fn line_break_bounds(s: Seq<char>, i: int)
    requires
        0 <= i <= s.len(),
    ensures
        i <= line_break(s, i) <= s.len(),
        line_break(s, i) < s.len() ==> s[line_break(s, i)] == '\n',
    decreases s.len() - i,
{
    if i < s.len() && s[i] != '\n' {
        line_break_bounds(s, i + 1);
    }
}

/// Splits a text into its lines.
pub fn split_lines(text: &str) -> (r: Vec<String>)
    ensures
        r@.len() == lines_of(text@).len(),
        forall|i: int| 0 <= i < r@.len() ==> (#[trigger] r@[i])@ == lines_of(text@)[i],
{
    let cs = chars_of(text);
    let mut out: Vec<String> = Vec::new();
    let mut i: usize = 0;
    while i < cs.len()
        invariant
            i <= cs.len(),
            cs@ == text@,
            out@.len() + lines_from(text@, i as int).len() == lines_of(text@).len(),
            forall|j: int| 0 <= j < out@.len() ==> (#[trigger] out@[j])@ == lines_of(text@)[j],
            forall|j: int|
                0 <= j < lines_from(text@, i as int).len() ==> #[trigger] lines_from(
                    text@,
                    i as int,
                )[j] == lines_of(text@)[out@.len() + j],
        decreases cs.len() - i,
    {
        let mut e: usize = i;
        proof {
            line_break_bounds(text@, i as int);
        }
        while e < cs.len() && cs[e] != '\n'
            invariant
                i <= e <= cs.len(),
                cs@ == text@,
                line_break(text@, e as int) == line_break(text@, i as int),
            decreases cs.len() - e,
        {
            e = e + 1;
        }
        let ghost tail = lines_from(text@, i as int);
        if e < cs.len() {
            let ghost rest = lines_from(text@, e as int + 1);
            assert(tail =~= seq![without_cr(text@.subrange(i as int, e as int))] + rest);
            let line = if e > i && cs[e - 1] == '\r' {
                text_of(&cs, i, e - 1)
            } else {
                text_of(&cs, i, e)
            };
            assert(line@ =~= without_cr(text@.subrange(i as int, e as int)));
            assert(tail[0] == lines_of(text@)[out@.len() as int]);
            assert forall|j: int| 0 <= j < rest.len() implies rest[j] == lines_of(text@)[out@.len()
                + 1 + j] by {
                assert(rest[j] == tail[j + 1]);
            }
            out.push(line);
            i = e + 1;
        } else {
            let line = text_of(&cs, i, cs.len());
            assert(tail[0] == lines_of(text@)[out@.len() as int]);
            out.push(line);
            i = cs.len();
            assert(lines_from(text@, i as int).len() == 0);
        }
    }
    out
}

/// The number of line feeds of a text.
pub open spec fn line_feeds(s: Seq<char>) -> nat {
    s.filter(|c: char| c == '\n').len()
}

/// Whether `a..b` are the characters of a line of `s`: it begins at the start or behind a line feed,
/// ends at a line feed or at the end, and holds none.
pub open spec fn is_line(s: Seq<char>, a: int, b: int) -> bool {
    &&& 0 <= a <= b <= s.len()
    &&& a == 0 || s[a - 1] == '\n'
    &&& b == s.len() || s[b] == '\n'
    &&& forall|j: int| a <= j < b ==> s[j] != '\n'
}

/// The line of a position is numbered by the line feeds in front of it.
pub proof fn lines_are_numbered_by_line_feeds(s: Seq<char>, n: int)
    requires
        0 <= n <= s.len(),
    ensures
        newlines_before(s, n) == line_feeds(s.take(n)),
    decreases n,
{
    reveal(Seq::filter);
    if n > 0 {
        lines_are_numbered_by_line_feeds(s, n - 1);
        assert(s.take(n).drop_last() =~= s.take(n - 1));
        assert(s.take(n).last() == s[n - 1]);
    }
}

/// A position lies between the beginning and the end of its line, and no line feed stands between
/// the two.
pub proof fn position_lies_in_its_line(s: Seq<char>, n: int)
    requires
        0 <= n <= s.len(),
    ensures
        line_head(s, n) <= n <= line_break(s, n),
        is_line(s, line_head(s, n), line_break(s, n)),
{
    head_is_near(s, n);
    break_is_near(s, n);
}

proof fn head_is_near(s: Seq<char>, n: int)
    requires
        0 <= n <= s.len(),
    ensures
        0 <= line_head(s, n) <= n,
        line_head(s, n) == 0 || s[line_head(s, n) - 1] == '\n',
        forall|j: int| line_head(s, n) <= j < n ==> s[j] != '\n',
    decreases n,
{
    if n > 0 && s[n - 1] != '\n' {
        head_is_near(s, n - 1);
    }
}

proof fn break_is_near(s: Seq<char>, n: int)
    requires
        0 <= n <= s.len(),
    ensures
        n <= line_break(s, n) <= s.len(),
        line_break(s, n) == s.len() || s[line_break(s, n)] == '\n',
        forall|j: int| n <= j < line_break(s, n) ==> s[j] != '\n',
    decreases s.len() - n,
{
    if n < s.len() && s[n] != '\n' {
        break_is_near(s, n + 1);
    }
}

/// A text has one line for each line feed, empty lines too, and one more if something stands behind
/// the last.
pub proof fn every_line_feed_ends_a_line(s: Seq<char>)
    ensures
        lines_of(s).len() == line_feeds(s) + if s.len() > 0 && s.last() != '\n' {
            1nat
        } else {
            0nat
        },
{
    lines_count(s, 0);
    assert(s.skip(0) =~= s);
}

proof fn lines_count(s: Seq<char>, i: int)
    requires
        0 <= i <= s.len(),
    ensures
        lines_from(s, i).len() == line_feeds(s.skip(i)) + if i < s.len() && s.last() != '\n' {
            1nat
        } else {
            0nat
        },
    decreases s.len() - i,
{
    reveal(Seq::filter);
    if i < s.len() {
        let e = line_break(s, i);
        let lf = |c: char| c == '\n';
        break_is_near(s, i);
        no_line_feeds(s.subrange(i, e));
        if e < s.len() {
            lines_count(s, e + 1);
            let one = seq![s[e]];
            assert(s.skip(i) =~= s.subrange(i, e) + one + s.skip(e + 1));
            Seq::filter_distributes_over_add(s.subrange(i, e) + one, s.skip(e + 1), lf);
            Seq::filter_distributes_over_add(s.subrange(i, e), one, lf);
            assert(one.drop_last() =~= Seq::<char>::empty());
            assert(one.filter(lf).len() == 1);
        } else {
            assert(s.skip(i) =~= s.subrange(i, e));
        }
    }
}

proof fn no_line_feeds(s: Seq<char>)
    requires
        forall|j: int| 0 <= j < s.len() ==> s[j] != '\n',
    ensures
        line_feeds(s) == 0,
    decreases s.len(),
{
    reveal(Seq::filter);
    if s.len() > 0 {
        no_line_feeds(s.drop_last());
    }
}

/// Line `k` is what stands behind the line feed that ends the line before, up to the next line feed
/// or the end. Of a line that a line feed ends, one carriage return in front of it is left out.
pub proof fn line_is_what_stands_between_line_feeds(s: Seq<char>, k: int)
    requires
        0 <= k < lines_of(s).len(),
    ensures
        exists|a: int, b: int|
            {
                &&& #[trigger] is_line(s, a, b)
                &&& line_feeds(s.take(a)) == k
                &&& lines_of(s)[k] == if b < s.len() && b > a && s[b - 1] == '\r' {
                    s.subrange(a, b - 1)
                } else {
                    s.subrange(a, b)
                }
            },
{
    nth_line(s, 0, k);
    let (a, b) = choose|a: int, b: int| #[trigger] is_nth(s, 0, k, a, b);
    assert(s.subrange(0, a) =~= s.take(a));
    assert(is_line(s, a, b));
}

spec fn is_nth(s: Seq<char>, i: int, k: int, a: int, b: int) -> bool {
    &&& is_line(s, a, b)
    &&& i <= a
    &&& line_feeds(s.subrange(i, a)) == k
    &&& lines_from(s, i)[k] == if b < s.len() && b > a && s[b - 1] == '\r' {
        s.subrange(a, b - 1)
    } else {
        s.subrange(a, b)
    }
}

proof fn nth_line(s: Seq<char>, i: int, k: int)
    requires
        0 <= i <= s.len(),
        i == 0 || s[i - 1] == '\n',
        0 <= k < lines_from(s, i).len(),
    ensures
        exists|a: int, b: int| #[trigger] is_nth(s, i, k, a, b),
    decreases s.len() - i,
{
    let e = line_break(s, i);
    let lf = |c: char| c == '\n';
    break_is_near(s, i);
    if k == 0 {
        assert(s.subrange(i, i) =~= Seq::<char>::empty());
        no_line_feeds(s.subrange(i, i));
        let line = s.subrange(i, e);
        if e < s.len() && e > i && s[e - 1] == '\r' {
            assert(line.last() == s[e - 1]);
            assert(line.drop_last() =~= s.subrange(i, e - 1));
        } else if e < s.len() && e > i {
            assert(line.last() == s[e - 1]);
        }
        assert(is_nth(s, i, k, i, e));
    } else {
        nth_line(s, e + 1, k - 1);
        let (a, b) = choose|a: int, b: int| #[trigger] is_nth(s, e + 1, k - 1, a, b);
        let one = seq![s[e]];
        assert(s.subrange(i, a) =~= s.subrange(i, e) + one + s.subrange(e + 1, a));
        Seq::filter_distributes_over_add(s.subrange(i, e) + one, s.subrange(e + 1, a), lf);
        Seq::filter_distributes_over_add(s.subrange(i, e), one, lf);
        no_line_feeds(s.subrange(i, e));
        reveal(Seq::filter);
        assert(one.drop_last() =~= Seq::<char>::empty());
        assert(one.filter(lf).len() == 1);
        assert(is_nth(s, i, k, a, b));
    }
}

/// Each character of a text but the line ends is in the line that has its number, as far from its
/// beginning as in the text.
pub proof fn character_is_in_its_line(s: Seq<char>, p: int)
    requires
        0 <= p < s.len(),
        s[p] != '\n',
        !(s[p] == '\r' && p + 1 < s.len() && s[p + 1] == '\n'),
    ensures
        newlines_before(s, p) < lines_of(s).len(),
        p - line_head(s, p) < lines_of(s)[newlines_before(s, p) as int].len(),
        lines_of(s)[newlines_before(s, p) as int][p - line_head(s, p)] == s[p],
{
    let lf = |c: char| c == '\n';
    lines_are_numbered_by_line_feeds(s, p);
    position_lies_in_its_line(s, p);
    every_line_feed_ends_a_line(s);
    let k = newlines_before(s, p) as int;
    let (h, t) = (line_head(s, p), line_break(s, p));
    assert(t > p);
    assert(s =~= s.take(p) + s.skip(p));
    Seq::filter_distributes_over_add(s.take(p), s.skip(p), lf);
    if s.last() == '\n' {
        some_line_feed(s.skip(p));
    }
    line_is_what_stands_between_line_feeds(s, k);
    let (a, b) = choose|a: int, b: int|
        {
            &&& #[trigger] is_line(s, a, b)
            &&& line_feeds(s.take(a)) == k
            &&& lines_of(s)[k] == if b < s.len() && b > a && s[b - 1] == '\r' {
                s.subrange(a, b - 1)
            } else {
                s.subrange(a, b)
            }
        };
    lines_are_numbered_by_line_feeds(s, a);
    lines_are_numbered_by_line_feeds(s, h);
    if a > p {
        newlines_step(s, p, a - 1);
    } else if a <= p {
        if b < p {
            newlines_step(s, a, b);
            newlines_step(s, b + 1, p);
        }
        if a < h {
            assert(b < h);
        }
        if h < a {
            assert(s[a - 1] == '\n');
        }
    }
    assert(a == h && b == t);
}

proof fn some_line_feed(s: Seq<char>)
    requires
        s.len() > 0,
        s.last() == '\n',
    ensures
        line_feeds(s) > 0,
{
    reveal(Seq::filter);
}

/// `s` with the characters `lo..hi` replaced by `new`.
pub open spec fn spliced(s: Seq<char>, lo: int, hi: int, new: Seq<char>) -> Seq<char> {
    s.take(lo) + new + s.skip(hi)
}

/// Replaces the characters `lo..hi` of a text.
pub fn splice(text: &str, lo: usize, hi: usize, new: &str) -> (r: String)
    requires
        lo <= hi <= text@.len(),
    ensures
        r@ == spliced(text@, lo as int, hi as int, new@),
{
    let cs = chars_of(text);
    let mut out = text_of(&cs, 0, lo);
    assert(out@ =~= text@.take(lo as int));
    out.append(new);
    let tail = text_of(&cs, hi, cs.len());
    assert(tail@ =~= text@.skip(hi as int));
    out.append(tail.as_str());
    out
}

/// Whether a peer's user id is the daemon's own; only such peers may connect.
pub fn is_peer_allowed(peer_uid: u32, daemon_uid: u32) -> (r: bool)
    ensures
        r == (peer_uid == daemon_uid),
{
    peer_uid == daemon_uid
}

} // verus!
