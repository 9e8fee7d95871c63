//! Text building: hexadecimal and decimal numbers, joining, indentation, and searching.

use vstd::prelude::*;

verus! {

/// `std::string::String::push` appends one character.
pub assume_specification[ String::push ](s: &mut String, c: char)
    ensures
        final(s)@ == old(s)@.push(c),
;

/// The lowercase hexadecimal digit for `n` below 16.
pub open spec fn hex_digit(n: int) -> char {
    if n < 10 {
        (0x30 + n) as char
    } else {
        (0x57 + n) as char
    }
}

/// Two lowercase hexadecimal digits for each byte.
pub open spec fn hex_text(bytes: Seq<u8>) -> Seq<char> {
    Seq::new(
        2 * bytes.len(),
        |i: int|
            hex_digit(
                if i % 2 == 0 {
                    bytes[i / 2] as int / 16
                } else {
                    bytes[i / 2] as int % 16
                },
            ),
    )
}

/// Four lowercase hexadecimal digits for `n`.
pub open spec fn hex4_text(n: u16) -> Seq<char> {
    seq![
        hex_digit(n as int / 4096),
        hex_digit(n as int / 256 % 16),
        hex_digit(n as int / 16 % 16),
        hex_digit(n as int % 16),
    ]
}

/// The decimal digits of `n`, without leading zeros.
pub open spec fn decimal_text(n: nat) -> Seq<char>
    decreases n,
{
    let last = (0x30 + n % 10) as char;
    if n < 10 {
        seq![last]
    } else {
        decimal_text(n / 10).push(last)
    }
}

/// `parts` with `sep` between neighbours.
pub open spec fn join_text(parts: Seq<Seq<char>>, sep: Seq<char>) -> Seq<char>
    decreases parts.len(),
{
    if parts.len() == 0 {
        seq![]
    } else if parts.len() == 1 {
        parts[0]
    } else {
        join_text(parts.drop_last(), sep) + sep + parts.last()
    }
}

fn hex_char(n: u8) -> (c: char)
    requires
        n < 16,
    ensures
        c == hex_digit(n as int),
{
    if n < 10 {
        (0x30 + n) as char
    } else {
        (0x57 + n) as char
    }
}

/// Returns two lowercase hexadecimal digits for each byte.
pub fn hex_lower(bytes: &[u8]) -> (s: String)
    ensures
        s@ == hex_text(bytes@),
{
    let mut s = String::new();
    let mut i: usize = 0;
    while i < bytes.len()
        invariant
            i <= bytes@.len(),
            s@ == hex_text(bytes@.take(i as int)),
        decreases bytes@.len() - i,
    {
        s.push(hex_char(bytes[i] / 16));
        s.push(hex_char(bytes[i] % 16));
        i = i + 1;
        assert(s@ =~= hex_text(bytes@.take(i as int)));
    }
    assert(bytes@.take(i as int) =~= bytes@);
    s
}

/// Returns `n` as four lowercase hexadecimal digits.
pub fn hex4(n: u16) -> (s: String)
    ensures
        s@ == hex4_text(n),
{
    let mut s = String::new();
    s.push(hex_char((n / 4096) as u8));
    s.push(hex_char((n / 256 % 16) as u8));
    s.push(hex_char((n / 16 % 16) as u8));
    s.push(hex_char((n % 16) as u8));
    assert(s@ =~= hex4_text(n));
    s
}

/// Returns `n` in decimal.
pub fn decimal(n: u32) -> (s: String)
    ensures
        s@ == decimal_text(n as nat),
    decreases n,
{
    let last: char = (0x30 + (n % 10) as u8) as char;
    let mut s = if n < 10 {
        String::new()
    } else {
        decimal(n / 10)
    };
    s.push(last);
    assert(s@ =~= decimal_text(n as nat));
    s
}

/// Returns `true` or `false`.
pub fn bool_name(b: bool) -> (s: &'static str)
    ensures
        s@ == bool_text(b),
{
    if b {
        "true"
    } else {
        "false"
    }
}

pub open spec fn bool_text(b: bool) -> Seq<char> {
    if b {
        "true"@
    } else {
        "false"@
    }
}

/// The text of each element.
pub open spec fn texts(parts: Seq<String>) -> Seq<Seq<char>> {
    parts.map_values(|p: String| p@)
}

/// Joins `parts`, with `sep` between neighbours.
pub fn join(parts: &Vec<String>, sep: &str) -> (s: String)
    ensures
        s@ == join_text(texts(parts@), sep@),
{
    let mut s = String::new();
    let mut i: usize = 0;
    while i < parts.len()
        invariant
            i <= parts@.len(),
            s@ == join_text(texts(parts@).take(i as int), sep@),
        decreases parts@.len() - i,
    {
        if i > 0 {
            s.append(sep);
        }
        s.append(parts[i].as_str());
        let ghost more = texts(parts@).take(i + 1);
        assert(more.drop_last() =~= texts(parts@).take(i as int));
        assert(s@ =~= join_text(more, sep@));
        i = i + 1;
    }
    assert(texts(parts@).take(i as int) =~= texts(parts@));
    s
}

/// Returns the characters of `s`.
pub fn chars_of(s: &str) -> (chars: Vec<char>)
    ensures
        chars@ == s@,
{
    let mut chars: Vec<char> = Vec::new();
    for c in it: s.chars()
        invariant
            it.seq() == s@,
            chars@ == s@.take(it.index() as int),
    {
        chars.push(c);
        assert(chars@ =~= s@.take(it.index() + 1));
    }
    assert(s@.take(s@.len() as int) =~= s@);
    chars
}

/// Returns whether the two texts are the same.
pub fn same(a: &str, b: &str) -> (r: bool)
    ensures
        r == (a@ == b@),
{
    let a_chars = chars_of(a);
    let b_chars = chars_of(b);
    assert(a@.subrange(0, a@.len() as int) =~= a@);
    a_chars.len() == b_chars.len() && stands_at(&a_chars, 0, &b_chars)
}

fn stands_at(text: &Vec<char>, at: usize, piece: &Vec<char>) -> (r: bool)
    requires
        at + piece@.len() <= text@.len(),
    ensures
        r == (text@.subrange(at as int, at + piece@.len()) == piece@),
{
    let len: usize = text.len();
    let mut i: usize = 0;
    while i < piece.len()
        invariant
            i <= piece@.len(),
            at + piece@.len() <= text@.len() == len,
            forall|j: int| 0 <= j < i ==> text@[at + j] == piece@[j],
        decreases piece@.len() - i,
    {
        if text[at + i] != piece[i] {
            assert(text@.subrange(at as int, at + piece@.len())[i as int] != piece@[i as int]);
            return false;
        }
        i = i + 1;
    }
    assert(text@.subrange(at as int, at + piece@.len()) =~= piece@);
    true
}

/// Whether `piece` stands somewhere in `text`.
pub open spec fn has(text: Seq<char>, piece: Seq<char>) -> bool {
    exists|i: int|
        0 <= i <= text.len() - piece.len() && #[trigger] text.subrange(i, i + piece.len()) == piece
}

/// Whether `text` begins with `piece`.
pub open spec fn begins(text: Seq<char>, piece: Seq<char>) -> bool {
    piece.len() <= text.len() && text.subrange(0, piece.len() as int) == piece
}

/// Returns whether `piece` stands somewhere in `text`.
pub fn contains(text: &str, piece: &str) -> (r: bool)
    ensures
        r == has(text@, piece@),
{
    let t = chars_of(text);
    let p = chars_of(piece);
    if p.len() > t.len() {
        return false;
    }
    let last: usize = t.len() - p.len();
    let mut i: usize = 0;
    while i < last
        invariant
            t@ == text@,
            p@ == piece@,
            i <= last == t@.len() - p@.len(),
            forall|j: int| 0 <= j < i ==> #[trigger] t@.subrange(j, j + p@.len()) != p@,
        decreases last - i,
    {
        if stands_at(&t, i, &p) {
            return true;
        }
        i = i + 1;
    }
    stands_at(&t, last, &p)
}

/// Returns whether `text` begins with `piece`.
pub fn starts_with(text: &str, piece: &str) -> (r: bool)
    ensures
        r == begins(text@, piece@),
{
    let t = chars_of(text);
    let p = chars_of(piece);
    p.len() <= t.len() && stands_at(&t, 0, &p)
}

/// The uppercase form of an ASCII letter; other characters are left alone.
pub open spec fn upper_char(c: char) -> char {
    if 'a' <= c <= 'z' {
        (c as int - 32) as char
    } else {
        c
    }
}

/// `text` with its ASCII letters in uppercase.
pub open spec fn upper(text: Seq<char>) -> Seq<char> {
    text.map_values(|c: char| upper_char(c))
}

/// Returns `text` with its ASCII letters in uppercase.
pub fn ascii_uppercase(text: &str) -> (s: String)
    ensures
        s@ == upper(text@),
{
    let mut s = String::new();
    for c in it: text.chars()
        invariant
            it.seq() == text@,
            s@ == upper(text@.take(it.index() as int)),
    {
        if 'a' <= c && c <= 'z' {
            s.push((c as u8 - 32) as char);
        } else {
            s.push(c);
        }
        assert(s@ =~= upper(text@.take(it.index() + 1)));
    }
    assert(text@.take(text@.len() as int) =~= text@);
    s
}

/// `c` as a lowercase letter, if it is an ASCII letter.
pub open spec fn lower_char(c: char) -> char {
    if 'A' <= c <= 'Z' {
        (c as int + 32) as char
    } else {
        c
    }
}

/// `text` with its ASCII letters in lowercase.
pub open spec fn lower(text: Seq<char>) -> Seq<char> {
    text.map_values(|c: char| lower_char(c))
}

/// Whether `text` is made of ASCII characters.
pub open spec fn ascii(text: Seq<char>) -> bool {
    forall|i: int| 0 <= i < text.len() ==> (#[trigger] text[i] as int) < 128
}

/// `text` in lowercase, as `str::to_lowercase` gives it.
pub uninterp spec fn lowercase_text(text: Seq<char>) -> Seq<char>;

/// `str::to_lowercase`. Its result is a function of the text, and of ASCII text it makes the
/// letters lowercase and changes nothing else.
#[verifier::external_body]
pub(crate) fn lowercase(text: &str) -> (s: String)
    ensures
        s@ == lowercase_text(text@),
        ascii(text@) ==> s@ == lower(text@),
{
    text.to_lowercase()
}

/// Whether the character behind `text` starts a line, where `at_start` says the same of the
/// character behind nothing.
pub open spec fn at_line_start(at_start: bool, text: Seq<char>) -> bool {
    if text.len() == 0 {
        at_start
    } else {
        text.last() == '\n'
    }
}

/// `text` with `prefix` before the first character of each line that has one. Where `at_start` is
/// false, `text` goes on with a line that has begun already.
pub open spec fn indented(prefix: Seq<char>, at_start: bool, text: Seq<char>) -> Seq<char>
    decreases text.len(),
{
    if text.len() == 0 {
        seq![]
    } else {
        let before = text.drop_last();
        let c = text.last();
        let written = indented(prefix, at_start, before);
        if c != '\n' && at_line_start(at_start, before) {
            written + prefix.push(c)
        } else {
            written.push(c)
        }
    }
}

/// A text that grows by pieces and whose lines are indented.
pub struct Indented {
    pub out: String,
    pub indent: &'static str,
    pub at_line_start: bool,
}

/// Starts an empty text whose lines will begin with `prefix`.
pub fn indent(prefix: &'static str) -> (w: Indented)
    ensures
        w.out@ == Seq::<char>::empty(),
        w.indent == prefix,
        w.at_line_start,
{
    Indented { out: String::new(), indent: prefix, at_line_start: true }
}

impl Indented {
    /// Appends `s`. Empty lines stay empty, and a line that an earlier piece began is not indented
    /// again.
    pub fn write_str(&mut self, s: &str)
        ensures
            final(self).out@ == old(self).out@ + indented(
                old(self).indent@,
                old(self).at_line_start,
                s@,
            ),
            final(self).indent == old(self).indent,
            final(self).at_line_start == at_line_start(old(self).at_line_start, s@),
    {
        let ghost start = self.out@;
        let ghost prefix = self.indent@;
        let ghost fresh = self.at_line_start;
        assert(self.out@ =~= start + indented(prefix, fresh, s@.take(0)));
        for c in chars: s.chars()
            invariant
                chars.seq() == s@,
                self.indent == old(self).indent,
                prefix == self.indent@,
                self.out@ == start + indented(prefix, fresh, s@.take(chars.index() as int)),
                self.at_line_start == at_line_start(fresh, s@.take(chars.index() as int)),
        {
            let ghost done = s@.take(chars.index() as int);
            let ghost more = s@.take(chars.index() + 1);
            assert(more.drop_last() =~= done && more.last() == c);
            if c == '\n' {
                self.at_line_start = true;
            } else if self.at_line_start {
                self.out.append(self.indent);
                self.at_line_start = false;
            }
            self.out.push(c);
            assert(self.out@ =~= start + indented(prefix, fresh, more));
        }
        assert(s@.take(s@.len() as int) =~= s@);
    }
}

/// Writing a text in two pieces gives the same as writing it at once.
pub proof fn indenting_ignores_pieces(
    prefix: Seq<char>,
    at_start: bool,
    first: Seq<char>,
    second: Seq<char>,
)
    ensures
        indented(prefix, at_start, first + second) == indented(prefix, at_start, first) + indented(
            prefix,
            at_line_start(at_start, first),
            second,
        ),
        at_line_start(at_start, first + second) == at_line_start(
            at_line_start(at_start, first),
            second,
        ),
    decreases second.len(),
{
    if second.len() == 0 {
        assert(first + second =~= first);
    } else {
        let before = second.drop_last();
        assert((first + second).drop_last() =~= first + before);
        indenting_ignores_pieces(prefix, at_start, first, before);
        assert(indented(prefix, at_start, first + second) =~= indented(prefix, at_start, first)
            + indented(prefix, at_line_start(at_start, first), second));
    }
}

/// The hexadecimal form has two digits per byte, and no two byte strings share it.
pub proof fn hex_is_faithful(a: Seq<u8>, b: Seq<u8>)
    ensures
        hex_text(a).len() == 2 * a.len(),
        hex_text(a) == hex_text(b) <==> a == b,
{
    if hex_text(a) == hex_text(b) {
        assert(hex_text(a).len() == hex_text(b).len());
        assert forall|i: int| 0 <= i < a.len() implies a[i] == b[i] by {
            assert(hex_text(a)[2 * i] == hex_text(b)[2 * i]);
            assert(hex_text(a)[2 * i + 1] == hex_text(b)[2 * i + 1]);
            assert((2 * i) / 2 == i && (2 * i) % 2 == 0 && (2 * i + 1) / 2 == i && (2 * i + 1) % 2
                == 1);
            hex_digits_differ(a[i] as int / 16, b[i] as int / 16);
            hex_digits_differ(a[i] as int % 16, b[i] as int % 16);
        }
        assert(a =~= b);
    }
}

proof fn hex_digits_differ(m: int, n: int)
    requires
        0 <= m < 16,
        0 <= n < 16,
        hex_digit(m) == hex_digit(n),
    ensures
        m == n,
{
}

} // verus!
