//! Promises about texts.

use vstd::prelude::*;

use crate::text;
use crate::text::Indented;

verus! {

/// The value of a lowercase hexadecimal digit; -1 of another character.
pub open spec fn hex_value(c: char) -> int {
    if '0' <= c <= '9' {
        c as int - 48
    } else if 'a' <= c <= 'f' {
        c as int - 87
    } else {
        -1
    }
}

/// Bytes are written as two lowercase hexadecimal digits each, the high-order digit first, and can
/// be read back from them.
pub proof fn hex_can_be_read_back(bytes: &[u8], s: String)
    requires
        call_ensures(text::hex_lower, (bytes,), s),
    ensures
        s@.len() == 2 * bytes@.len(),
        forall|i: int|
            0 <= i < bytes@.len() ==> {
                &&& 0 <= hex_value(s@[2 * i]) < 16
                &&& 0 <= hex_value(s@[2 * i + 1]) < 16
                &&& hex_value(s@[2 * i]) * 16 + hex_value(s@[2 * i + 1]) == #[trigger] bytes@[i]
            },
{
    assert forall|i: int| 0 <= i < bytes@.len() implies {
        &&& 0 <= hex_value(s@[2 * i]) < 16
        &&& 0 <= hex_value(s@[2 * i + 1]) < 16
        &&& hex_value(s@[2 * i]) * 16 + hex_value(s@[2 * i + 1]) == #[trigger] bytes@[i]
    } by {
        assert((2 * i) / 2 == i && (2 * i) % 2 == 0 && (2 * i + 1) / 2 == i && (2 * i + 1) % 2 == 1);
        assert(s@[2 * i] == text::hex_digit(bytes@[i] as int / 16));
        assert(s@[2 * i + 1] == text::hex_digit(bytes@[i] as int % 16));
    }
}

/// A code is written as four lowercase hexadecimal digits and can be read back from them.
pub proof fn codes_can_be_read_back(n: u16, s: String)
    requires
        call_ensures(text::hex4, (n,), s),
    ensures
        s@.len() == 4,
        0 <= hex_value(s@[0]) < 16,
        0 <= hex_value(s@[1]) < 16,
        0 <= hex_value(s@[2]) < 16,
        0 <= hex_value(s@[3]) < 16,
        hex_value(s@[0]) * 4096 + hex_value(s@[1]) * 256 + hex_value(s@[2]) * 16 + hex_value(s@[3])
            == n,
{
    code_digits(n);
}

proof fn digit_values(k: int)
    requires
        0 <= k < 16,
    ensures
        hex_value(text::hex_digit(k)) == k,
{
}

#[verifier::spinoff_prover]
proof fn code_digits(n: u16)
    ensures
        ({
            let s = text::hex4_text(n);
            &&& s.len() == 4
            &&& 0 <= hex_value(s[0]) < 16
            &&& 0 <= hex_value(s[1]) < 16
            &&& 0 <= hex_value(s[2]) < 16
            &&& 0 <= hex_value(s[3]) < 16
            &&& hex_value(s[0]) * 4096 + hex_value(s[1]) * 256 + hex_value(s[2]) * 16 + hex_value(
                s[3],
            ) == n
        }),
{
    let m = n as int;
    let a = m / 4096;
    let b = m / 256 % 16;
    let c = m / 16 % 16;
    let d = m % 16;
    let s = text::hex4_text(n);
    assert(s[0] == text::hex_digit(a) && s[1] == text::hex_digit(b) && s[2] == text::hex_digit(c)
        && s[3] == text::hex_digit(d));
    code_sum(m);
    digit_values(a);
    digit_values(b);
    digit_values(c);
    digit_values(d);
}

proof fn code_sum(m: int)
    requires
        0 <= m < 65536,
    ensures
        0 <= m / 4096 < 16,
        0 <= m / 256 % 16 < 16,
        0 <= m / 16 % 16 < 16,
        0 <= m % 16 < 16,
        m / 4096 * 4096 + m / 256 % 16 * 256 + m / 16 % 16 * 16 + m % 16 == m,
{
}

/// What `hex4_text` of a code is.
pub proof fn code_texts_can_be_read_back(n: u16)
    ensures
        text::hex4_text(n).len() == 4,
        hex_value(text::hex4_text(n)[0]) * 4096 + hex_value(text::hex4_text(n)[1]) * 256
            + hex_value(text::hex4_text(n)[2]) * 16 + hex_value(text::hex4_text(n)[3]) == n,
        forall|i: int| 0 <= i < 4 ==> 0 <= hex_value(#[trigger] text::hex4_text(n)[i]) < 16,
{
    code_digits(n);
}

/// The number that decimal digits stand for.
pub open spec fn decimal_value(digits: Seq<char>) -> int
    decreases digits.len(),
{
    if digits.len() == 0 {
        0
    } else {
        decimal_value(digits.drop_last()) * 10 + (digits.last() as int - 48)
    }
}

proof fn decimal_form(n: nat)
    ensures
        text::decimal_text(n).len() > 0,
        forall|i: int|
            0 <= i < text::decimal_text(n).len() ==> '0' <= #[trigger] text::decimal_text(n)[i]
                <= '9',
        text::decimal_text(n)[0] == '0' ==> n == 0 && text::decimal_text(n).len() == 1,
        decimal_value(text::decimal_text(n)) == n,
    decreases n,
{
    let s = text::decimal_text(n);
    if n < 10 {
        assert(s.drop_last() =~= seq![]);
        assert(decimal_value(seq![]) == 0);
    } else {
        decimal_form(n / 10);
        assert(s.drop_last() =~= text::decimal_text(n / 10));
        assert(s[0] == text::decimal_text(n / 10)[0]);
        assert forall|i: int| 0 <= i < s.len() implies '0' <= #[trigger] s[i] <= '9' by {
            if i < s.len() - 1 {
                assert(s[i] == text::decimal_text(n / 10)[i]);
            }
        }
    }
}

/// A number is written in decimal digits, without zeros in front, and can be read back from them.
pub proof fn numbers_can_be_read_back(n: u32, s: String)
    requires
        call_ensures(text::decimal, (n,), s),
    ensures
        s@.len() > 0,
        forall|i: int| 0 <= i < s@.len() ==> '0' <= #[trigger] s@[i] <= '9',
        s@[0] == '0' ==> n == 0 && s@.len() == 1,
        decimal_value(s@) == n,
{
    decimal_form(n as nat);
}

/// What `decimal_text` of a number is.
pub proof fn decimal_texts_can_be_read_back(n: nat)
    ensures
        text::decimal_text(n).len() > 0,
        forall|i: int|
            0 <= i < text::decimal_text(n).len() ==> '0' <= #[trigger] text::decimal_text(n)[i]
                <= '9',
        text::decimal_text(n)[0] == '0' ==> n == 0 && text::decimal_text(n).len() == 1,
        decimal_value(text::decimal_text(n)) == n,
{
    decimal_form(n);
}

/// Truth is shown as `true`, and what is not true as `false`.
pub proof fn truth_is_shown(b: bool, s: &'static str)
    requires
        call_ensures(text::bool_name, (b,), s),
    ensures
        b ==> s@ == "true"@,
        !b ==> s@ == "false"@,
{
}

/// Texts are joined in order, with the separator between neighbours and nowhere else.
pub proof fn joined_texts_grow(parts: Seq<Seq<char>>, part: Seq<char>, sep: Seq<char>)
    ensures
        text::join_text(seq![], sep) == Seq::<char>::empty(),
        text::join_text(seq![part], sep) == part,
        parts.len() > 0 ==> text::join_text(parts.push(part), sep) == text::join_text(parts, sep)
            + sep + part,
{
    assert(parts.push(part).drop_last() =~= parts);
}

/// What `join` returns is the texts joined.
pub proof fn texts_are_joined(parts: &Vec<String>, sep: &str, s: String)
    requires
        call_ensures(text::join, (parts, sep), s),
    ensures
        s@ == text::join_text(parts@.map_values(|p: String| p@), sep@),
{
    assert(text::texts(parts@) =~= parts@.map_values(|p: String| p@));
}

/// A text is compared, split into characters and searched as it stands.
pub proof fn texts_are_searched(a: &str, b: &str, r: bool, c: bool, d: bool, chars: Vec<char>)
    requires
        call_ensures(text::same, (a, b), r),
        call_ensures(text::contains, (a, b), c),
        call_ensures(text::starts_with, (a, b), d),
        call_ensures(text::chars_of, (a,), chars),
    ensures
        r <==> a@ == b@,
        c <==> exists|i: int|
            0 <= i <= a@.len() - b@.len() && #[trigger] a@.subrange(i, i + b@.len()) == b@,
        d <==> b@.len() <= a@.len() && a@.subrange(0, b@.len() as int) == b@,
        chars@ == a@,
{
}

/// ASCII letters become uppercase, and no other character changes.
pub proof fn letters_are_raised(t: &str, s: String)
    requires
        call_ensures(text::ascii_uppercase, (t,), s),
    ensures
        s@.len() == t@.len(),
        forall|i: int|
            0 <= i < t@.len() ==> {
                &&& 'a' <= t@[i] <= 'z' ==> s@[i] as int == t@[i] as int - 32
                &&& !('a' <= #[trigger] t@[i] <= 'z') ==> s@[i] == t@[i]
            },
{
}

/// The lowercase form of ASCII letters, which leaves all else alone.
pub proof fn letters_are_lowered(t: Seq<char>)
    ensures
        text::lower(t).len() == t.len(),
        forall|i: int|
            0 <= i < t.len() ==> {
                &&& 'A' <= t[i] <= 'Z' ==> text::lower(t)[i] as int == t[i] as int + 32
                &&& !('A' <= #[trigger] t[i] <= 'Z') ==> text::lower(t)[i] == t[i]
            },
{
}

proof fn indented_line(prefix: Seq<char>, line: Seq<char>)
    requires
        !line.contains('\n'),
    ensures
        line.len() > 0 ==> text::indented(prefix, true, line) == prefix + line,
        line.len() == 0 ==> text::indented(prefix, true, line) == Seq::<char>::empty(),
        text::indented(prefix, false, line) == line,
    decreases line.len(),
{
    if line.len() > 0 {
        let before = line.drop_last();
        assert forall|i: int| 0 <= i < before.len() implies before[i] != '\n' by {
            assert(line[i] != '\n');
        }
        indented_line(prefix, before);
        assert(line[line.len() - 1] != '\n');
        if before.len() > 0 {
            assert(before.last() == line[line.len() - 2]);
            assert(before.last() != '\n');
        }
        assert(before.push(line.last()) =~= line);
        if before.len() == 0 {
            assert(text::indented(prefix, true, line) =~= prefix + line);
        } else {
            assert(text::indented(prefix, true, line) =~= prefix + line);
        }
        assert(text::indented(prefix, false, line) =~= line);
    } else {
        assert(text::indented(prefix, false, line) =~= line);
    }
}

/// Lines are indented one by one: a line that has text gets the prefix in front, an empty line gets
/// none, and what follows a line is indented as if it stood alone.
pub proof fn lines_are_indented(prefix: Seq<char>, line: Seq<char>, rest: Seq<char>)
    requires
        !line.contains('\n'),
    ensures
        text::indented(prefix, true, line) == if line.len() == 0 {
            line
        } else {
            prefix + line
        },
        text::indented(prefix, true, line.push('\n') + rest) == text::indented(prefix, true, line)
            + seq!['\n'] + text::indented(prefix, true, rest),
{
    indented_line(prefix, line);
    let first = line.push('\n');
    assert(first.drop_last() =~= line);
    assert(text::indented(prefix, true, first) =~= text::indented(prefix, true, line) + seq!['\n']);
    text::indenting_ignores_pieces(prefix, true, first, rest);
}

/// Text that is written comes out indented behind what was there; a line that has begun gets no
/// further prefix.
pub proof fn written_texts_are_indented(
    w: &mut Indented,
    s: &str,
    fresh: Indented,
    prefix: &'static str,
)
    requires
        call_ensures(Indented::write_str, (w, s), ()),
        call_ensures(text::indent, (prefix,), fresh),
    ensures
        final(w).out@ == old(w).out@ + text::indented(old(w).indent@, old(w).at_line_start, s@),
        final(w).indent@ == old(w).indent@,
        s@.len() == 0 ==> final(w).at_line_start == old(w).at_line_start,
        s@.len() > 0 ==> final(w).at_line_start == (s@.last() == '\n'),
        !s@.contains('\n') && !old(w).at_line_start ==> final(w).out@ == old(w).out@ + s@,
        fresh.out@.len() == 0,
        fresh.indent@ == prefix@,
        fresh.at_line_start,
{
    if !s@.contains('\n') {
        indented_line(old(w).indent@, s@);
    }
}

} // verus!
