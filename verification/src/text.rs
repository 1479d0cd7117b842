//! Plain text: decimal numbers and padded columns.
use vstd::prelude::*;
use vstd::string::*;

verus! {

/// The character of a decimal digit.
pub open spec fn digit_char(d: int) -> char {
    if d == 0 {
        '0'
    } else if d == 1 {
        '1'
    } else if d == 2 {
        '2'
    } else if d == 3 {
        '3'
    } else if d == 4 {
        '4'
    } else if d == 5 {
        '5'
    } else if d == 6 {
        '6'
    } else if d == 7 {
        '7'
    } else if d == 8 {
        '8'
    } else {
        '9'
    }
}

/// A number in decimal, without leading zeros.
pub open spec fn decimal(n: int) -> Seq<char>
    decreases n,
{
    if n < 10 {
        seq![digit_char(n)]
    } else {
        decimal(n / 10).push(digit_char(n % 10))
    }
}

/// A signed number in decimal.
pub open spec fn signed_decimal(n: int) -> Seq<char> {
    if n < 0 {
        seq!['-'] + decimal(-n)
    } else {
        decimal(n)
    }
}

/// A run of spaces.
pub open spec fn spaces(n: int) -> Seq<char> {
    Seq::new(
        if n < 0 {
            0
        } else {
            n as nat
        },
        |i: int| ' ',
    )
}

/// Text filled up with spaces on its right; longer text stays as it is.
pub open spec fn left_aligned(s: Seq<char>, width: int) -> Seq<char> {
    s + spaces(width - s.len())
}

/// Text filled up with spaces on its left; longer text stays as it is.
pub open spec fn right_aligned(s: Seq<char>, width: int) -> Seq<char> {
    spaces(width - s.len()) + s
}

fn digit(d: u64) -> (r: &'static str)
    requires
        d < 10,
    ensures
        r@ == seq![digit_char(d as int)],
{
    proof {
        reveal_strlit("0");
        reveal_strlit("1");
        reveal_strlit("2");
        reveal_strlit("3");
        reveal_strlit("4");
        reveal_strlit("5");
        reveal_strlit("6");
        reveal_strlit("7");
        reveal_strlit("8");
        reveal_strlit("9");
    }
    match d {
        0 => "0",
        1 => "1",
        2 => "2",
        3 => "3",
        4 => "4",
        5 => "5",
        6 => "6",
        7 => "7",
        8 => "8",
        _ => "9",
    }
}

/// Appends a number in decimal.
pub fn push_decimal(out: &mut String, v: u64)
    ensures
        final(out)@ == old(out)@ + decimal(v as int),
    decreases v,
{
    if v >= 10 {
        push_decimal(out, v / 10);
    }
    out.append(digit(v % 10));
}

/// Appends a signed number in decimal.
pub fn push_signed(out: &mut String, v: i64)
    ensures
        final(out)@ == old(out)@ + signed_decimal(v as int),
{
    if v < 0 {
        proof {
            reveal_strlit("-");
        }
        out.append("-");
        let size: u64 = (-(v as i128)) as u64;
        push_decimal(out, size);
    } else {
        push_decimal(out, v as u64);
    }
}

/// Appends spaces.
pub fn push_spaces(out: &mut String, n: usize)
    ensures
        final(out)@ == old(out)@ + spaces(n as int),
{
    let ghost before = out@;
    let mut i: usize = 0;
    while i < n
        invariant
            i <= n,
            out@ == before + spaces(i as int),
        decreases n - i,
    {
        proof {
            reveal_strlit(" ");
        }
        out.append(" ");
        i += 1;
    }
}

/// Appends text, filled up with spaces on its right.
pub fn push_left_aligned(out: &mut String, s: &str, width: usize)
    ensures
        final(out)@ == old(out)@ + left_aligned(s@, width as int),
{
    let len: usize = s.unicode_len();
    out.append(s);
    if len < width {
        push_spaces(out, width - len);
    }
}

/// Appends text, filled up with spaces on its left.
pub fn push_right_aligned(out: &mut String, s: &str, width: usize)
    ensures
        final(out)@ == old(out)@ + right_aligned(s@, width as int),
{
    let len: usize = s.unicode_len();
    if len < width {
        push_spaces(out, width - len);
    }
    out.append(s);
}

/// Appends a number, filled up with spaces on its left.
pub fn push_column(out: &mut String, v: u64, width: usize)
    ensures
        final(out)@ == old(out)@ + right_aligned(decimal(v as int), width as int),
{
    let mut s = String::new();
    push_decimal(&mut s, v);
    assert(s@ =~= decimal(v as int));
    push_right_aligned(out, s.as_str(), width);
}

/// Whether text starts with a prefix.
pub fn has_prefix(s: &str, prefix: &str) -> (r: bool)
    ensures
        r == prefix@.is_prefix_of(s@),
{
    let n: usize = prefix.unicode_len();
    if s.unicode_len() < n {
        return false;
    }
    let mut i: usize = 0;
    while i < n
        invariant
            i <= n == prefix@.len() <= s@.len(),
            forall|j: int| 0 <= j < i ==> #[trigger] s@[j] == prefix@[j],
        decreases n - i,
    {
        if s.get_char(i) != prefix.get_char(i) {
            assert(s@.subrange(0, prefix@.len() as int)[i as int] != prefix@[i as int]);
            return false;
        }
        i += 1;
    }
    assert(s@.subrange(0, prefix@.len() as int) =~= prefix@);
    true
}

/// Whether two texts are the same.
pub fn same_text(a: &str, b: &str) -> (r: bool)
    ensures
        r == (a@ == b@),
{
    if a.unicode_len() == b.unicode_len() && has_prefix(a, b) {
        assert(a@.subrange(0, b@.len() as int) =~= a@);
        true
    } else {
        assert(a@ == b@ ==> a@.subrange(0, b@.len() as int) =~= b@);
        false
    }
}

/// How often a character occurs in text.
pub open spec fn occurrences(s: Seq<char>, c: char) -> int
    decreases s.len(),
{
    if s.len() == 0 {
        0
    } else {
        occurrences(s.drop_last(), c) + if s.last() == c {
            1int
        } else {
            0int
        }
    }
}

/// Occurrences in joined text are those in its parts.
pub proof fn occurrences_join(a: Seq<char>, b: Seq<char>, c: char)
    ensures
        occurrences(a + b, c) == occurrences(a, c) + occurrences(b, c),
    decreases b.len(),
{
    if b.len() == 0 {
        assert(a + b =~= a);
    } else {
        assert((a + b).drop_last() =~= a + b.drop_last());
        occurrences_join(a, b.drop_last(), c);
    }
}

/// A character that is nowhere in text occurs no times.
pub proof fn absent_occurs_never(s: Seq<char>, c: char)
    requires
        forall|i: int| 0 <= i < s.len() ==> #[trigger] s[i] != c,
    ensures
        occurrences(s, c) == 0,
    decreases s.len(),
{
    if s.len() > 0 {
        absent_occurs_never(s.drop_last(), c);
    }
}

/// The value of a digit character.
pub open spec fn digit_value(c: char) -> int {
    if c == '0' {
        0
    } else if c == '1' {
        1
    } else if c == '2' {
        2
    } else if c == '3' {
        3
    } else if c == '4' {
        4
    } else if c == '5' {
        5
    } else if c == '6' {
        6
    } else if c == '7' {
        7
    } else if c == '8' {
        8
    } else {
        9
    }
}

/// The number that a row of digits stands for.
pub open spec fn number(s: Seq<char>) -> int
    decreases s.len(),
{
    if s.len() == 0 {
        0
    } else {
        10 * number(s.drop_last()) + digit_value(s.last())
    }
}

/// Whether a character is a decimal digit.
pub open spec fn is_digit(c: char) -> bool {
    exists|d: int| 0 <= d < 10 && c == #[trigger] digit_char(d)
}

/// A number reads back from its decimal text, which holds nothing but digits.
pub proof fn decimal_reads_back(n: int)
    requires
        n >= 0,
    ensures
        number(decimal(n)) == n,
        decimal(n).len() > 0,
        forall|i: int| 0 <= i < decimal(n).len() ==> is_digit(#[trigger] decimal(n)[i]),
    decreases n,
{
    if n < 10 {
        reveal_with_fuel(number, 2);
        assert(is_digit(digit_char(n)));
    } else {
        decimal_reads_back(n / 10);
        assert(decimal(n).drop_last() =~= decimal(n / 10));
        assert(is_digit(digit_char(n % 10)));
    }
}

/// Aligned text has the width asked for, or its own if that is larger.
pub proof fn alignment_fills_the_width(s: Seq<char>, width: int)
    requires
        width >= 0,
    ensures
        left_aligned(s, width).len() == right_aligned(s, width).len(),
        s.len() <= width ==> left_aligned(s, width).len() == width,
        s.len() >= width ==> left_aligned(s, width) == s && right_aligned(s, width) == s,
{
    if s.len() >= width {
        assert(left_aligned(s, width) =~= s);
        assert(right_aligned(s, width) =~= s);
    }
}

/// Decimal text has no leading zero: only 0 itself starts with one.
pub proof fn decimals_have_no_leading_zero(n: int)
    requires
        n >= 0,
    ensures
        decimal(n).len() > 0,
        decimal(n)[0] == '0' <==> n == 0,
        n == 0 ==> decimal(n).len() == 1,
    decreases n,
{
    if n >= 10 {
        decimals_have_no_leading_zero(n / 10);
        assert(decimal(n)[0] == decimal(n / 10)[0]);
    }
}

/// A signed number is its size in decimal, behind a minus sign if it is negative.
pub proof fn signs_stand_in_front(n: int)
    ensures
        n >= 0 ==> signed_decimal(n) == decimal(n),
        n < 0 ==> signed_decimal(n).len() > 0 && signed_decimal(n)[0] == '-' && signed_decimal(
            n,
        ).skip(1) == decimal(-n),
{
    if n < 0 {
        assert(signed_decimal(n).skip(1) =~= decimal(-n));
    }
}

/// Aligned text is the text with spaces behind it, or in front of it.
pub proof fn alignment_adds_spaces(s: Seq<char>, width: int, i: int)
    requires
        width >= s.len(),
        0 <= i < width,
    ensures
        left_aligned(s, width)[i] == if i < s.len() {
            s[i]
        } else {
            ' '
        },
        right_aligned(s, width)[i] == if i < width - s.len() {
            ' '
        } else {
            s[i - (width - s.len())]
        },
{
}

/// Pieces of text, one after the other.
pub open spec fn strung(pieces: Seq<Seq<char>>) -> Seq<char>
    decreases pieces.len(),
{
    if pieces.len() == 0 {
        Seq::empty()
    } else {
        strung(pieces.drop_last()) + pieces.last()
    }
}

/// Whether text holds a part.
pub open spec fn holds_part(text: Seq<char>, part: Seq<char>) -> bool {
    exists|before: Seq<char>, after: Seq<char>| text == #[trigger] (before + part + after)
}

/// One more piece is appended to the text.
pub proof fn strung_push(pieces: Seq<Seq<char>>, piece: Seq<char>)
    ensures
        strung(pieces.push(piece)) == strung(pieces) + piece,
{
    assert(pieces.push(piece).drop_last() =~= pieces);
}

/// Three pieces in a row stand in the text as they follow each other.
pub proof fn strung_holds_neighbours(pieces: Seq<Seq<char>>, i: int)
    requires
        0 <= i < pieces.len() - 2,
    ensures
        holds_part(strung(pieces), pieces[i] + pieces[i + 1] + pieces[i + 2]),
    decreases pieces.len(),
{
    let part = pieces[i] + pieces[i + 1] + pieces[i + 2];
    let front = pieces.drop_last();
    if i == pieces.len() - 3 {
        reveal_with_fuel(strung, 4);
        let before = strung(front.drop_last().drop_last());
        assert(strung(pieces) =~= before + part + Seq::empty());
    } else {
        strung_holds_neighbours(front, i);
        let (before, after) = choose|before: Seq<char>, after: Seq<char>|
            strung(front) == #[trigger] (before + part + after);
        assert(strung(pieces) =~= before + part + (after + pieces.last()));
    }
}

} // verus!
