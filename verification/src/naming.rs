//! Segment file naming: a location template holds the placeholder `%05d`,
//! which is replaced by the segment's sequence number, written in decimal and
//! padded with zeros to five digits.

use vstd::prelude::*;
use vstd::string::*;

verus! {

/// The number of digits a sequence number is padded to.
pub const SEQUENCE_WIDTH: usize = 5;

/// The placeholder of a location template, as characters.
pub open spec fn placeholder() -> Seq<char> {
    seq!['%', '0', '5', 'd']
}

/// The character of one decimal digit.
pub open spec fn digit_char(d: nat) -> char
    recommends
        d < 10,
{
    if d == 0 {
        '0'
    } else if d == 1 {
        '1'
    } else if d == 2 {
        '2'
    } else if d == 3 {
        '3'
    } else if d == 4 {
        '4'
    } else if d == 5 {
        '5'
    } else if d == 6 {
        '6'
    } else if d == 7 {
        '7'
    } else if d == 8 {
        '8'
    } else {
        '9'
    }
}

/// A number in decimal, most significant digit first, without leading zeros
/// (zero itself is the single digit `0`).
pub open spec fn decimal(n: nat) -> Seq<char>
    decreases n,
{
    if n < 10 {
        seq![digit_char(n)]
    } else {
        decimal(n / 10).push(digit_char(n % 10))
    }
}

/// `count` zeros.
pub open spec fn zeros(count: nat) -> Seq<char> {
    Seq::new(count, |i: int| '0')
}

/// A number in decimal, padded on the left with zeros to at least `width`
/// digits. A number with more digits than `width` keeps them all.
pub open spec fn zero_padded(n: nat, width: nat) -> Seq<char> {
    let digits = decimal(n);
    if digits.len() >= width {
        digits
    } else {
        zeros((width - digits.len()) as nat) + digits
    }
}

/// Whether the placeholder stands in `text` at position `at`.
pub open spec fn placeholder_at(text: Seq<char>, at: int) -> bool {
    &&& 0 <= at
    &&& at + 4 <= text.len()
    &&& text[at] == '%'
    &&& text[at + 1] == '0'
    &&& text[at + 2] == '5'
    &&& text[at + 3] == 'd'
}

/// `text` from position `from` on, with every occurrence of the placeholder
/// replaced by `with`. Occurrences are found from left to right and do not
/// overlap.
pub open spec fn substituted_from(text: Seq<char>, from: int, with: Seq<char>) -> Seq<char>
    decreases text.len() - from,
{
    if from < 0 || from >= text.len() {
        Seq::<char>::empty()
    } else if placeholder_at(text, from) {
        with + substituted_from(text, from + 4, with)
    } else {
        seq![text[from]] + substituted_from(text, from + 1, with)
    }
}

/// The path of the segment with number `sequence` under `template`: every
/// placeholder replaced by the zero-padded number. A template without a
/// placeholder is its own path.
pub open spec fn segment_path(template: Seq<char>, sequence: nat) -> Seq<char> {
    substituted_from(template, 0, zero_padded(sequence, SEQUENCE_WIDTH as nat))
}

/// The value of a decimal digit; a character that is no digit counts as
/// zero.
pub open spec fn digit_value(c: char) -> nat {
    if c == '1' {
        1
    } else if c == '2' {
        2
    } else if c == '3' {
        3
    } else if c == '4' {
        4
    } else if c == '5' {
        5
    } else if c == '6' {
        6
    } else if c == '7' {
        7
    } else if c == '8' {
        8
    } else if c == '9' {
        9
    } else {
        0
    }
}

/// The number that a sequence of decimal digits writes, most significant
/// digit first.
pub open spec fn decimal_value(digits: Seq<char>) -> nat
    decreases digits.len(),
{
    if digits.len() == 0 {
        0
    } else {
        decimal_value(digits.drop_last()) * 10 + digit_value(digits.last())
    }
}

/// The digits written for a number write that number: nothing is cut off.
/// They begin with a zero only for zero itself.
pub proof fn lemma_decimal_value(n: nat)
    ensures
        decimal_value(decimal(n)) == n,
        decimal(n).len() >= 1,
        n > 0 ==> decimal(n)[0] != '0',
    decreases n,
{
    if n < 10 {
        assert(decimal(n).drop_last() =~= Seq::<char>::empty());
        assert(decimal_value(decimal(n).drop_last()) == 0);
    } else {
        lemma_decimal_value(n / 10);
        assert(decimal(n).drop_last() =~= decimal(n / 10));
    }
}

/// Zeros in front of digits do not change the number written.
pub proof fn lemma_leading_zeros(count: nat, digits: Seq<char>)
    ensures
        decimal_value(zeros(count) + digits) == decimal_value(digits),
    decreases digits.len(), count,
{
    let all = zeros(count) + digits;
    if digits.len() > 0 {
        lemma_leading_zeros(count, digits.drop_last());
        assert(all.drop_last() =~= zeros(count) + digits.drop_last());
    } else if count > 0 {
        lemma_leading_zeros((count - 1) as nat, digits);
        assert(all.drop_last() =~= zeros((count - 1) as nat) + digits);
    } else {
        assert(all =~= digits);
    }
}

/// A padded number writes the same number, in at least `width` digits and
/// in no more than the number needs where that is more.
pub proof fn lemma_zero_padded_value(n: nat, width: nat)
    ensures
        decimal_value(zero_padded(n, width)) == n,
        zero_padded(n, width).len() == if decimal(n).len() >= width {
            decimal(n).len()
        } else {
            width
        },
{
    lemma_decimal_value(n);
    if decimal(n).len() < width {
        lemma_leading_zeros((width - decimal(n).len()) as nat, decimal(n));
    }
}

/// Text without any placeholder from `from` on stays as it is.
pub proof fn lemma_no_placeholder_unchanged(text: Seq<char>, from: int, with: Seq<char>)
    requires
        0 <= from <= text.len(),
        forall|i: int| from <= i < text.len() ==> !placeholder_at(text, i),
    ensures
        substituted_from(text, from, with) == text.subrange(from, text.len() as int),
    decreases text.len() - from,
{
    if from < text.len() {
        lemma_no_placeholder_unchanged(text, from + 1, with);
        assert(text.subrange(from, text.len() as int) =~= seq![text[from]] + text.subrange(
            from + 1,
            text.len() as int,
        ));
    } else {
        assert(text.subrange(from, text.len() as int) =~= Seq::<char>::empty());
    }
}

/// A template without a placeholder is the path of every segment.
pub proof fn lemma_template_without_placeholder(template: Seq<char>, sequence: nat)
    requires
        forall|i: int| 0 <= i < template.len() ==> !placeholder_at(template, i),
    ensures
        segment_path(template, sequence) == template,
{
    lemma_no_placeholder_unchanged(
        template,
        0,
        zero_padded(sequence, SEQUENCE_WIDTH as nat),
    );
    assert(template.subrange(0, template.len() as int) =~= template);
}

/// A template that is nothing but the placeholder gives the padded number.
pub proof fn lemma_bare_placeholder(sequence: nat)
    ensures
        segment_path(placeholder(), sequence) == zero_padded(sequence, SEQUENCE_WIDTH as nat),
{
    let with = zero_padded(sequence, SEQUENCE_WIDTH as nat);
    assert(placeholder_at(placeholder(), 0));
    assert(substituted_from(placeholder(), 4, with) =~= Seq::<char>::empty());
    assert(with + Seq::<char>::empty() =~= with);
}

/// The one-character string of a decimal digit.
fn digit_str(d: u64) -> (s: &'static str)
    requires
        d < 10,
    ensures
        s@ == seq![digit_char(d as nat)],
{
    proof {
        reveal_strlit("0");
        reveal_strlit("1");
        reveal_strlit("2");
        reveal_strlit("3");
        reveal_strlit("4");
        reveal_strlit("5");
        reveal_strlit("6");
        reveal_strlit("7");
        reveal_strlit("8");
        reveal_strlit("9");
    }
    let s: &'static str = if d == 0 {
        "0"
    } else if d == 1 {
        "1"
    } else if d == 2 {
        "2"
    } else if d == 3 {
        "3"
    } else if d == 4 {
        "4"
    } else if d == 5 {
        "5"
    } else if d == 6 {
        "6"
    } else if d == 7 {
        "7"
    } else if d == 8 {
        "8"
    } else {
        "9"
    };
    assert(s@ =~= seq![digit_char(d as nat)]);
    s
}

/// Writes `n` in decimal.
pub fn decimal_string(n: u64) -> (s: String)
    ensures
        s@ == decimal(n as nat),
    decreases n,
{
    if n < 10 {
        String::from_str(digit_str(n))
    } else {
        let mut s = decimal_string(n / 10);
        s.append(digit_str(n % 10));
        assert(s@ =~= decimal(n as nat));
        s
    }
}

/// Writes `n` in decimal, padded on the left with zeros to `width` digits.
pub fn zero_padded_string(n: u64, width: usize) -> (s: String)
    ensures
        s@ == zero_padded(n as nat, width as nat),
{
    let digits = decimal_string(n);
    let len: usize = digits.as_str().unicode_len();
    if len >= width {
        digits
    } else {
        let missing: usize = width - len;
        let mut s = String::new();
        let mut k: usize = 0;
        while k < missing
            invariant
                k <= missing,
                s@ == zeros(k as nat),
            decreases missing - k,
        {
            proof {
                reveal_strlit("0");
            }
            s.append("0");
            k = k + 1;
            assert(s@ =~= zeros(k as nat));
        }
        s.append(digits.as_str());
        s
    }
}

/// Replaces every placeholder of `template` by `with`.
pub fn substitute(template: &str, with: &str) -> (out: String)
    ensures
        out@ == substituted_from(template@, 0, with@),
{
    let n: usize = template.unicode_len();
    let mut out = String::new();
    let mut i: usize = 0;
    while i < n
        invariant
            n == template@.len(),
            i <= n,
            out@ + substituted_from(template@, i as int, with@) == substituted_from(
                template@,
                0,
                with@,
            ),
        decreases n - i,
    {
        let ghost before = out@;
        if n - i >= 4 && template.get_char(i) == '%' && template.get_char(i + 1) == '0'
            && template.get_char(i + 2) == '5' && template.get_char(i + 3) == 'd' {
            assert(placeholder_at(template@, i as int));
            out.append(with);
            assert(out@ + substituted_from(template@, i + 4, with@) =~= before + substituted_from(
                template@,
                i as int,
                with@,
            ));
            i = i + 4;
        } else {
            assert(!placeholder_at(template@, i as int));
            out.append(template.substring_char(i, i + 1));
            assert(template@.subrange(i as int, i + 1) =~= seq![template@[i as int]]);
            assert(out@ + substituted_from(template@, i + 1, with@) =~= before + substituted_from(
                template@,
                i as int,
                with@,
            ));
            i = i + 1;
        }
    }
    assert(substituted_from(template@, n as int, with@) =~= Seq::<char>::empty());
    assert(out@ =~= out@ + Seq::<char>::empty());
    out
}

/// The path of the segment with number `sequence` under `template`.
pub fn segment_name(template: &str, sequence: u64) -> (path: String)
    ensures
        path@ == segment_path(template@, sequence as nat),
{
    let number = zero_padded_string(sequence, SEQUENCE_WIDTH);
    substitute(template, number.as_str())
}

} // verus!
