//! The protocol formatter: turns a command into the exact pipe-separated
//! string the fiscal register expects.

use vstd::prelude::*;
use vstd::string::StringExecFns;
use crate::command::{CashierCommand, CommandView, payment_code};
use crate::decimal::{
    dec_of_int, dec_of_nat, dec_string_i32, dec_string_u64, is_digit_char, lemma_dec_all_digits,
    lemma_dec_round_trip, parse_dec,
};

verus! {

/// Footer lines joined for the wire: each line preceded by the field
/// separator, in original order.
pub open spec fn joined_lines(lines: Seq<Seq<char>>) -> Seq<char>
    decreases lines.len(),
{
    if lines.len() == 0 {
        Seq::empty()
    } else {
        joined_lines(lines.drop_last()) + seq!['|'] + lines.last()
    }
}

/// The footnote segment: the decimal count of footer lines, then each
/// line preceded by `|`.
pub open spec fn footnote_segment(lines: Seq<Seq<char>>) -> Seq<char> {
    dec_of_nat(lines.len()) + joined_lines(lines)
}

/// The full command string: fixed vendor/model and command tokens, two
/// empty fields, the footnote segment, two empty fields, an empty quoted
/// field, the literal `1`, the fixed label, the field code `8`, the total
/// price in decimal, two empty fields, and the payment code.
pub open spec fn format_spec(c: CommandView) -> Seq<char> {
    "fiscat/AEE|SLD|||"@ + footnote_segment(c.footnote) + "|||\"\"|1|Tételek|8|"@ + dec_of_int(
        c.total_price,
    ) + "|||"@ + payment_code(c.payment_kind)
}

/// Formats a command for the register. Deterministic: the result is a
/// function of the command's value alone, pinned to `format_spec`.
pub fn format_command(c: &CashierCommand) -> (r: String)
    ensures
        r@ == format_spec(c@),
{
    let ghost lines = c.footnote.deep_view();
    let mut out = String::from_str("fiscat/AEE|SLD|||");
    let count = dec_string_u64(c.footnote.len() as u64);
    out.append(count.as_str());
    let mut i: usize = 0;
    while i < c.footnote.len()
        invariant
            i <= c.footnote.len(),
            lines == c.footnote.deep_view(),
            out@ == "fiscat/AEE|SLD|||"@ + dec_of_nat(lines.len()) + joined_lines(
                lines.take(i as int),
            ),
        decreases c.footnote.len() - i,
    {
        out.append("|");
        out.append(c.footnote[i].as_str());
        proof {
            reveal_strlit("|");
            assert(lines.take(i + 1 as int).drop_last() =~= lines.take(i as int));
            assert(lines.take(i + 1 as int).last() == lines[i as int]);
            assert(out@ =~= "fiscat/AEE|SLD|||"@ + dec_of_nat(lines.len()) + joined_lines(
                lines.take(i + 1 as int),
            ));
        }
        i = i + 1;
    }
    proof {
        assert(lines.take(lines.len() as int) =~= lines);
    }
    out.append("|||\"\"|1|Tételek|8|");
    let price = dec_string_i32(c.total_price);
    out.append(price.as_str());
    out.append("|||");
    out.append(c.payment_kind.to_code_str());
    proof {
        assert(out@ =~= format_spec(c@));
    }
    out
}

/// Formatting is deterministic: two commands with the same value format
/// to the identical string, since the result is a function of the
/// command's value alone.
pub proof fn lemma_format_deterministic(a: CommandView, b: CommandView)
    requires
        a == b,
    ensures
        format_spec(a) == format_spec(b),
{
}

/// How many times a character occurs in a sequence.
pub open spec fn count_char(s: Seq<char>, c: char) -> nat
    decreases s.len(),
{
    if s.len() == 0 {
        0
    } else {
        count_char(s.drop_last(), c) + if s.last() == c {
            1nat
        } else {
            0nat
        }
    }
}

/// The length of the longest prefix made of decimal digit characters.
pub open spec fn digit_prefix_len(s: Seq<char>) -> nat
    decreases s.len(),
{
    if s.len() > 0 && is_digit_char(s[0]) {
        1 + digit_prefix_len(s.drop_first())
    } else {
        0
    }
}

proof fn lemma_count_char_concat(x: Seq<char>, y: Seq<char>, c: char)
    ensures
        count_char(x + y, c) == count_char(x, c) + count_char(y, c),
    decreases y.len(),
{
    if y.len() == 0 {
        assert(x + y =~= x);
    } else {
        lemma_count_char_concat(x, y.drop_last(), c);
        assert((x + y).drop_last() =~= x + y.drop_last());
        assert((x + y).last() == y.last());
    }
}

proof fn lemma_count_char_absent(s: Seq<char>, c: char)
    requires
        !s.contains(c),
    ensures
        count_char(s, c) == 0,
    decreases s.len(),
{
    if s.len() > 0 {
        assert(!s.drop_last().contains(c)) by {
            if s.drop_last().contains(c) {
                let i = choose|i: int| 0 <= i < s.drop_last().len() && s.drop_last()[i] == c;
                assert(s[i] == c);
            }
        }
        lemma_count_char_absent(s.drop_last(), c);
        assert(s.last() != c) by {
            assert(s[s.len() - 1] == s.last());
        }
    }
}

/// Joined footer lines hold exactly one separator per line, when no line
/// holds the separator itself.
proof fn lemma_joined_separator_count(lines: Seq<Seq<char>>)
    requires
        forall|i: int| 0 <= i < lines.len() ==> !(#[trigger] lines[i]).contains('|'),
    ensures
        count_char(joined_lines(lines), '|') == lines.len(),
    decreases lines.len(),
{
    if lines.len() > 0 {
        lemma_joined_separator_count(lines.drop_last());
        lemma_count_char_concat(joined_lines(lines.drop_last()), seq!['|'], '|');
        lemma_count_char_concat(joined_lines(lines.drop_last()) + seq!['|'], lines.last(), '|');
        assert(count_char(seq!['|'], '|') == 1) by {
            assert(seq!['|'].drop_last() =~= Seq::<char>::empty());
            assert(count_char(Seq::<char>::empty(), '|') == 0);
            assert(seq!['|'].last() == '|');
        }
        assert(lines.last() == lines[lines.len() - 1]);
        lemma_count_char_absent(lines.last(), '|');
    }
}

/// A non-empty joined-lines sequence starts with the separator.
proof fn lemma_joined_first(lines: Seq<Seq<char>>)
    ensures
        lines.len() > 0 ==> joined_lines(lines).len() > 0 && joined_lines(lines)[0] == '|',
    decreases lines.len(),
{
    if lines.len() > 0 {
        lemma_joined_first(lines.drop_last());
        let head = joined_lines(lines.drop_last());
        assert(joined_lines(lines) == head + seq!['|'] + lines.last());
        if lines.drop_last().len() > 0 {
            assert(joined_lines(lines)[0] == head[0]);
        } else {
            assert(head =~= Seq::<char>::empty());
            assert(joined_lines(lines)[0] == seq!['|'][0]);
        }
    }
}

/// The digit prefix of digits followed by a non-digit (or nothing) is
/// exactly the digits.
proof fn lemma_digit_prefix_of_concat(a: Seq<char>, b: Seq<char>)
    requires
        forall|i: int| 0 <= i < a.len() ==> is_digit_char(#[trigger] a[i]),
        b.len() == 0 || !is_digit_char(b[0]),
    ensures
        digit_prefix_len(a + b) == a.len(),
    decreases a.len(),
{
    if a.len() == 0 {
        assert(a + b =~= b);
    } else {
        assert((a + b)[0] == a[0]);
        assert((a + b).drop_first() =~= a.drop_first() + b);
        assert(forall|i: int|
            0 <= i < a.drop_first().len() ==> is_digit_char(#[trigger] a.drop_first()[i]));
        lemma_digit_prefix_of_concat(a.drop_first(), b);
    }
}

/// The count in the footnote segment is honest: for any footer whose
/// lines avoid the separator character, the digit prefix of the segment
/// parses back to exactly the number of separator-introduced line fields
/// that follow it — for any footer length, including zero.
pub proof fn lemma_footnote_count_round_trip(lines: Seq<Seq<char>>)
    requires
        forall|i: int| 0 <= i < lines.len() ==> !(#[trigger] lines[i]).contains('|'),
    ensures
        ({
            let seg = footnote_segment(lines);
            let p = digit_prefix_len(seg) as int;
            &&& 0 <= p <= seg.len()
            &&& parse_dec(seg.take(p)) == lines.len()
            &&& count_char(seg.skip(p), '|') == lines.len()
        }),
{
    let dec = dec_of_nat(lines.len());
    let rest = joined_lines(lines);
    let seg = footnote_segment(lines);
    lemma_dec_all_digits(lines.len());
    lemma_joined_first(lines);
    if lines.len() == 0 {
        assert(rest =~= Seq::<char>::empty());
    }
    assert(!is_digit_char('|'));
    lemma_digit_prefix_of_concat(dec, rest);
    let p = digit_prefix_len(seg) as int;
    assert(p == dec.len());
    assert(seg.take(p) =~= dec);
    assert(seg.skip(p) =~= rest);
    lemma_dec_round_trip(lines.len());
    lemma_joined_separator_count(lines);
}

} // verus!
