//! What the numbering, headings, code blocks, tables and reference links are
//! for, stated over all inputs in terms that do not repeat their definitions.
use vstd::prelude::*;

use crate::links::lookup;
use crate::spec::{
    column_widths, heading_text, nl, plain_code_lines, row_text, table_lines, ANSI_BOLD_OFF,
    ANSI_BOLD_ON, ANSI_FG_CODE, ANSI_FG_RESET,
};
use crate::laws::law_split_then_join;
use crate::text::{decimal, digit_char, join, lemma_split_on_nonempty, lines_of, split_on, strip_cr};

verus! {

// ---------------------------------------------------------------------------
// Decimal numerals
// ---------------------------------------------------------------------------

/// Whether `c` is one of the digits `0` to `9`.
pub open spec fn is_digit(c: char) -> bool {
    '0' <= c && c <= '9'
}

/// The number that a string of decimal digits writes, most significant first.
pub open spec fn digits_value(s: Seq<char>) -> int
    decreases s.len(),
{
    if s.len() == 0 {
        0
    } else {
        digits_value(s.drop_last()) * 10 + (s.last() as int - '0' as int)
    }
}

proof fn lemma_digit_char(d: nat)
    requires
        d < 10,
    ensures
        is_digit(digit_char(d)),
        digit_char(d) as int - '0' as int == d,
        digit_char(d) == '0' <==> d == 0,
{
    assert((48 + d) as u8 == 48 + d);
}

/// The decimal numeral of a number writes that number: it is made of digits,
/// their value is the number, and it has no leading zero (but for zero
/// itself).
pub proof fn law_decimal_is_the_numeral(n: nat)
    ensures
        decimal(n).len() >= 1,
        forall|i: int| 0 <= i < decimal(n).len() ==> is_digit(#[trigger] decimal(n)[i]),
        digits_value(decimal(n)) == n,
        decimal(n)[0] == '0' ==> n == 0,
    decreases n,
{
    if n < 10 {
        lemma_digit_char(n);
        assert(seq![digit_char(n)].drop_last() =~= Seq::<char>::empty());
        assert(digits_value(Seq::<char>::empty()) == 0);
        assert(digits_value(seq![digit_char(n)]) == n);
    } else {
        let m = n / 10;
        let d = n % 10;
        law_decimal_is_the_numeral(m);
        lemma_digit_char(d);
        let s = decimal(m).push(digit_char(d));
        assert(s.drop_last() =~= decimal(m));
        assert forall|i: int| 0 <= i < s.len() implies is_digit(#[trigger] s[i]) by {
            if i < decimal(m).len() {
                assert(s[i] == decimal(m)[i]);
            }
        }
        assert(n == 10 * m + d) by {
            vstd::arithmetic::div_mod::lemma_fundamental_div_mod(n as int, 10);
        }
        assert(s[0] == decimal(m)[0]);
        assert(s.last() == digit_char(d));
        assert(digits_value(s) == digits_value(decimal(m)) * 10 + (digit_char(d) as int - '0' as int));
        assert(digits_value(s) == m * 10 + d);
    }
}

/// Counting up from ten, the numeral gets one digit longer: no number from
/// ten on is written with a single digit.
pub proof fn law_decimal_of_two_digits(n: nat)
    requires
        n >= 10,
    ensures
        decimal(n).len() >= 2,
        decimal(n) == decimal(n / 10).push(digit_char(n % 10)),
{
    law_decimal_is_the_numeral(n / 10);
}

// ---------------------------------------------------------------------------
// Headings
// ---------------------------------------------------------------------------

/// Every heading is bold: its text starts with the bold code, holds the
/// content, and ends the bold style right after the content. A heading of
/// the fourth level or deeper is its content in bold and nothing else.
pub proof fn law_every_heading_is_bold(depth: u8, content: Seq<char>)
    ensures
        heading_text(depth, content).len() >= ANSI_BOLD_ON@.len(),
        heading_text(depth, content).subrange(0, ANSI_BOLD_ON@.len() as int) == ANSI_BOLD_ON@,
        depth != 1 ==> heading_text(depth, content).subrange(
            heading_text(depth, content).len() - content.len() - ANSI_BOLD_OFF@.len(),
            heading_text(depth, content).len() as int,
        ) == content + ANSI_BOLD_OFF@,
        depth == 1 ==> heading_text(depth, content).subrange(
            0,
            (ANSI_BOLD_ON@.len() + content.len() + ANSI_BOLD_OFF@.len() + 1) as int,
        ) == ANSI_BOLD_ON@ + content + ANSI_BOLD_OFF@ + nl(),
        depth >= 4 ==> heading_text(depth, content) == ANSI_BOLD_ON@ + content + ANSI_BOLD_OFF@,
{
    let h = heading_text(depth, content);
    let on = ANSI_BOLD_ON@;
    let off = ANSI_BOLD_OFF@;
    if depth == 1 {
        let head = on + content + off + nl();
        assert(h.subrange(0, head.len() as int) =~= head);
        assert(h.subrange(0, on.len() as int) =~= on);
    } else if depth == 2 {
        assert(h == on + "  ▌ "@ + content + off);
        assert(h.subrange(0, on.len() as int) =~= on);
        assert(h.subrange(h.len() - content.len() - off.len(), h.len() as int) =~= content + off);
    } else if depth == 3 {
        assert(h == on + "  ▪ "@ + content + off);
        assert(h.subrange(0, on.len() as int) =~= on);
        assert(h.subrange(h.len() - content.len() - off.len(), h.len() as int) =~= content + off);
    } else {
        assert(h.subrange(0, on.len() as int) =~= on);
        assert(h.subrange(h.len() - content.len() - off.len(), h.len() as int) =~= content + off);
    }
}

// ---------------------------------------------------------------------------
// Code blocks
// ---------------------------------------------------------------------------

proof fn lemma_split_keeps_out(s: Seq<char>, sep: char, c: char)
    requires
        !s.contains(c),
    ensures
        forall|i: int|
            0 <= i < split_on(s, sep).len() ==> !(#[trigger] split_on(s, sep)[i]).contains(c),
    decreases s.len(),
{
    if s.len() > 0 {
        let rest = s.drop_last();
        assert(!rest.contains(c)) by {
            if rest.contains(c) {
                let k = choose|k: int| 0 <= k < rest.len() && rest[k] == c;
                assert(s[k] == c);
            }
        }
        lemma_split_keeps_out(rest, sep, c);
        lemma_split_on_nonempty(rest, sep);
        let p = split_on(rest, sep);
        assert(s[s.len() - 1] != c);
        assert forall|i: int| 0 <= i < split_on(s, sep).len() implies !(#[trigger] split_on(
            s,
            sep,
        )[i]).contains(c) by {
            let q = split_on(s, sep);
            if i < p.len() - 1 {
                assert(q[i] == p[i]);
            } else if s.last() == sep {
                if i == p.len() - 1 {
                    assert(q[i] == p[i]);
                } else {
                    assert(q[i] =~= Seq::<char>::empty());
                }
            } else {
                assert(q[i] == p.last().push(s.last()));
                if q[i].contains(c) {
                    let k = choose|k: int| 0 <= k < q[i].len() && q[i][k] == c;
                    if k < p.last().len() {
                        assert(p.last()[k] == c);
                        assert(p.last().contains(c));
                    }
                }
            }
        }
    }
}

/// The lines of a text without carriage returns hold no line break, and
/// joined by line breaks they give the text back, less a final line break.
pub proof fn law_lines_give_the_text_back(v: Seq<char>)
    requires
        !v.contains('\r'),
    ensures
        forall|i: int| 0 <= i < lines_of(v).len() ==> !(#[trigger] lines_of(v)[i]).contains('\n'),
        join(lines_of(v), nl()) == (if v.len() > 0 && v.last() == '\n' {
            v.drop_last()
        } else {
            v
        }),
{
    let p = split_on(v, '\n');
    lemma_split_on_nonempty(v, '\n');
    law_split_then_join(v, '\n');
    lemma_split_keeps_out(v, '\n', '\r');
    assert(nl() =~= seq!['\n']) by {
        reveal_strlit("\n");
    }
    assert forall|i: int| 0 <= i < p.len() implies strip_cr(#[trigger] p[i]) == p[i] by {
        if p[i].len() > 0 {
            assert(p[i].contains(p[i].last()) ==> p[i].last() != '\r');
            assert(p[i][p[i].len() - 1] == p[i].last());
        }
    }
    if p.last().len() == 0 {
        assert(lines_of(v) =~= p.drop_last());
        if v.len() > 0 {
            if v.last() != '\n' {
                let q = split_on(v.drop_last(), '\n');
                lemma_split_on_nonempty(v.drop_last(), '\n');
                assert(p.last() == q.last().push(v.last()));
            }
            assert(p.len() >= 2) by {
                let q = split_on(v.drop_last(), '\n');
                lemma_split_on_nonempty(v.drop_last(), '\n');
            }
            assert(join(p, seq!['\n']) == join(p.drop_last(), seq!['\n']) + seq!['\n'] + p.last());
            assert(v =~= join(p.drop_last(), seq!['\n']).push('\n'));
            assert(v.drop_last() =~= join(p.drop_last(), seq!['\n']));
        } else {
            assert(p.len() == 1);
            assert(lines_of(v) =~= Seq::<Seq<char>>::empty());
        }
    } else {
        assert(lines_of(v) =~= p);
        if v.len() > 0 && v.last() == '\n' {
            assert(p.last().len() == 0);
        }
    }
}

/// A plain code block keeps every line of the code, blank ones included, in
/// order, each in the code colour.
pub proof fn law_plain_code_keeps_every_line(value: Seq<char>)
    requires
        value.len() > 0,
    ensures
        plain_code_lines(value).len() == lines_of(value).len(),
        forall|i: int|
            0 <= i < lines_of(value).len() ==> #[trigger] plain_code_lines(value)[i] == ANSI_FG_CODE@
                + lines_of(value)[i] + ANSI_FG_RESET@,
{
}

// ---------------------------------------------------------------------------
// Tables
// ---------------------------------------------------------------------------

/// A table's lines are the top border, the header row, and, where there are
/// more rows, a separator followed by the data rows in document order; then
/// the bottom border.
pub proof fn law_table_rows_in_document_order(rows: Seq<Seq<Seq<char>>>)
    requires
        rows.len() >= 1,
    ensures
        table_lines(rows).len() == (if rows.len() > 1 {
            rows.len() + 3
        } else {
            3
        }),
        table_lines(rows)[1] == row_text(rows[0], column_widths(rows), true),
        forall|k: int|
            1 <= k < rows.len() ==> #[trigger] table_lines(rows)[2 + k] == row_text(
                rows[k],
                column_widths(rows),
                false,
            ),
{
    let w = column_widths(rows);
    if rows.len() > 1 {
        let data = Seq::new((rows.len() - 1) as nat, |k: int| row_text(rows[k + 1], w, false));
        assert forall|k: int| 1 <= k < rows.len() implies #[trigger] table_lines(rows)[2 + k]
            == row_text(rows[k], w, false) by {
            assert(data[k - 1] == row_text(rows[k], w, false));
        }
    }
}

// ---------------------------------------------------------------------------
// Reference definitions
// ---------------------------------------------------------------------------

/// A reference finds a url exactly when some definition has its identifier,
/// wherever that definition stands; the url is that of the last such
/// definition.
pub proof fn law_lookup_finds_any_definition(
    defs: Seq<(Seq<char>, Seq<char>)>,
    identifier: Seq<char>,
)
    ensures
        (exists|i: int| 0 <= i < defs.len() && (#[trigger] defs[i]).0 == identifier) <==> lookup(
            defs,
            identifier,
        ) is Some,
        lookup(defs, identifier) matches Some(url) ==> exists|j: int|
            0 <= j < defs.len() && #[trigger] defs[j] == (identifier, url) && forall|k: int|
                j < k < defs.len() ==> (#[trigger] defs[k]).0 != identifier,
    decreases defs.len(),
{
    if defs.len() > 0 {
        let rest = defs.drop_last();
        law_lookup_finds_any_definition(rest, identifier);
        let last = defs.len() - 1;
        if defs[last].0 == identifier {
            assert(defs[last] == (identifier, defs[last].1));
        } else {
            if exists|i: int| 0 <= i < defs.len() && (#[trigger] defs[i]).0 == identifier {
                let i = choose|i: int| 0 <= i < defs.len() && (#[trigger] defs[i]).0 == identifier;
                assert(rest[i] == defs[i]);
            }
            if lookup(rest, identifier) is Some {
                let i = choose|i: int| 0 <= i < rest.len() && (#[trigger] rest[i]).0 == identifier;
                assert(defs[i] == rest[i]);
                let url = lookup(rest, identifier)->0;
                let j = choose|j: int|
                    0 <= j < rest.len() && #[trigger] rest[j] == (identifier, url) && forall|k: int|
                        j < k < rest.len() ==> (#[trigger] rest[k]).0 != identifier;
                assert(defs[j] == rest[j]);
                assert forall|k: int| j < k < defs.len() implies (#[trigger] defs[k]).0
                    != identifier by {
                    if k < rest.len() {
                        assert(defs[k] == rest[k]);
                    }
                }
            }
        }
    }
}

} // verus!
