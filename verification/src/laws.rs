//! Properties that hold of every input of the renderer.
use vstd::prelude::*;

use crate::links::{
    definitions_each, definitions_of, flat, lemma_children_decrease, lookup, resolve_all,
    replaced, resolve_node, resolved,
};
use crate::spec::{
    blocks_text, border_text, cell_lines, cell_width, column_count, column_width, column_widths,
    all_true, inline_text, link_text, render_all, max_nat, nl, non_blank, padded_cell, render_tree, row_line,
    ANSI_BOLD_OFF, ANSI_BOLD_ON,
    ANSI_FG_CODE, ANSI_FG_LINK, ANSI_FG_RESET, ANSI_ITALIC_OFF, ANSI_ITALIC_ON,
    ANSI_STRIKETHROUGH_OFF, ANSI_STRIKETHROUGH_ON,
};
use crate::text::{
    concat, escape_char, is_ascii_alphabetic, is_blank, join, lemma_split_on_nonempty, repeat, scan,
    scan_step, split_on, visible_width, EscapeState,
};
use crate::highlight::lines_with_endings;
use crate::tree::{children_of, is_parent, with_children, Tree};

verus! {

// ---------------------------------------------------------------------------
// Blocks
// ---------------------------------------------------------------------------

proof fn lemma_non_blank_keeps_all(parts: Seq<Seq<char>>)
    requires
        forall|i: int| 0 <= i < parts.len() ==> !is_blank(#[trigger] parts[i]),
    ensures
        non_blank(parts) == parts,
    decreases parts.len(),
{
    if parts.len() > 0 {
        let rest = parts.drop_last();
        assert forall|i: int| 0 <= i < rest.len() implies !is_blank(#[trigger] rest[i]) by {
            assert(rest[i] == parts[i]);
        }
        lemma_non_blank_keeps_all(rest);
        assert(!is_blank(parts[parts.len() - 1]));
        assert(rest.push(parts.last()) =~= parts);
    }
}

/// Rendered blocks that are not blank stand one after the other, separated
/// by an empty line (by a newline in a compact list item).
pub proof fn law_blocks_separated_by_empty_line(rendered: Seq<Seq<char>>)
    requires
        forall|i: int| 0 <= i < rendered.len() ==> !is_blank(#[trigger] rendered[i]),
    ensures
        blocks_text(rendered, false) == join(rendered, nl() + nl()),
        blocks_text(rendered, true) == join(rendered, nl()),
{
    lemma_non_blank_keeps_all(rendered);
}

/// A block that renders to nothing but whitespace takes no place among the
/// blocks: it adds no separator.
pub proof fn law_blank_block_left_out(rendered: Seq<Seq<char>>, blank: Seq<char>, compact: bool)
    requires
        is_blank(blank),
    ensures
        blocks_text(rendered.push(blank), compact) == blocks_text(rendered, compact),
{
    assert(rendered.push(blank).drop_last() =~= rendered);
}

// ---------------------------------------------------------------------------
// Splitting a cell into lines
// ---------------------------------------------------------------------------

proof fn lemma_join_push(p: Seq<Seq<char>>, x: Seq<char>, sep: Seq<char>)
    requires
        p.len() >= 1,
    ensures
        join(p.push(x), sep) == join(p, sep) + sep + x,
{
    assert(p.push(x).drop_last() =~= p);
}

proof fn lemma_join_extend_last(p: Seq<Seq<char>>, c: char, sep: Seq<char>)
    requires
        p.len() >= 1,
    ensures
        join(p.update(p.len() - 1, p.last().push(c)), sep) == join(p, sep).push(c),
{
    let q = p.update(p.len() - 1, p.last().push(c));
    if p.len() == 1 {
    } else {
        assert(q.drop_last() =~= p.drop_last());
        assert((join(p.drop_last(), sep) + sep + p.last()).push(c) =~= join(p.drop_last(), sep)
            + sep + p.last().push(c));
    }
}

/// Splitting a text at a separator and joining the pieces with it gives the
/// text back, and no piece holds the separator.
pub proof fn law_split_then_join(s: Seq<char>, sep: char)
    ensures
        join(split_on(s, sep), seq![sep]) == s,
        forall|i: int|
            0 <= i < split_on(s, sep).len() ==> !(#[trigger] split_on(s, sep)[i]).contains(sep),
    decreases s.len(),
{
    if s.len() > 0 {
        let rest = s.drop_last();
        law_split_then_join(rest, sep);
        lemma_split_on_nonempty(rest, sep);
        let p = split_on(rest, sep);
        if s.last() == sep {
            lemma_join_push(p, Seq::empty(), seq![sep]);
            assert(rest + seq![sep] + Seq::<char>::empty() =~= s);
            assert forall|i: int|
                0 <= i < split_on(s, sep).len() implies !(#[trigger] split_on(
                s,
                sep,
            )[i]).contains(sep) by {
                if i < p.len() {
                    assert(split_on(s, sep)[i] == p[i]);
                } else {
                    assert(split_on(s, sep)[i] =~= Seq::<char>::empty());
                }
            }
        } else {
            lemma_join_extend_last(p, s.last(), seq![sep]);
            assert(rest.push(s.last()) =~= s);
            assert forall|i: int|
                0 <= i < split_on(s, sep).len() implies !(#[trigger] split_on(
                s,
                sep,
            )[i]).contains(sep) by {
                if i < p.len() - 1 {
                    assert(split_on(s, sep)[i] == p[i]);
                } else {
                    let l = p.last().push(s.last());
                    assert(split_on(s, sep)[i] == l);
                    assert(!p[p.len() - 1].contains(sep));
                    if l.contains(sep) {
                        let k = choose|k: int| 0 <= k < l.len() && l[k] == sep;
                        if k < l.len() - 1 {
                            assert(p.last()[k] == sep);
                        }
                    }
                }
            }
        }
    }
}

// ---------------------------------------------------------------------------
// Visible width
// ---------------------------------------------------------------------------

/// The scan of `s` from the state `st`: the state after it, and the number of
/// visible characters.
pub open spec fn scan_from(st: EscapeState, s: Seq<char>) -> (EscapeState, nat)
    decreases s.len(),
{
    if s.len() == 0 {
        (st, 0)
    } else {
        let (st1, n) = scan_from(st, s.drop_last());
        let (st2, visible) = scan_step(st1, s.last());
        (st2, if visible {
            n + 1
        } else {
            n
        })
    }
}

proof fn lemma_scan_is_scan_from(s: Seq<char>)
    ensures
        scan(s) == scan_from(EscapeState::Text, s),
    decreases s.len(),
{
    if s.len() > 0 {
        lemma_scan_is_scan_from(s.drop_last());
    }
}

proof fn lemma_scan_from_concat(st: EscapeState, a: Seq<char>, b: Seq<char>)
    ensures
        scan_from(st, a + b) == ({
            let (sa, na) = scan_from(st, a);
            let (sb, nb) = scan_from(sa, b);
            (sb, na + nb)
        }),
    decreases b.len(),
{
    if b.len() == 0 {
        assert(a + b =~= a);
    } else {
        lemma_scan_from_concat(st, a, b.drop_last());
        assert((a + b).drop_last() =~= a + b.drop_last());
        assert((a + b).last() == b.last());
    }
}

/// Whether `s` holds no escape character.
pub open spec fn no_escape(s: Seq<char>) -> bool {
    forall|i: int| 0 <= i < s.len() ==> #[trigger] s[i] != escape_char()
}

proof fn lemma_plain_scan(s: Seq<char>)
    requires
        no_escape(s),
    ensures
        scan_from(EscapeState::Text, s) == (EscapeState::Text, s.len()),
    decreases s.len(),
{
    if s.len() > 0 {
        assert(s[s.len() - 1] != escape_char());
        lemma_plain_scan(s.drop_last());
    }
}

/// Whether `s` is a "select graphic rendition" escape sequence: an escape
/// character, `[`, parameters without ASCII letters, and `m`.
pub open spec fn is_sgr(s: Seq<char>) -> bool {
    &&& s.len() >= 3
    &&& s[0] == escape_char()
    &&& s[1] == '['
    &&& s.last() == 'm'
    &&& forall|i: int| 2 <= i < s.len() - 1 ==> !is_ascii_alphabetic(#[trigger] s[i])
}

proof fn lemma_csi_params(p: Seq<char>)
    requires
        forall|i: int| 0 <= i < p.len() ==> !is_ascii_alphabetic(#[trigger] p[i]),
    ensures
        scan_from(EscapeState::Csi, p) == (EscapeState::Csi, 0nat),
    decreases p.len(),
{
    if p.len() > 0 {
        assert(!is_ascii_alphabetic(p[p.len() - 1]));
        lemma_csi_params(p.drop_last());
    }
}

/// Whether `s` is a complete control sequence: an escape character, `[`,
/// parameters without ASCII letters, and a final ASCII letter.
pub open spec fn is_csi(s: Seq<char>) -> bool {
    &&& s.len() >= 3
    &&& s[0] == escape_char()
    &&& s[1] == '['
    &&& is_ascii_alphabetic(s.last())
    &&& forall|i: int| 2 <= i < s.len() - 1 ==> !is_ascii_alphabetic(#[trigger] s[i])
}

/// Whether `q` may stand inside an operating system command: no escape
/// character and no bell.
pub open spec fn osc_body(q: Seq<char>) -> bool {
    forall|i: int| 0 <= i < q.len() ==> #[trigger] q[i] != escape_char() && q[i] != '\x07'
}

/// Whether `s` is a complete operating system command: an escape character,
/// `]`, a body, and a bell or an escape character followed by `\`.
pub open spec fn is_osc(s: Seq<char>) -> bool {
    &&& s.len() >= 3
    &&& s[0] == escape_char()
    &&& s[1] == ']'
    &&& ((s.last() == '\x07' && osc_body(s.subrange(2, s.len() - 1))) || (s.len() >= 4
        && s[s.len() - 2] == escape_char() && s.last() == '\\' && osc_body(
        s.subrange(2, s.len() - 2),
    )))
}

proof fn lemma_scan_two(st: EscapeState, x: char, y: char)
    ensures
        scan_from(st, seq![x, y]) == ({
            let (s1, v1) = scan_step(st, x);
            let (s2, v2) = scan_step(s1, y);
            (s2, (if v1 { 1nat } else { 0nat }) + (if v2 { 1nat } else { 0nat }))
        }),
{
    reveal_with_fuel(scan_from, 3);
    assert(seq![x, y].drop_last() =~= seq![x]);
    assert(seq![x].drop_last() =~= Seq::<char>::empty());
}

proof fn lemma_scan_one(st: EscapeState, x: char)
    ensures
        scan_from(st, seq![x]) == ({
            let (s1, v1) = scan_step(st, x);
            (s1, if v1 { 1nat } else { 0nat })
        }),
{
    reveal_with_fuel(scan_from, 2);
    assert(seq![x].drop_last() =~= Seq::<char>::empty());
}

proof fn lemma_csi_scan(s: Seq<char>)
    requires
        is_csi(s),
    ensures
        scan_from(EscapeState::Text, s) == (EscapeState::Text, 0nat),
{
    let head = s.subrange(0, 2);
    let params = s.subrange(2, s.len() - 1);
    let tail = seq![s.last()];
    assert(s =~= head + params + tail);
    assert(head =~= seq![escape_char(), '[']);
    lemma_scan_two(EscapeState::Text, escape_char(), '[');
    lemma_scan_one(EscapeState::Csi, s.last());
    lemma_csi_params(params);
    lemma_scan_from_concat(EscapeState::Text, head, params);
    lemma_scan_from_concat(EscapeState::Text, head + params, tail);
}

proof fn lemma_sgr_scan(s: Seq<char>)
    requires
        is_sgr(s),
    ensures
        scan_from(EscapeState::Text, s) == (EscapeState::Text, 0nat),
{
    assert(is_ascii_alphabetic('m'));
    lemma_csi_scan(s);
}

proof fn lemma_osc_body_scan(q: Seq<char>)
    requires
        osc_body(q),
    ensures
        scan_from(EscapeState::Osc, q) == (EscapeState::Osc, 0nat),
    decreases q.len(),
{
    if q.len() > 0 {
        assert(q[q.len() - 1] != escape_char() && q[q.len() - 1] != '\x07');
        let r = q.drop_last();
        assert forall|i: int| 0 <= i < r.len() implies #[trigger] r[i] != escape_char() && r[i]
            != '\x07' by {
            assert(r[i] == q[i]);
        }
        lemma_osc_body_scan(r);
    }
}

proof fn lemma_osc_scan(s: Seq<char>)
    requires
        is_osc(s),
    ensures
        scan_from(EscapeState::Text, s) == (EscapeState::Text, 0nat),
{
    let head = s.subrange(0, 2);
    assert(head =~= seq![escape_char(), ']']);
    lemma_scan_two(EscapeState::Text, escape_char(), ']');
    if s.last() == '\x07' && osc_body(s.subrange(2, s.len() - 1)) {
        let body = s.subrange(2, s.len() - 1);
        let tail = seq!['\x07'];
        assert(s =~= head + body + tail);
        lemma_osc_body_scan(body);
        lemma_scan_one(EscapeState::Osc, '\x07');
        lemma_scan_from_concat(EscapeState::Text, head, body);
        lemma_scan_from_concat(EscapeState::Text, head + body, tail);
    } else {
        let body = s.subrange(2, s.len() - 2);
        let tail = seq![escape_char(), '\\'];
        assert(s =~= head + body + tail);
        lemma_osc_body_scan(body);
        lemma_scan_two(EscapeState::Osc, escape_char(), '\\');
        lemma_scan_from_concat(EscapeState::Text, head, body);
        lemma_scan_from_concat(EscapeState::Text, head + body, tail);
    }
}

/// Text without escape characters is as wide as it is long.
pub proof fn law_plain_text_width(s: Seq<char>)
    requires
        no_escape(s),
    ensures
        visible_width(s) == s.len(),
{
    lemma_scan_is_scan_from(s);
    lemma_plain_scan(s);
}

/// Styling text without escape characters between two graphic-rendition
/// codes leaves its width as it is: the codes take no room.
pub proof fn law_styling_takes_no_width(on: Seq<char>, s: Seq<char>, off: Seq<char>)
    requires
        is_sgr(on),
        is_sgr(off),
        no_escape(s),
    ensures
        visible_width(on + s + off) == s.len(),
{
    lemma_scan_is_scan_from(on + s + off);
    lemma_sgr_scan(on);
    lemma_sgr_scan(off);
    lemma_plain_scan(s);
    lemma_scan_from_concat(EscapeState::Text, on, s);
    lemma_scan_from_concat(EscapeState::Text, on + s, off);
}

/// A complete control sequence or operating system command between two
/// texts without escape characters takes no room: the width is that of the
/// two texts.
pub proof fn law_escape_sequence_takes_no_width(a: Seq<char>, e: Seq<char>, b: Seq<char>)
    requires
        no_escape(a),
        no_escape(b),
        is_csi(e) || is_osc(e),
    ensures
        visible_width(a + e + b) == a.len() + b.len(),
{
    lemma_scan_is_scan_from(a + e + b);
    lemma_plain_scan(a);
    lemma_plain_scan(b);
    if is_csi(e) {
        lemma_csi_scan(e);
    } else {
        lemma_osc_scan(e);
    }
    lemma_scan_from_concat(EscapeState::Text, a, e);
    lemma_scan_from_concat(EscapeState::Text, a + e, b);
}

/// The styles the renderer writes are graphic-rendition codes.
pub proof fn law_styles_are_sgr()
    ensures
        is_sgr(ANSI_BOLD_ON@),
        is_sgr(ANSI_BOLD_OFF@),
        is_sgr(ANSI_ITALIC_ON@),
        is_sgr(ANSI_ITALIC_OFF@),
        is_sgr(ANSI_STRIKETHROUGH_ON@),
        is_sgr(ANSI_STRIKETHROUGH_OFF@),
        is_sgr(ANSI_FG_CODE@),
        is_sgr(ANSI_FG_LINK@),
        is_sgr(ANSI_FG_RESET@),
{
    reveal_strlit("\x1b[1m");
    reveal_strlit("\x1b[22m");
    reveal_strlit("\x1b[3m");
    reveal_strlit("\x1b[23m");
    reveal_strlit("\x1b[9m");
    reveal_strlit("\x1b[29m");
    reveal_strlit("\x1b[38;5;245m");
    reveal_strlit("\x1b[4;34m");
    reveal_strlit("\x1b[39;24m");
}

/// The number of characters of `s` that a terminal shows: escape codes
/// take no room, so a line is never wider than it is long.
pub proof fn law_width_at_most_length(s: Seq<char>)
    ensures
        visible_width(s) <= s.len(),
{
    crate::text::lemma_visible_width_bound(s);
}

// ---------------------------------------------------------------------------
// Tables
// ---------------------------------------------------------------------------

/// Whether every escape sequence that `s` opens is closed within it.
pub open spec fn ends_plain(s: Seq<char>) -> bool {
    scan_from(EscapeState::Text, s).0 == EscapeState::Text
}

proof fn lemma_concat_plain(a: Seq<char>, b: Seq<char>)
    requires
        ends_plain(a),
        ends_plain(b),
    ensures
        ends_plain(a + b),
        scan_from(EscapeState::Text, a + b).1 == scan_from(EscapeState::Text, a).1 + scan_from(
            EscapeState::Text,
            b,
        ).1,
{
    lemma_scan_from_concat(EscapeState::Text, a, b);
}

proof fn lemma_repeat_plain(c: char, n: nat)
    requires
        c != escape_char(),
    ensures
        ends_plain(repeat(seq![c], n)),
        scan_from(EscapeState::Text, repeat(seq![c], n)).1 == n,
    decreases n,
{
    lemma_plain_scan(seq![c]);
    if n > 0 {
        lemma_repeat_plain(c, (n - 1) as nat);
        lemma_concat_plain(repeat(seq![c], (n - 1) as nat), seq![c]);
    } else {
        assert(repeat(seq![c], n) =~= Seq::<char>::empty());
    }
}

proof fn lemma_single_plain(c: char)
    requires
        c != escape_char(),
    ensures
        ends_plain(seq![c]),
        scan_from(EscapeState::Text, seq![c]).1 == 1,
{
    lemma_plain_scan(seq![c]);
}

/// Two joins whose parts and separators are as wide as each other, and close
/// their escape sequences, are as wide as each other.
proof fn lemma_join_same_width(
    p: Seq<Seq<char>>,
    q: Seq<Seq<char>>,
    sp: Seq<char>,
    sq: Seq<char>,
)
    requires
        p.len() == q.len(),
        forall|i: int|
            0 <= i < p.len() ==> ends_plain(#[trigger] p[i]) && ends_plain(q[i]) && scan_from(
                EscapeState::Text,
                p[i],
            ).1 == scan_from(EscapeState::Text, q[i]).1,
        ends_plain(sp),
        ends_plain(sq),
        scan_from(EscapeState::Text, sp).1 == scan_from(EscapeState::Text, sq).1,
    ensures
        ends_plain(join(p, sp)),
        ends_plain(join(q, sq)),
        scan_from(EscapeState::Text, join(p, sp)).1 == scan_from(EscapeState::Text, join(q, sq)).1,
    decreases p.len(),
{
    if p.len() == 0 {
    } else if p.len() == 1 {
        assert(ends_plain(p[0]));
    } else {
        let pd = p.drop_last();
        let qd = q.drop_last();
        assert forall|i: int|
            0 <= i < pd.len() implies ends_plain(#[trigger] pd[i]) && ends_plain(qd[i])
            && scan_from(EscapeState::Text, pd[i]).1 == scan_from(EscapeState::Text, qd[i]).1 by {
            assert(pd[i] == p[i] && qd[i] == q[i]);
        }
        lemma_join_same_width(pd, qd, sp, sq);
        assert(ends_plain(p[p.len() - 1]));
        lemma_concat_plain(join(pd, sp), sp);
        lemma_concat_plain(join(pd, sp) + sp, p.last());
        lemma_concat_plain(join(qd, sq), sq);
        lemma_concat_plain(join(qd, sq) + sq, q.last());
    }
}

proof fn lemma_max_nat_ge(s: Seq<nat>, i: int)
    requires
        0 <= i < s.len(),
    ensures
        s[i] <= max_nat(s),
    decreases s.len(),
{
    if i < s.len() - 1 {
        lemma_max_nat_ge(s.drop_last(), i);
    }
}

/// Whether each line of each cell closes the escape sequences it opens.
pub open spec fn cells_end_plain(rows: Seq<Seq<Seq<char>>>) -> bool {
    forall|r: int, c: int, k: int|
        0 <= r < rows.len() && 0 <= c < rows[r].len() && 0 <= k < split_on(rows[r][c], '\n').len()
            ==> ends_plain(#[trigger] split_on(rows[r][c], '\n')[k])
}

/// The `k`-th line of the cell of row `r` in column `c` (empty past its lines).
pub open spec fn cell_piece(row: Seq<Seq<char>>, c: int, k: int) -> Seq<char> {
    let ls = cell_lines(row, c);
    if k < ls.len() {
        ls[k]
    } else {
        Seq::empty()
    }
}

proof fn lemma_piece_fits(rows: Seq<Seq<Seq<char>>>, r: int, c: int, k: int)
    requires
        0 <= r < rows.len(),
        0 <= c < column_count(rows),
        0 <= k,
        cells_end_plain(rows),
    ensures
        ends_plain(cell_piece(rows[r], c, k)),
        visible_width(cell_piece(rows[r], c, k)) <= column_width(rows, c),
{
    let piece = cell_piece(rows[r], c, k);
    let ls = cell_lines(rows[r], c);
    if c < rows[r].len() && k < ls.len() {
        let cell = rows[r][c];
        assert(ends_plain(split_on(cell, '\n')[k]));
        let ws = split_on(cell, '\n').map_values(|l: Seq<char>| visible_width(l));
        lemma_max_nat_ge(ws, k);
        let cols = Seq::new(
            rows.len(),
            |q: int|
                if c < rows[q].len() {
                    cell_width(rows[q][c])
                } else {
                    0
                },
        );
        lemma_max_nat_ge(cols, r);
    } else {
        if c >= rows[r].len() {
            assert(split_on(Seq::<char>::empty(), '\n') =~= seq![Seq::<char>::empty()]);
        }
        assert(piece =~= Seq::<char>::empty());
        assert(scan(piece) == (EscapeState::Text, 0nat));
        lemma_scan_is_scan_from(piece);
    }
}

proof fn lemma_padded_width(line: Seq<char>, width: nat, header: bool)
    requires
        ends_plain(line),
        visible_width(line) <= width,
    ensures
        ends_plain(padded_cell(line, width, header)),
        scan_from(EscapeState::Text, padded_cell(line, width, header)).1 == width + 2,
{
    reveal_strlit(" ");
    assert(" "@ =~= seq![' ']);
    lemma_scan_is_scan_from(line);
    let pad = (width - visible_width(line)) as nat;
    lemma_single_plain(' ');
    lemma_repeat_plain(' ', pad);
    let core = " "@ + line + repeat(" "@, pad) + " "@;
    lemma_concat_plain(" "@, line);
    lemma_concat_plain(" "@ + line, repeat(" "@, pad));
    lemma_concat_plain(" "@ + line + repeat(" "@, pad), " "@);
    if header {
        law_styles_are_sgr();
        lemma_sgr_scan(ANSI_BOLD_ON@);
        lemma_sgr_scan(ANSI_BOLD_OFF@);
        lemma_concat_plain(ANSI_BOLD_ON@, " "@);
        lemma_concat_plain(ANSI_BOLD_ON@ + " "@, line);
        lemma_concat_plain(ANSI_BOLD_ON@ + " "@ + line, repeat(" "@, pad));
        lemma_concat_plain(ANSI_BOLD_ON@ + " "@ + line + repeat(" "@, pad), " "@);
        lemma_concat_plain(
            ANSI_BOLD_ON@ + " "@ + line + repeat(" "@, pad) + " "@,
            ANSI_BOLD_OFF@,
        );
    }
}

/// The frame of a table lines up: each line of each row is as wide as the
/// borders, where each line of each cell closes the escape sequences it opens.
pub proof fn law_table_lines_line_up(rows: Seq<Seq<Seq<char>>>, r: int, k: int, header: bool)
    requires
        0 <= r < rows.len(),
        0 <= k,
        cells_end_plain(rows),
    ensures
        visible_width(row_line(rows[r], column_widths(rows), k, header)) == visible_width(
            border_text(column_widths(rows), "┌"@, "┬"@, "┐"@),
        ),
        visible_width(border_text(column_widths(rows), "├"@, "┼"@, "┤"@)) == visible_width(
            border_text(column_widths(rows), "┌"@, "┬"@, "┐"@),
        ),
        visible_width(border_text(column_widths(rows), "└"@, "┴"@, "┘"@)) == visible_width(
            border_text(column_widths(rows), "┌"@, "┬"@, "┐"@),
        ),
{
    let w = column_widths(rows);
    let row = rows[r];
    let cells = Seq::new(
        w.len(),
        |c: int|
            {
                let ls = cell_lines(row, c);
                padded_cell(
                    if k < ls.len() {
                        ls[k]
                    } else {
                        Seq::empty()
                    },
                    w[c],
                    header,
                )
            },
    );
    let rules = w.map_values(|x: nat| repeat("─"@, x + 2));
    reveal_strlit("─");
    reveal_strlit("│");
    reveal_strlit("┌");
    reveal_strlit("┬");
    reveal_strlit("┐");
    reveal_strlit("├");
    reveal_strlit("┼");
    reveal_strlit("┤");
    reveal_strlit("└");
    reveal_strlit("┴");
    reveal_strlit("┘");
    assert("─"@ =~= seq!['─']);
    assert("│"@ =~= seq!['│']);
    assert("┌"@ =~= seq!['┌']);
    assert("┬"@ =~= seq!['┬']);
    assert("┐"@ =~= seq!['┐']);
    assert("├"@ =~= seq!['├']);
    assert("┼"@ =~= seq!['┼']);
    assert("┤"@ =~= seq!['┤']);
    assert("└"@ =~= seq!['└']);
    assert("┴"@ =~= seq!['┴']);
    assert("┘"@ =~= seq!['┘']);
    lemma_single_plain('│');
    lemma_single_plain('┌');
    lemma_single_plain('┬');
    lemma_single_plain('┐');
    lemma_single_plain('├');
    lemma_single_plain('┼');
    lemma_single_plain('┤');
    lemma_single_plain('└');
    lemma_single_plain('┴');
    lemma_single_plain('┘');
    assert forall|c: int|
        0 <= c < cells.len() implies ends_plain(#[trigger] cells[c]) && ends_plain(rules[c])
        && scan_from(EscapeState::Text, cells[c]).1 == scan_from(EscapeState::Text, rules[c]).1 by {
        lemma_piece_fits(rows, r, c, k);
        assert(w[c] == column_width(rows, c));
        lemma_padded_width(cell_piece(row, c, k), w[c], header);
        lemma_repeat_plain('─', w[c] + 2);
    }
    // each border against the top one
    assert forall|c: int|
        0 <= c < rules.len() implies ends_plain(#[trigger] rules[c]) && ends_plain(rules[c])
        && scan_from(EscapeState::Text, rules[c]).1 == scan_from(EscapeState::Text, rules[c]).1 by {
        lemma_repeat_plain('─', w[c] + 2);
    }
    lemma_join_same_width(cells, rules, "│"@, "┬"@);
    lemma_join_same_width(rules, rules, "┼"@, "┬"@);
    lemma_join_same_width(rules, rules, "┴"@, "┬"@);
    let jc = join(cells, "│"@);
    let jr = join(rules, "┬"@);
    lemma_concat_plain("│"@, jc);
    lemma_concat_plain("│"@ + jc, "│"@);
    lemma_concat_plain("┌"@, jr);
    lemma_concat_plain("┌"@ + jr, "┐"@);
    lemma_concat_plain("├"@, join(rules, "┼"@));
    lemma_concat_plain("├"@ + join(rules, "┼"@), "┤"@);
    lemma_concat_plain("└"@, join(rules, "┴"@));
    lemma_concat_plain("└"@ + join(rules, "┴"@), "┘"@);
    lemma_scan_is_scan_from(row_line(row, w, k, header));
    lemma_scan_is_scan_from(border_text(w, "┌"@, "┬"@, "┐"@));
    lemma_scan_is_scan_from(border_text(w, "├"@, "┼"@, "┤"@));
    lemma_scan_is_scan_from(border_text(w, "└"@, "┴"@, "┘"@));
}

// ---------------------------------------------------------------------------
// Reference links
// ---------------------------------------------------------------------------

/// A link reference whose identifier is defined renders as a hyperlink to
/// the defined url that shows its content.
pub proof fn law_defined_reference_renders_as_link(
    identifier: Seq<char>,
    children: Seq<Tree>,
    defs: Seq<(Seq<char>, Seq<char>)>,
    url: Seq<char>,
)
    requires
        lookup(defs, identifier) == Some(url),
    ensures
        resolve_node(Tree::LinkReference { identifier, children }, defs) == resolve_node(
            Tree::Link { url, children },
            defs,
        ),
        render_tree(resolve_node(Tree::LinkReference { identifier, children }, defs))
            == link_text(inline_text(resolve_all(children, defs)), url),
{
}

/// A link reference without a definition renders as its content alone.
pub proof fn law_undefined_reference_renders_as_text(
    identifier: Seq<char>,
    children: Seq<Tree>,
    defs: Seq<(Seq<char>, Seq<char>)>,
)
    requires
        lookup(defs, identifier) is None,
    ensures
        render_tree(resolve_node(Tree::LinkReference { identifier, children }, defs))
            == inline_text(resolve_all(children, defs)),
{
}

// ---------------------------------------------------------------------------
// Resolving twice
// ---------------------------------------------------------------------------

proof fn lemma_with_children_twice(t: Tree, a: Seq<Tree>, b: Seq<Tree>)
    ensures
        with_children(with_children(t, a), b) == with_children(t, b),
        is_parent(with_children(t, a)) == is_parent(t),
        is_parent(t) ==> children_of(with_children(t, a)) == a,
{
}

/// Resolving a resolved node against the same definitions changes nothing,
/// and resolving keeps the definitions of a node.
proof fn lemma_resolve_node_twice(t: Tree, defs: Seq<(Seq<char>, Seq<char>)>)
    ensures
        resolve_node(resolve_node(t, defs), defs) == resolve_node(t, defs),
        definitions_of(resolve_node(t, defs)) == definitions_of(t),
    decreases t,
{
    if is_parent(t) {
        lemma_children_decrease(t);
        let cs = children_of(t);
        lemma_resolve_all_twice(cs, defs);
        let r = resolve_all(cs, defs);
        lemma_with_children_twice(t, r, resolve_all(r, defs));
        match t {
            Tree::LinkReference { identifier, children } => match lookup(defs, identifier) {
                Some(url) => {
                    lemma_with_children_twice(Tree::Link { url, children }, r, r);
                },
                None => {},
            },
            _ => {},
        }
    }
}

/// `lemma_resolve_node_twice` for each node of a sequence.
proof fn lemma_resolve_all_twice(ts: Seq<Tree>, defs: Seq<(Seq<char>, Seq<char>)>)
    ensures
        resolve_all(resolve_all(ts, defs), defs) == resolve_all(ts, defs),
        definitions_each(resolve_all(ts, defs)) == definitions_each(ts),
    decreases ts,
{
    let r = resolve_all(ts, defs);
    assert forall|i: int| 0 <= i < ts.len() implies resolve_node(#[trigger] r[i], defs) == r[i]
        && definitions_of(r[i]) == definitions_of(ts[i]) by {
        assert(decreases_to!(ts => ts[i]));
        lemma_resolve_node_twice(ts[i], defs);
    }
    assert(resolve_all(r, defs) =~= r);
    assert(definitions_each(r) =~= definitions_each(ts));
}

/// Replacing the references below a node a second time, against the same
/// definitions, changes nothing: no reference that they define is left.
pub proof fn law_replace_twice(t: Tree, defs: Seq<(Seq<char>, Seq<char>)>)
    ensures
        replaced(replaced(t, defs), defs) == replaced(t, defs),
{
    if is_parent(t) {
        let r = resolve_all(children_of(t), defs);
        lemma_resolve_all_twice(children_of(t), defs);
        lemma_with_children_twice(t, r, r);
    }
}

/// Resolving the reference links of a document a second time changes
/// nothing: its definitions are kept, and no reference that they define is
/// left.
pub proof fn law_resolve_twice(t: Tree)
    ensures
        resolved(resolved(t)) == resolved(t),
        definitions_of(resolved(t)) == definitions_of(t),
{
    let defs = definitions_of(t);
    if defs.len() > 0 && is_parent(t) {
        let r = resolve_all(children_of(t), defs);
        lemma_resolve_all_twice(children_of(t), defs);
        lemma_with_children_twice(t, r, r);
        let own = match t {
            Tree::Definition { identifier, url } => seq![(identifier, url)],
            _ => Seq::<(Seq<char>, Seq<char>)>::empty(),
        };
        assert(definitions_of(resolved(t)) == own + flat(definitions_each(r)));
    }
}

// ---------------------------------------------------------------------------
// Inline content
// ---------------------------------------------------------------------------

proof fn lemma_concat_append(p: Seq<Seq<char>>, q: Seq<Seq<char>>)
    ensures
        concat(p + q) == concat(p) + concat(q),
    decreases q.len(),
{
    if q.len() == 0 {
        assert(p + q =~= p);
    } else {
        lemma_concat_append(p, q.drop_last());
        assert((p + q).drop_last() =~= p + q.drop_last());
        assert(concat(p) + (concat(q.drop_last()) + q.last()) =~= concat(p) + concat(
            q.drop_last(),
        ) + q.last());
    }
}

/// Inline content renders node by node: the content of two runs of nodes one
/// after the other is the content of the first followed by that of the
/// second, and no nodes render to the empty text.
pub proof fn law_inline_text_concat(a: Seq<Tree>, b: Seq<Tree>)
    ensures
        inline_text(a + b) == inline_text(a) + inline_text(b),
        inline_text(Seq::empty()) == Seq::<char>::empty(),
{
    assert(render_all(a + b) =~= render_all(a) + render_all(b));
    lemma_concat_append(render_all(a), render_all(b));
}

// ---------------------------------------------------------------------------
// No defined reference is left
// ---------------------------------------------------------------------------

/// Whether no link or image reference in `t`, itself or below it, has an
/// identifier that `defs` defines.
pub open spec fn no_defined_reference(t: Tree, defs: Seq<(Seq<char>, Seq<char>)>) -> bool
    decreases t,
{
    let own = match t {
        Tree::LinkReference { identifier, .. } => lookup(defs, identifier) is None,
        Tree::ImageReference { identifier, .. } => lookup(defs, identifier) is None,
        _ => true,
    };
    &&& own
    &&& is_parent(t) ==> {
        proof {
            lemma_children_decrease(t);
        }
        all_true(no_defined_reference_each(children_of(t), defs))
    }
}

/// `no_defined_reference` for each node of a sequence.
pub open spec fn no_defined_reference_each(ts: Seq<Tree>, defs: Seq<(Seq<char>, Seq<char>)>) -> Seq<
    bool,
>
    decreases ts,
{
    Seq::new(
        ts.len(),
        |i: int|
            if 0 <= i < ts.len() {
                no_defined_reference(ts[i], defs)
            } else {
                true
            },
    )
}

proof fn lemma_resolve_node_leaves_none(t: Tree, defs: Seq<(Seq<char>, Seq<char>)>)
    ensures
        no_defined_reference(resolve_node(t, defs), defs),
    decreases t,
{
    if is_parent(t) {
        lemma_children_decrease(t);
        let cs = children_of(t);
        lemma_resolve_all_leaves_none(cs, defs);
        let r = resolve_all(cs, defs);
        lemma_with_children_twice(t, r, r);
    }
}

proof fn lemma_resolve_all_leaves_none(ts: Seq<Tree>, defs: Seq<(Seq<char>, Seq<char>)>)
    ensures
        all_true(no_defined_reference_each(resolve_all(ts, defs), defs)),
    decreases ts,
{
    let r = resolve_all(ts, defs);
    assert forall|i: int| 0 <= i < r.len() implies #[trigger] no_defined_reference_each(r, defs)[i] by {
        assert(decreases_to!(ts => ts[i]));
        lemma_resolve_node_leaves_none(ts[i], defs);
    }
}

/// After `replace_reference_nodes` no link or image reference below the node
/// has an identifier that the definitions define.
pub proof fn law_no_defined_reference_left(t: Tree, defs: Seq<(Seq<char>, Seq<char>)>)
    ensures
        forall|i: int|
            0 <= i < children_of(replaced(t, defs)).len() ==> no_defined_reference(
                #[trigger] children_of(replaced(t, defs))[i],
                defs,
            ),
{
    if is_parent(t) {
        let r = resolve_all(children_of(t), defs);
        lemma_resolve_all_leaves_none(children_of(t), defs);
        lemma_with_children_twice(t, r, r);
        assert forall|i: int| 0 <= i < r.len() implies no_defined_reference(#[trigger] r[i], defs) by {
            assert(no_defined_reference_each(r, defs)[i]);
        }
    }
}

// ---------------------------------------------------------------------------
// Lines with their endings
// ---------------------------------------------------------------------------

proof fn lemma_concat_ended(p: Seq<Seq<char>>)
    requires
        p.len() >= 1,
    ensures
        concat(p.drop_last().map_values(|l: Seq<char>| l.push('\n'))) + p.last() == join(
            p,
            seq!['\n'],
        ),
    decreases p.len(),
{
    let e = p.drop_last().map_values(|l: Seq<char>| l.push('\n'));
    if p.len() == 1 {
        assert(e =~= Seq::<Seq<char>>::empty());
        assert(Seq::<char>::empty() + p.last() =~= p[0]);
    } else {
        let q = p.drop_last();
        lemma_concat_ended(q);
        let eq = q.drop_last().map_values(|l: Seq<char>| l.push('\n'));
        assert(e.drop_last() =~= eq);
        assert(e.last() == q.last().push('\n'));
        assert(concat(e) == concat(eq) + q.last().push('\n'));
        assert(concat(eq) + q.last().push('\n') + p.last() =~= (concat(eq) + q.last()) + seq![
            '\n',
        ] + p.last());
    }
}

/// The lines of a text with their endings give the text back one after the
/// other, and every line but the last ends with a newline.
pub proof fn law_lines_with_endings_give_the_text_back(s: Seq<char>)
    ensures
        concat(lines_with_endings(s)) == s,
        forall|i: int|
            0 <= i < lines_with_endings(s).len() - 1 ==> (#[trigger] lines_with_endings(s)[i]).last()
                == '\n',
{
    let p = split_on(s, '\n');
    lemma_split_on_nonempty(s, '\n');
    law_split_then_join(s, '\n');
    lemma_concat_ended(p);
    let e = p.drop_last().map_values(|l: Seq<char>| l.push('\n'));
    if p.last().len() == 0 {
        assert(concat(e) + p.last() =~= concat(e));
    } else {
        assert(e.push(p.last()).drop_last() =~= e);
    }
}

} // verus!
