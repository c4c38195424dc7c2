//! Text utilities of the renderer: splitting into lines, joining, repeating,
//! whitespace, decimal numbers, and the visible width of a line that holds
//! terminal escape sequences.
use vstd::prelude::*;

verus! {

// ---------------------------------------------------------------------------
// Specifications
// ---------------------------------------------------------------------------

/// The views of a sequence of strings.
pub open spec fn views(v: Seq<String>) -> Seq<Seq<char>> {
    v.map_values(|s: String| s@)
}

/// The pieces of `s` between occurrences of `sep`, as `str::split` gives them:
/// always at least one piece, an empty one for each separator at an end.
pub open spec fn split_on(s: Seq<char>, sep: char) -> Seq<Seq<char>>
    decreases s.len(),
{
    if s.len() == 0 {
        seq![Seq::<char>::empty()]
    } else {
        let p = split_on(s.drop_last(), sep);
        if s.last() == sep {
            p.push(Seq::<char>::empty())
        } else {
            p.update(p.len() - 1, p.last().push(s.last()))
        }
    }
}

/// A line without the carriage return that ended it.
pub open spec fn strip_cr(l: Seq<char>) -> Seq<char> {
    if l.len() > 0 && l.last() == '\r' {
        l.drop_last()
    } else {
        l
    }
}

/// The lines of `s` as `str::lines` gives them: split at `\n`, a final line
/// ending is optional, and a `\r` right before a `\n` belongs to the line
/// ending.
pub open spec fn lines_of(s: Seq<char>) -> Seq<Seq<char>> {
    let parts = split_on(s, '\n');
    if parts.last().len() == 0 {
        Seq::new((parts.len() - 1) as nat, |i: int| strip_cr(parts[i]))
    } else {
        Seq::new(
            parts.len(),
            |i: int|
                if i < parts.len() - 1 {
                    strip_cr(parts[i])
                } else {
                    parts[i]
                },
        )
    }
}

/// The parts, with `sep` between each two neighbours.
pub open spec fn join(parts: Seq<Seq<char>>, sep: Seq<char>) -> Seq<char>
    decreases parts.len(),
{
    if parts.len() == 0 {
        Seq::empty()
    } else if parts.len() == 1 {
        parts[0]
    } else {
        join(parts.drop_last(), sep) + sep + parts.last()
    }
}

/// The parts, one after the other.
pub open spec fn concat(parts: Seq<Seq<char>>) -> Seq<char>
    decreases parts.len(),
{
    if parts.len() == 0 {
        Seq::empty()
    } else {
        concat(parts.drop_last()) + parts.last()
    }
}

/// `s` written `n` times.
pub open spec fn repeat(s: Seq<char>, n: nat) -> Seq<char>
    decreases n,
{
    if n == 0 {
        Seq::empty()
    } else {
        repeat(s, (n - 1) as nat) + s
    }
}

/// The characters with Unicode's White_Space property (what `char::is_whitespace`
/// and `str::trim` go by).
pub open spec fn is_white_space(c: char) -> bool {
    let u = c as u32;
    (0x9 <= u <= 0xd) || u == 0x20 || u == 0x85 || u == 0xa0 || u == 0x1680 || (0x2000 <= u
        <= 0x200a) || u == 0x2028 || u == 0x2029 || u == 0x202f || u == 0x205f || u == 0x3000
}

/// Whether `s.trim()` is empty.
pub open spec fn is_blank(s: Seq<char>) -> bool {
    forall|i: int| 0 <= i < s.len() ==> is_white_space(#[trigger] s[i])
}

/// The character of a decimal digit.
pub open spec fn digit_char(d: nat) -> char {
    ((48 + d) as u8) as char
}

/// The decimal notation of `n`.
pub open spec fn decimal(n: nat) -> Seq<char>
    decreases n,
{
    if n < 10 {
        seq![digit_char(n)]
    } else {
        decimal(n / 10).push(digit_char(n % 10))
    }
}

pub open spec fn escape_char() -> char {
    '\x1b'
}

/// Where a scan of a line stands with respect to terminal escape sequences.
pub enum EscapeState {
    /// In visible text.
    Text,
    /// Right after an escape character.
    Escape,
    /// Inside an operating system command (`ESC ]`), which a bell or `ESC \` ends.
    Osc,
    /// Inside an operating system command, right after an escape character.
    OscEscape,
    /// Inside a control sequence (`ESC [`), which an ASCII letter ends.
    Csi,
}

pub open spec fn is_ascii_alphabetic(c: char) -> bool {
    ('a' <= c && c <= 'z') || ('A' <= c && c <= 'Z')
}

/// One character of the scan: the next state, and whether the character is visible.
pub open spec fn scan_step(st: EscapeState, c: char) -> (EscapeState, bool) {
    match st {
        EscapeState::Text | EscapeState::Escape => {
            if st == EscapeState::Escape && c == ']' {
                (EscapeState::Osc, false)
            } else if st == EscapeState::Escape && c == '[' {
                (EscapeState::Csi, false)
            } else if c == escape_char() {
                (EscapeState::Escape, false)
            } else {
                (EscapeState::Text, true)
            }
        },
        EscapeState::Osc | EscapeState::OscEscape => {
            if st == EscapeState::OscEscape && c == '\\' {
                (EscapeState::Text, false)
            } else if c == '\x07' {
                (EscapeState::Text, false)
            } else if c == escape_char() {
                (EscapeState::OscEscape, false)
            } else {
                (EscapeState::Osc, false)
            }
        },
        EscapeState::Csi => {
            if is_ascii_alphabetic(c) {
                (EscapeState::Text, false)
            } else {
                (EscapeState::Csi, false)
            }
        },
    }
}

/// The state after scanning `s` from the start, and the number of visible
/// characters in it.
pub open spec fn scan(s: Seq<char>) -> (EscapeState, nat)
    decreases s.len(),
{
    if s.len() == 0 {
        (EscapeState::Text, 0)
    } else {
        let (st, n) = scan(s.drop_last());
        let (st2, visible) = scan_step(st, s.last());
        (st2, if visible {
            n + 1
        } else {
            n
        })
    }
}

/// The number of characters of `s` that a terminal shows: escape characters,
/// operating system commands and control sequences take no room.
pub open spec fn visible_width(s: Seq<char>) -> nat {
    scan(s).1
}

/// Each line of `text` with `prefix` before it, joined by newlines.
pub open spec fn prefixed_lines(text: Seq<char>, prefix: Seq<char>) -> Seq<char> {
    join(lines_of(text).map_values(|l: Seq<char>| prefix + l), seq!['\n'])
}

/// The first line of `text` behind `first`, every other line behind
/// `continuation`, joined by newlines.
pub open spec fn indented_lines(
    text: Seq<char>,
    first: Seq<char>,
    continuation: Seq<char>,
) -> Seq<char> {
    let ls = lines_of(text);
    join(
        Seq::new(
            ls.len(),
            |i: int|
                if i == 0 {
                    first + ls[i]
                } else {
                    continuation + ls[i]
                },
        ),
        seq!['\n'],
    )
}

// ---------------------------------------------------------------------------
// Lemmas
// ---------------------------------------------------------------------------

pub proof fn lemma_split_on_nonempty(s: Seq<char>, sep: char)
    ensures
        split_on(s, sep).len() >= 1,
    decreases s.len(),
{
    if s.len() > 0 {
        lemma_split_on_nonempty(s.drop_last(), sep);
    }
}

pub proof fn lemma_visible_width_bound(s: Seq<char>)
    ensures
        visible_width(s) <= s.len(),
    decreases s.len(),
{
    if s.len() > 0 {
        lemma_visible_width_bound(s.drop_last());
    }
}

// ---------------------------------------------------------------------------
// Executable functions
// ---------------------------------------------------------------------------

/// Appends one character (`String::push`).
#[verifier::external_body]
pub(crate) fn push_char(s: &mut String, c: char)
    ensures
        final(s)@ == old(s)@.push(c),
{
    s.push(c);
}

/// The characters of `s`, in order.
pub fn chars_of(s: &str) -> (v: Vec<char>)
    ensures
        v@ == s@,
{
    let mut v: Vec<char> = Vec::new();
    for c in it: s.chars()
        invariant
            it.seq() == s@,
            v@ == it.seq().take(it.index() as int),
    {
        v.push(c);
    }
    v
}

/// A string of the given characters.
pub fn string_of(v: &Vec<char>) -> (s: String)
    ensures
        s@ == v@,
{
    let mut s = String::new();
    let mut i: usize = 0;
    while i < v.len()
        invariant
            i <= v.len(),
            s@ == v@.take(i as int),
        decreases v.len() - i,
    {
        push_char(&mut s, v[i]);
        i = i + 1;
        assert(s@ =~= v@.take(i as int));
    }
    assert(v@.take(v.len() as int) =~= v@);
    s
}

/// Appends `t` to `s`.
pub fn push_str(s: &mut String, t: &str)
    ensures
        final(s)@ == old(s)@ + t@,
{
    s.append(t);
}

/// The concatenation of two strings.
pub fn concat2(a: &str, b: &str) -> (r: String)
    ensures
        r@ == a@ + b@,
{
    let mut r = String::from_str(a);
    r.append(b);
    r
}

/// The concatenation of three strings.
pub fn concat3(a: &str, b: &str, c: &str) -> (r: String)
    ensures
        r@ == a@ + b@ + c@,
{
    let mut r = String::from_str(a);
    r.append(b);
    r.append(c);
    r
}

/// The pieces of `text` between occurrences of `sep` (`str::split`).
pub fn split_on_char(text: &str, sep: char) -> (pieces: Vec<String>)
    ensures
        views(pieces@) == split_on(text@, sep),
{
    let mut pieces: Vec<String> = Vec::new();
    let mut cur = String::new();
    for c in it: text.chars()
        invariant
            it.seq() == text@,
            views(pieces@).push(cur@) == split_on(it.seq().take(it.index() as int), sep),
    {
        let ghost before = it.seq().take(it.index() as int);
        let ghost after = it.seq().take(it.index() + 1);
        assert(after.drop_last() =~= before);
        assert(after.last() == c);
        if c == sep {
            let done = cur;
            cur = String::new();
            pieces.push(done);
            assert(views(pieces@).push(cur@) =~= split_on(before, sep).push(Seq::<char>::empty()));
        } else {
            let ghost p = split_on(before, sep);
            push_char(&mut cur, c);
            assert(views(pieces@).push(cur@) =~= p.update(p.len() - 1, p.last().push(c)));
        }
    }
    assert(text@.take(text@.len() as int) =~= text@);
    pieces.push(cur);
    assert(views(pieces@) =~= split_on(text@, sep));
    pieces
}

/// Removes a carriage return at the end of a line.
fn strip_cr_exec(line: String) -> (r: String)
    ensures
        r@ == strip_cr(line@),
{
    let mut v = chars_of(line.as_str());
    if v.len() > 0 && v[v.len() - 1] == '\r' {
        v.pop();
        assert(v@ =~= line@.drop_last());
        string_of(&v)
    } else {
        line
    }
}

/// The lines of `text` (`str::lines`).
pub fn lines(text: &str) -> (ls: Vec<String>)
    ensures
        views(ls@) == lines_of(text@),
{
    let mut parts = split_on_char(text, '\n');
    proof {
        lemma_split_on_nonempty(text@, '\n');
    }
    let ghost ps = views(parts@);
    let n = parts.len();
    let last_empty = parts[n - 1].as_str().is_empty();
    let keep = if last_empty {
        n - 1
    } else {
        n
    };
    let mut ls: Vec<String> = Vec::new();
    // take the pieces out in order, from the back
    let mut rev: Vec<String> = Vec::new();
    while parts.len() > 0
        invariant
            parts.len() + rev.len() == n,
            forall|i: int| 0 <= i < parts.len() ==> (#[trigger] parts@[i])@ == ps[i],
            forall|j: int| 0 <= j < rev.len() ==> (#[trigger] rev@[j])@ == ps[n - 1 - j],
        decreases parts.len(),
    {
        let p = parts.pop().unwrap();
        rev.push(p);
    }
    let mut k: usize = 0;
    while k < keep
        invariant
            keep <= n,
            rev.len() + k == n,
            k <= keep,
            forall|j: int| 0 <= j < rev.len() ==> (#[trigger] rev@[j])@ == ps[n - 1 - j],
            ps.len() == n,
            n >= 1,
            last_empty <==> ps[n - 1].len() == 0,
            keep == (if last_empty {
                n - 1
            } else {
                n as int
            }),
            ls.len() == k,
            forall|i: int|
                0 <= i < k ==> (#[trigger] ls@[i])@ == (if i < n - 1 {
                    strip_cr(ps[i])
                } else {
                    ps[i]
                }),
        decreases keep - k,
    {
        let p = rev.pop().unwrap();
        assert(p@ == ps[k as int]);
        if k + 1 < n {
            let q = strip_cr_exec(p);
            ls.push(q);
        } else {
            ls.push(p);
        }
        k = k + 1;
    }
    assert(views(ls@) =~= lines_of(text@));
    ls
}

/// The strings joined by `sep` (`[String]::join`).
pub fn join_strings(parts: &Vec<String>, sep: &str) -> (r: String)
    ensures
        r@ == join(views(parts@), sep@),
{
    let mut r = String::new();
    let ghost vs = views(parts@);
    let mut i: usize = 0;
    while i < parts.len()
        invariant
            i <= parts.len(),
            vs == views(parts@),
            r@ == join(vs.take(i as int), sep@),
        decreases parts.len() - i,
    {
        if i != 0 {
            r.append(sep);
        }
        r.append(parts[i].as_str());
        assert(vs.take(i + 1).drop_last() =~= vs.take(i as int));
        i = i + 1;
    }
    assert(vs.take(parts.len() as int) =~= vs);
    r
}

/// The strings one after the other (`collect` into a `String`).
pub fn concat_strings(parts: &Vec<String>) -> (r: String)
    ensures
        r@ == concat(views(parts@)),
{
    let mut r = String::new();
    let ghost vs = views(parts@);
    let mut i: usize = 0;
    while i < parts.len()
        invariant
            i <= parts.len(),
            vs == views(parts@),
            r@ == concat(vs.take(i as int)),
        decreases parts.len() - i,
    {
        r.append(parts[i].as_str());
        assert(vs.take(i + 1).drop_last() =~= vs.take(i as int));
        i = i + 1;
    }
    assert(vs.take(parts.len() as int) =~= vs);
    r
}

/// `s` written `n` times (`str::repeat`).
pub fn repeat_str(s: &str, n: usize) -> (r: String)
    ensures
        r@ == repeat(s@, n as nat),
{
    let mut r = String::new();
    let mut i: usize = 0;
    while i < n
        invariant
            i <= n,
            r@ == repeat(s@, i as nat),
        decreases n - i,
    {
        r.append(s);
        i = i + 1;
    }
    r
}

/// Whether `c` has Unicode's White_Space property.
pub fn is_white_space_char(c: char) -> (b: bool)
    ensures
        b == is_white_space(c),
{
    let u = c as u32;
    (0x9 <= u && u <= 0xd) || u == 0x20 || u == 0x85 || u == 0xa0 || u == 0x1680 || (0x2000 <= u
        && u <= 0x200a) || u == 0x2028 || u == 0x2029 || u == 0x202f || u == 0x205f || u == 0x3000
}

/// Whether `s.trim()` is empty.
pub fn is_blank_str(s: &str) -> (b: bool)
    ensures
        b == is_blank(s@),
{
    let v = chars_of(s);
    let mut i: usize = 0;
    while i < v.len()
        invariant
            i <= v.len(),
            v@ == s@,
            forall|j: int| 0 <= j < i ==> is_white_space(#[trigger] v@[j]),
        decreases v.len() - i,
    {
        if !is_white_space_char(v[i]) {
            return false;
        }
        i = i + 1;
    }
    true
}

/// The decimal notation of `n`.
pub fn decimal_string(n: u32) -> (s: String)
    ensures
        s@ == decimal(n as nat),
    decreases n,
{
    let d = (48u8 + (n % 10) as u8) as char;
    if n < 10 {
        let mut s = String::new();
        push_char(&mut s, d);
        assert(s@ =~= decimal(n as nat));
        s
    } else {
        let mut s = decimal_string(n / 10);
        push_char(&mut s, d);
        s
    }
}

/// The number of characters of `text` that a terminal shows, escape
/// sequences left out.
pub fn visible_line_width(text: &str) -> (width: usize)
    ensures
        width == visible_width(text@),
{
    let v = chars_of(text);
    let mut st = EscapeState::Text;
    let mut width: usize = 0;
    let mut i: usize = 0;
    while i < v.len()
        invariant
            i <= v.len(),
            v@ == text@,
            (st, width as nat) == scan(v@.take(i as int)),
            width <= i,
        decreases v.len() - i,
    {
        let c = v[i];
        assert(v@.take(i + 1).drop_last() =~= v@.take(i as int));
        let (next, visible) = step_exec(st, c);
        st = next;
        if visible {
            width = width + 1;
        }
        i = i + 1;
    }
    assert(v@.take(v.len() as int) =~= v@);
    width
}

fn step_exec(st: EscapeState, c: char) -> (r: (EscapeState, bool))
    ensures
        r == scan_step(st, c),
{
    match st {
        EscapeState::Text | EscapeState::Escape => {
            let esc = match st {
                EscapeState::Escape => true,
                _ => false,
            };
            if esc && c == ']' {
                (EscapeState::Osc, false)
            } else if esc && c == '[' {
                (EscapeState::Csi, false)
            } else if c == '\x1b' {
                (EscapeState::Escape, false)
            } else {
                (EscapeState::Text, true)
            }
        },
        EscapeState::Osc | EscapeState::OscEscape => {
            let esc = match st {
                EscapeState::OscEscape => true,
                _ => false,
            };
            if esc && c == '\\' {
                (EscapeState::Text, false)
            } else if c == '\x07' {
                (EscapeState::Text, false)
            } else if c == '\x1b' {
                (EscapeState::OscEscape, false)
            } else {
                (EscapeState::Osc, false)
            }
        },
        EscapeState::Csi => {
            if ('a' <= c && c <= 'z') || ('A' <= c && c <= 'Z') {
                (EscapeState::Text, false)
            } else {
                (EscapeState::Csi, false)
            }
        },
    }
}

/// Each line of `text` behind `prefix`, joined by newlines.
pub fn prefix_lines(text: &str, prefix: &str) -> (r: String)
    ensures
        r@ == prefixed_lines(text@, prefix@),
{
    let ls = lines(text);
    let mut out: Vec<String> = Vec::new();
    let mut i: usize = 0;
    while i < ls.len()
        invariant
            i <= ls.len(),
            views(ls@) == lines_of(text@),
            out.len() == i,
            forall|j: int| 0 <= j < i ==> (#[trigger] out@[j])@ == prefix@ + ls@[j]@,
        decreases ls.len() - i,
    {
        out.push(concat2(prefix, ls[i].as_str()));
        i = i + 1;
    }
    let r = join_strings(&out, "\n");
    proof {
        reveal_strlit("\n");
        assert("\n"@ =~= seq!['\n']);
    }
    assert(views(out@) =~= lines_of(text@).map_values(|l: Seq<char>| prefix@ + l));
    r
}

/// The first line of `text` behind `first_prefix` and the others behind
/// `continuation`, joined by newlines.
pub fn indent_lines(text: &str, first_prefix: &str, continuation: &str) -> (r: String)
    ensures
        r@ == indented_lines(text@, first_prefix@, continuation@),
{
    let ls = lines(text);
    let mut out: Vec<String> = Vec::new();
    let mut i: usize = 0;
    while i < ls.len()
        invariant
            i <= ls.len(),
            views(ls@) == lines_of(text@),
            out.len() == i,
            forall|j: int|
                0 <= j < i ==> (#[trigger] out@[j])@ == (if j == 0 {
                    first_prefix@ + ls@[j]@
                } else {
                    continuation@ + ls@[j]@
                }),
        decreases ls.len() - i,
    {
        if i == 0 {
            out.push(concat2(first_prefix, ls[i].as_str()));
        } else {
            out.push(concat2(continuation, ls[i].as_str()));
        }
        i = i + 1;
    }
    let r = join_strings(&out, "\n");
    proof {
        reveal_strlit("\n");
        assert("\n"@ =~= seq!['\n']);
    }
    let ghost ll = lines_of(text@);
    assert(views(out@) =~= Seq::new(
        ll.len(),
        |k: int|
            if k == 0 {
                first_prefix@ + ll[k]
            } else {
                continuation@ + ll[k]
            },
    ));
    r
}

} // verus!
