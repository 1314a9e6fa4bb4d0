//! Drawing a list of lines inside a coloured box.
use vstd::prelude::*;
use vstd::string::*;
use vstd::utf8::{encode_utf8, is_ascii_chars, is_ascii_chars_encode_utf8};

verus! {

/// The colour of the box's frame.
pub open spec fn frame_colour() -> Seq<char> {
    "\x1b[38;5;205m"@
}

/// The colour of the text inside the box.
pub open spec fn text_colour() -> Seq<char> {
    "\x1b[38;5;51m"@
}

/// The code that resets the colour.
pub open spec fn colour_reset() -> Seq<char> {
    "\x1b[0m"@
}

/// The length of `l` in bytes, as `str::len` reports it.
pub open spec fn byte_len(l: Seq<char>) -> nat {
    (encode_utf8(l).len() as usize) as nat
}

/// The length in bytes of the longest of `lines`, or 0 when there are none.
pub open spec fn widest(lines: Seq<Seq<char>>) -> nat
    decreases lines.len(),
{
    if lines.len() == 0 {
        0
    } else {
        let w = widest(lines.drop_last());
        let b = byte_len(lines.last());
        if b > w {
            b
        } else {
            w
        }
    }
}

/// `n` copies of `s`, one after another, as `str::repeat` gives them.
pub open spec fn repeat(s: Seq<char>, n: nat) -> Seq<char>
    decreases n,
{
    if n == 0 {
        seq![]
    } else {
        repeat(s, (n - 1) as nat) + s
    }
}

proof fn lemma_repeat_add(s: Seq<char>, a: nat, b: nat)
    ensures
        repeat(s, a) + repeat(s, b) == repeat(s, a + b),
    decreases b,
{
    if b == 0 {
        assert(repeat(s, a) + repeat(s, 0) =~= repeat(s, a));
    } else {
        lemma_repeat_add(s, a, (b - 1) as nat);
        assert(repeat(s, a) + repeat(s, b) =~= repeat(s, a) + repeat(s, (b - 1) as nat) + s);
    }
}

/// `l` padded with spaces on the right to `w` characters, as the format
/// `{:<w$}` writes it.
pub open spec fn pad_to(l: Seq<char>, w: nat) -> Seq<char> {
    if w > l.len() {
        l + repeat(" "@, (w - l.len()) as nat)
    } else {
        l
    }
}

/// The top edge of a box `w` bytes wide inside.
pub open spec fn top_edge(w: nat) -> Seq<char> {
    frame_colour() + "╔"@ + repeat("═"@, w + 2) + "╗"@ + colour_reset()
}

/// The bottom edge of a box `w` bytes wide inside.
pub open spec fn bottom_edge(w: nat) -> Seq<char> {
    frame_colour() + "╚"@ + repeat("═"@, w + 2) + "╝"@ + colour_reset()
}

/// The row of the box that shows `l`.
pub open spec fn box_row(l: Seq<char>, w: nat) -> Seq<char> {
    frame_colour() + "║"@ + colour_reset() + text_colour() + " "@ + pad_to(l, w) + " "@
        + frame_colour() + "║"@ + colour_reset()
}

/// The printed lines of the box around `lines`: an empty line, the top edge,
/// a row for each line, and the bottom edge.
pub open spec fn boxed(lines: Seq<Seq<char>>) -> Seq<Seq<char>> {
    let w = widest(lines);
    seq![seq![], top_edge(w)] + lines.map_values(|l: Seq<char>| box_row(l, w)) + seq![
        bottom_edge(w),
    ]
}

/// Appends `n` copies of `s` to `acc`.
fn append_copies(acc: &mut String, s: &str, n: usize)
    ensures
        final(acc)@ == old(acc)@ + repeat(s@, n as nat),
{
    let ghost start = acc@;
    assert(start + repeat(s@, 0) =~= start);
    for i in 0..n
        invariant
            acc@ == start + repeat(s@, i as nat),
    {
        acc.append(s);
        assert(start + repeat(s@, i as nat) + s@ =~= start + repeat(s@, (i + 1) as nat));
    }
}

/// The width of the box around `lines`.
fn box_width(lines: &Vec<String>) -> (w: usize)
    ensures
        w as nat == widest(lines.deep_view()),
{
    let ghost lv = lines.deep_view();
    let mut w: usize = 0;
    assert(lv.take(0) =~= Seq::<Seq<char>>::empty());
    for i in 0..lines.len()
        invariant
            lv == lines.deep_view(),
            w as nat == widest(lv.take(i as int)),
    {
        assert(lv.take(i + 1).drop_last() =~= lv.take(i as int));
        assert(lv.take(i + 1).last() == lines[i as int]@);
        let b = lines[i].as_str().len();
        if b > w {
            w = b;
        }
    }
    assert(lv.take(lines.len() as int) =~= lv);
    w
}

/// The printed lines of a box drawn around `lines`.
pub fn render_cyan_box(lines: &Vec<String>) -> (r: Vec<String>)
    ensures
        r.deep_view() == boxed(lines.deep_view()),
{
    let pink = "\x1b[38;5;205m";
    let cyan = "\x1b[38;5;51m";
    let reset = "\x1b[0m";
    let w = box_width(lines);
    let ghost lv = lines.deep_view();
    let mut out: Vec<String> = Vec::new();
    out.push(String::new());
    let mut top = pink.to_string();
    top.append("╔");
    append_copies(&mut top, "═", w);
    append_copies(&mut top, "═", 2);
    top.append("╗");
    top.append(reset);
    proof {
        lemma_repeat_add("═"@, w as nat, 2);
    }
    assert(top@ =~= top_edge(w as nat));
    out.push(top);
    assert(out.deep_view() =~= seq![seq![], top_edge(w as nat)]);
    for i in 0..lines.len()
        invariant
            lv == lines.deep_view(),
            w as nat == widest(lv),
            pink@ == frame_colour(),
            cyan@ == text_colour(),
            reset@ == colour_reset(),
            out.deep_view() == seq![seq![], top_edge(w as nat)] + lv.take(i as int).map_values(
                |l: Seq<char>| box_row(l, w as nat),
            ),
    {
        let line = lines[i].as_str();
        assert(line@ == lv[i as int]);
        let mut row = pink.to_string();
        row.append("║");
        row.append(reset);
        row.append(cyan);
        row.append(" ");
        row.append(line);
        let n = line.unicode_len();
        let ghost head = row@;
        let ghost prefix = frame_colour() + "║"@ + colour_reset() + text_colour() + " "@;
        assert(head =~= prefix + line@);
        if w > n {
            append_copies(&mut row, " ", w - n);
        }
        assert(row@ =~= head.subrange(0, head.len() - line@.len()) + pad_to(line@, w as nat)) by {
            assert(head =~= head.subrange(0, head.len() - line@.len()) + line@);
        }
        row.append(" ");
        row.append(pink);
        row.append("║");
        row.append(reset);
        assert(row@ =~= box_row(lv[i as int], w as nat));
        let ghost before = out.deep_view();
        out.push(row);
        assert(out.deep_view() =~= before.push(row@));
        assert(lv.take(i + 1).map_values(|l: Seq<char>| box_row(l, w as nat)) =~= lv.take(
            i as int,
        ).map_values(|l: Seq<char>| box_row(l, w as nat)).push(box_row(lv[i as int], w as nat)));
    }
    let mut bottom = pink.to_string();
    bottom.append("╚");
    append_copies(&mut bottom, "═", w);
    append_copies(&mut bottom, "═", 2);
    bottom.append("╝");
    bottom.append(reset);
    proof {
        lemma_repeat_add("═"@, w as nat, 2);
    }
    assert(bottom@ =~= bottom_edge(w as nat));
    let ghost before = out.deep_view();
    out.push(bottom);
    assert(lv.take(lines.len() as int) =~= lv);
    assert(out.deep_view() =~= boxed(lv));
    out
}

proof fn lemma_repeat_len(s: Seq<char>, n: nat)
    ensures
        repeat(s, n).len() == n * s.len(),
    decreases n,
{
    if n > 0 {
        lemma_repeat_len(s, (n - 1) as nat);
        assert(repeat(s, n).len() == repeat(s, (n - 1) as nat).len() + s.len());
        assert((n - 1) * s.len() + s.len() == n * s.len()) by (nonlinear_arith)
            requires
                n > 0,
        ;
    } else {
        assert(n * s.len() == 0) by (nonlinear_arith)
            requires
                n == 0,
        ;
    }
}

proof fn lemma_widest_bounds(lines: Seq<Seq<char>>, k: int)
    requires
        0 <= k < lines.len(),
    ensures
        byte_len(lines[k]) <= widest(lines),
    decreases lines.len(),
{
    if k < lines.len() - 1 {
        lemma_widest_bounds(lines.drop_last(), k);
        assert(lines.drop_last()[k] == lines[k]);
    }
}

/// When the lines are ASCII, the box is a rectangle: each line is padded to
/// the width of the box, so every row is as long as every other.
pub proof fn lemma_box_rows_line_up(lines: Seq<Seq<char>>)
    requires
        forall|k: int|
            0 <= k < lines.len() ==> is_ascii_chars(#[trigger] lines[k]) && lines[k].len()
                <= usize::MAX,
    ensures
        forall|k: int|
            0 <= k < lines.len() ==> #[trigger] pad_to(lines[k], widest(lines)).len() == widest(
                lines,
            ),
        forall|i: int, j: int|
            0 <= i < lines.len() && 0 <= j < lines.len() ==> #[trigger] box_row(
                lines[i],
                widest(lines),
            ).len() == #[trigger] box_row(lines[j], widest(lines)).len(),
{
    let w = widest(lines);
    assert forall|k: int| 0 <= k < lines.len() implies #[trigger] pad_to(lines[k], w).len() == w by {
        is_ascii_chars_encode_utf8(lines[k]);
        lemma_widest_bounds(lines, k);
        assert(byte_len(lines[k]) == lines[k].len());
        if w > lines[k].len() {
            reveal_strlit(" ");
            lemma_repeat_len(" "@, (w - lines[k].len()) as nat);
        }
    }
    assert forall|i: int, j: int|
        0 <= i < lines.len() && 0 <= j < lines.len() implies #[trigger] box_row(lines[i], w).len()
        == #[trigger] box_row(lines[j], w).len() by {
        assert(pad_to(lines[i], w).len() == w);
        assert(pad_to(lines[j], w).len() == w);
    }
}

} // verus!
