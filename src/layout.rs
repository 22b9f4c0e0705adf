//! Text layout: greedy word wrap of a list of items into physical lines, and
//! placement of those lines under a line budget.

use vstd::prelude::*;
use crate::text::{split_on, split_spec, views_of};

verus! {

/// The pieces of a sequence that are not empty, in order.
pub open spec fn non_empty(ps: Seq<Seq<char>>) -> Seq<Seq<char>>
    decreases ps.len(),
{
    if ps.len() == 0 {
        Seq::empty()
    } else {
        let prev = non_empty(ps.drop_last());
        if ps.last().len() > 0 {
            prev.push(ps.last())
        } else {
            prev
        }
    }
}

/// The words of a text: its runs of characters other than a space.
pub open spec fn words(s: Seq<char>) -> Seq<Seq<char>> {
    non_empty(split_spec(s, ' '))
}

/// Greedy wrap: each word joins the current line, after one space, while the
/// line stays within `width`; otherwise it starts a new line. A word longer
/// than `width` stands alone on its line.
pub open spec fn wrap_words(ws: Seq<Seq<char>>, width: nat) -> Seq<Seq<char>>
    decreases ws.len(),
{
    if ws.len() == 0 {
        Seq::empty()
    } else {
        let prev = wrap_words(ws.drop_last(), width);
        let w = ws.last();
        if prev.len() > 0 && prev.last().len() + 1 + w.len() <= width {
            prev.update(prev.len() - 1, prev.last() + seq![' '] + w)
        } else {
            prev.push(w)
        }
    }
}

/// The physical lines of a text wrapped at `width` columns.
pub open spec fn wrapped_text(s: Seq<char>, width: nat) -> Seq<Seq<char>> {
    wrap_words(words(s), width)
}

/// Wraps `s` into lines of at most `width` characters, breaking at spaces.
pub fn wrap(s: &str, width: usize) -> (r: Vec<String>)
    ensures
        views_of(r@) == wrapped_text(s@, width as nat),
{
    let pieces = split_on(s, ' ');
    let ghost pv = views_of(pieces@);
    let mut lines: Vec<String> = Vec::new();
    let mut cur = String::new();
    let mut cur_len: usize = 0;
    let mut has_cur = false;
    let mut i: usize = 0;
    proof {
        reveal_strlit(" ");
    }
    assert(pv.subrange(0, 0) =~= Seq::<Seq<char>>::empty());
    assert(views_of(lines@) =~= Seq::<Seq<char>>::empty());
    while i < pieces.len()
        invariant
            pv == views_of(pieces@),
            i <= pieces.len(),
            " "@ == seq![' '],
            has_cur ==> views_of(lines@).push(cur@) == wrap_words(
                non_empty(pv.subrange(0, i as int)),
                width as nat,
            ),
            has_cur ==> cur_len == cur@.len(),
            !has_cur ==> lines@.len() == 0 && wrap_words(
                non_empty(pv.subrange(0, i as int)),
                width as nat,
            ).len() == 0,
        decreases pieces.len() - i,
    {
        let ghost ws = non_empty(pv.subrange(0, i as int));
        assert(pv.subrange(0, i + 1).drop_last() =~= pv.subrange(0, i as int));
        assert(pv.subrange(0, i + 1).last() == pieces@[i as int]@);
        let p = &pieces[i];
        let plen = p.as_str().unicode_len();
        if plen > 0 {
            let ghost w = p@;
            assert(non_empty(pv.subrange(0, i + 1)) == ws.push(w));
            assert(ws.push(w).drop_last() =~= ws);
            if has_cur && cur_len < width && plen <= width - cur_len - 1 {
                let ghost old_cur = cur@;
                cur.append(" ");
                cur.append(p.as_str());
                cur_len = cur_len + 1 + plen;
                assert(views_of(lines@).push(cur@) =~= wrap_words(ws, width as nat).update(
                    wrap_words(ws, width as nat).len() - 1,
                    old_cur + seq![' '] + w,
                ));
            } else {
                if has_cur {
                    let ghost before = lines@;
                    lines.push(cur);
                    assert(views_of(lines@) =~= views_of(before).push(
                        wrap_words(ws, width as nat).last(),
                    ));
                    assert(views_of(lines@) =~= wrap_words(ws, width as nat));
                }
                cur = p.clone();
                cur_len = plen;
                has_cur = true;
            }
        } else {
            assert(non_empty(pv.subrange(0, i + 1)) == ws);
        }
        i += 1;
    }
    assert(pv.subrange(0, pieces.len() as int) =~= pv);
    if has_cur {
        lines.push(cur);
    }
    assert(views_of(lines@) =~= wrapped_text(s@, width as nat));
    lines
}

/// What `layout` is given besides the items.
#[derive(Clone, Copy, Debug, PartialEq, Eq, Structural)]
pub struct LayoutParams {
    /// The line budget.
    pub max_lines: usize,
    /// The width budget, in characters.
    pub max_width: usize,
    pub origin_x: u32,
    pub origin_y: u32,
    pub font_size: u32,
    /// The vertical advance after each line and after each item.
    pub line_height: u32,
}

/// One placed piece of text.
#[derive(Clone, Debug, PartialEq, Eq)]
pub struct Fragment {
    pub text: String,
    pub x: u32,
    pub y: u128,
    pub font_size: u32,
}

impl View for Fragment {
    type V = (Seq<char>, u32, int, u32);

    open spec fn view(&self) -> (Seq<char>, u32, int, u32) {
        (self.text@, self.x, self.y as int, self.font_size)
    }
}

pub open spec fn fragment_views(v: Seq<Fragment>) -> Seq<(Seq<char>, u32, int, u32)> {
    v.map_values(|f: Fragment| f@)
}

/// The marker that stands for content left out.
pub open spec fn placeholder() -> Seq<char> {
    seq!['*', ' ', '*', ' ', '*']
}

/// A fragment of `text` at cursor position `slot`.
pub open spec fn frag_at(text: Seq<char>, slot: int, p: LayoutParams) -> (Seq<char>, u32, int, u32) {
    (text, p.origin_x, p.origin_y + slot * p.line_height, p.font_size)
}

/// Fragments for `lines`, from cursor position `slot` down.
pub open spec fn line_frags(lines: Seq<Seq<char>>, slot: int, p: LayoutParams) -> Seq<
    (Seq<char>, u32, int, u32),
> {
    Seq::new(lines.len(), |j: int| frag_at(lines[j], slot + j, p))
}

/// How many lines of an item may be shown after `count` lines before the
/// last budget line goes to the placeholder; at least one.
pub open spec fn keep_count(count: int, max_lines: int) -> int {
    if max_lines > count + 1 {
        max_lines - count - 1
    } else {
        1
    }
}

/// The layout of items `i..` of `wrapped`, after `count` lines with the
/// cursor at position `slot`. An item after the first is shown only if it
/// fits whole under the budget; otherwise the layout ends. An item with more
/// lines than `keep_count` shows that many and then the placeholder, and the
/// layout ends. The cursor moves one position after each line and after
/// each item.
pub open spec fn layout_from(
    wrapped: Seq<Seq<Seq<char>>>,
    i: int,
    count: int,
    slot: int,
    p: LayoutParams,
) -> Seq<(Seq<char>, u32, int, u32)>
    decreases wrapped.len() - i,
{
    if i < 0 || i >= wrapped.len() {
        Seq::empty()
    } else {
        let lines = wrapped[i];
        let n = lines.len() as int;
        if i > 0 && count + n >= p.max_lines {
            Seq::empty()
        } else {
            let keep = keep_count(count, p.max_lines as int);
            if keep < n {
                line_frags(lines.take(keep), slot, p).push(frag_at(placeholder(), slot + keep, p))
            } else {
                line_frags(lines, slot, p) + layout_from(wrapped, i + 1, count + n, slot + n + 1, p)
            }
        }
    }
}

/// The layout of all items, given as their wrapped lines.
pub open spec fn layout_spec(wrapped: Seq<Seq<Seq<char>>>, p: LayoutParams) -> Seq<
    (Seq<char>, u32, int, u32),
> {
    layout_from(wrapped, 0, 0, 0, p)
}

/// The wrapped lines of each item.
pub open spec fn wrap_all(items: Seq<String>, width: nat) -> Seq<Seq<Seq<char>>> {
    Seq::new(items.len(), |i: int| wrapped_text(items[i]@, width))
}


/// Whether `t` is one of the wrapped lines of some item.
pub open spec fn is_item_line(wrapped: Seq<Seq<Seq<char>>>, t: Seq<char>) -> bool {
    exists|a: int, b: int|
        0 <= a < wrapped.len() && 0 <= b < wrapped[a].len() && #[trigger] wrapped[a][b] == t
}

/// Past the first item, the layout shows whole items only: it stays within
/// what is left of the budget, and every fragment is a line of some item.
proof fn lemma_later_items(wrapped: Seq<Seq<Seq<char>>>, i: int, count: int, slot: int, p: LayoutParams)
    requires
        i >= 1,
        0 <= count <= p.max_lines,
    ensures
        layout_from(wrapped, i, count, slot, p).len() <= p.max_lines - count,
        forall|k: int|
            0 <= k < layout_from(wrapped, i, count, slot, p).len() ==> is_item_line(
                wrapped,
                (#[trigger] layout_from(wrapped, i, count, slot, p)[k]).0,
            ),
    decreases wrapped.len() - i,
{
    if i < wrapped.len() {
        let n = wrapped[i].len() as int;
        if count + n < p.max_lines {
            let rest = layout_from(wrapped, i + 1, count + n, slot + n + 1, p);
            lemma_later_items(wrapped, i + 1, count + n, slot + n + 1, p);
            let out = layout_from(wrapped, i, count, slot, p);
            assert(out == line_frags(wrapped[i], slot, p) + rest);
            assert forall|k: int| 0 <= k < out.len() implies is_item_line(
                wrapped,
                (#[trigger] out[k]).0,
            ) by {
                if k < n {
                    assert(out[k].0 == wrapped[i][k]);
                } else {
                    assert(out[k] == rest[k - n]);
                }
            }
        }
    }
}

/// The first item is never dropped: its first lines, as many as the budget
/// leaves before the placeholder (at least one), open the layout.
pub proof fn lemma_first_item_shown(wrapped: Seq<Seq<Seq<char>>>, p: LayoutParams)
    requires
        wrapped.len() > 0,
    ensures
        ({
            let out = layout_spec(wrapped, p);
            let keep = keep_count(0, p.max_lines as int);
            let shown = if wrapped[0].len() < keep { wrapped[0].len() as int } else { keep };
            &&& out.len() >= shown
            &&& forall|j: int| 0 <= j < shown ==> out[j] == frag_at(wrapped[0][j], j, p)
        }),
{
}

/// The layout never holds more lines than the budget, placeholder included,
/// unless the budget is below two and the first item alone exceeds it.
pub proof fn lemma_layout_within_budget(wrapped: Seq<Seq<Seq<char>>>, p: LayoutParams)
    requires
        wrapped.len() > 0,
        p.max_lines >= 2 || wrapped[0].len() <= p.max_lines,
    ensures
        layout_spec(wrapped, p).len() <= p.max_lines,
{
    let n = wrapped[0].len() as int;
    let keep = keep_count(0, p.max_lines as int);
    if keep >= n {
        lemma_later_items(wrapped, 1, n, n + 1, p);
    }
}

/// Whether the first item has more lines than it may show.
pub open spec fn truncated(wrapped: Seq<Seq<Seq<char>>>, p: LayoutParams) -> bool {
    wrapped.len() > 0 && wrapped[0].len() > keep_count(0, p.max_lines as int)
}

/// The placeholder comes exactly when content is cut short: then it follows
/// the lines that the budget left room for, and ends the layout; otherwise
/// every fragment is a line of some item.
pub proof fn lemma_placeholder_iff_cut(wrapped: Seq<Seq<Seq<char>>>, p: LayoutParams)
    ensures
        truncated(wrapped, p) ==> layout_spec(wrapped, p) == line_frags(
            wrapped[0].take(keep_count(0, p.max_lines as int)),
            0,
            p,
        ).push(frag_at(placeholder(), keep_count(0, p.max_lines as int), p)),
        !truncated(wrapped, p) ==> forall|k: int|
            0 <= k < layout_spec(wrapped, p).len() ==> is_item_line(
                wrapped,
                (#[trigger] layout_spec(wrapped, p)[k]).0,
            ),
{
    if wrapped.len() > 0 && !truncated(wrapped, p) {
        let n = wrapped[0].len() as int;
        let out = layout_spec(wrapped, p);
        let rest = layout_from(wrapped, 1, n, n + 1, p);
        if n <= p.max_lines {
            lemma_later_items(wrapped, 1, n, n + 1, p);
        } else {
            assert(rest.len() == 0);
        }
        assert(out == line_frags(wrapped[0], 0, p) + rest);
        assert forall|k: int| 0 <= k < out.len() implies is_item_line(
            wrapped,
            (#[trigger] out[k]).0,
        ) by {
            if k < n {
                assert(out[k].0 == wrapped[0][k]);
            } else {
                assert(out[k] == rest[k - n]);
            }
        }
    }
}

/// Appends fragments for the first `m` of `lines`, from cursor position `slot`.
fn place_lines(out: &mut Vec<Fragment>, lines: &Vec<String>, m: usize, slot: u128, p: &LayoutParams)
    requires
        m <= lines@.len(),
        slot + m <= 0x4_0000_0000_0000_0000,
    ensures
        fragment_views(final(out)@) == fragment_views(old(out)@) + line_frags(
            views_of(lines@).take(m as int),
            slot as int,
            *p,
        ),
{
    let ghost start = fragment_views(out@);
    let mut j: usize = 0;
    while j < m
        invariant
            j <= m,
            m <= lines@.len(),
            slot + m <= 0x4_0000_0000_0000_0000,
            fragment_views(out@) == start + line_frags(
                views_of(lines@).take(j as int),
                slot as int,
                *p,
            ),
        decreases m - j,
    {
        let pos: u128 = slot + j as u128;
        let lh = p.line_height;
        assert(pos * (lh as int) <= 0x4_0000_0000_0000_0000 * 0x1_0000_0000) by (nonlinear_arith)
            requires
                pos <= 0x4_0000_0000_0000_0000,
                lh <= 0xFFFF_FFFF,
        ;
        let y: u128 = p.origin_y as u128 + pos * lh as u128;
        let ghost before = fragment_views(out@);
        out.push(Fragment { text: lines[j].clone(), x: p.origin_x, y, font_size: p.font_size });
        assert(fragment_views(out@) =~= before.push(
            frag_at(views_of(lines@)[j as int], slot + j, *p),
        ));
        assert(line_frags(views_of(lines@).take(j + 1), slot as int, *p) =~= line_frags(
            views_of(lines@).take(j as int),
            slot as int,
            *p,
        ).push(frag_at(views_of(lines@)[j as int], slot + j, *p)));
        j += 1;
    }
}

/// Lays out `items`: each is wrapped at `max_width`, and its lines placed one
/// below the other under the line budget (see `layout_from`).
pub fn layout(items: &Vec<String>, p: &LayoutParams) -> (r: Vec<Fragment>)
    ensures
        fragment_views(r@) == layout_spec(wrap_all(items@, p.max_width as nat), *p),
{
    let ghost w = wrap_all(items@, p.max_width as nat);
    let mut out: Vec<Fragment> = Vec::new();
    let mut count: usize = 0;
    let mut slot: u128 = 0;
    let mut i: usize = 0;
    proof {
        reveal_strlit("* * *");
    }
    assert(fragment_views(out@) =~= Seq::<(Seq<char>, u32, int, u32)>::empty());
    assert(layout_spec(w, *p) =~= fragment_views(out@) + layout_from(w, 0, 0, 0, *p));
    while i < items.len()
        invariant
            w == wrap_all(items@, p.max_width as nat),
            i <= items.len(),
            i == 0 ==> count == 0 && slot == 0,
            slot <= count + i,
            "* * *"@ == placeholder(),
            layout_spec(w, *p) == fragment_views(out@) + layout_from(
                w,
                i as int,
                count as int,
                slot as int,
                *p,
            ),
        decreases items.len() - i,
    {
        let lines = wrap(items[i].as_str(), p.max_width);
        let n = lines.len();
        assert(views_of(lines@) == w[i as int]);
        assert(views_of(lines@).len() == n);
        if i > 0 && (count >= p.max_lines || n >= p.max_lines - count) {
            assert(layout_from(w, i as int, count as int, slot as int, *p) =~= Seq::<
                (Seq<char>, u32, int, u32),
            >::empty());
            assert(fragment_views(out@) + Seq::<(Seq<char>, u32, int, u32)>::empty()
                =~= fragment_views(out@));
            return out;
        }
        let keep: usize = if p.max_lines > 1 && count < p.max_lines - 1 {
            p.max_lines - 1 - count
        } else {
            1
        };
        assert(keep == keep_count(count as int, p.max_lines as int));
        if keep < n {
            let ghost base = fragment_views(out@);
            place_lines(&mut out, &lines, keep, slot, p);
            let pos: u128 = slot + keep as u128;
            let lh = p.line_height;
            assert(pos * (lh as int) <= 0x4_0000_0000_0000_0000 * 0x1_0000_0000)
                by (nonlinear_arith)
                requires
                    pos <= 0x4_0000_0000_0000_0000,
                    lh <= 0xFFFF_FFFF,
            ;
            let y: u128 = p.origin_y as u128 + pos * lh as u128;
            let ghost mid = fragment_views(out@);
            out.push(
                Fragment {
                    text: String::from_str("* * *"),
                    x: p.origin_x,
                    y,
                    font_size: p.font_size,
                },
            );
            assert(fragment_views(out@) =~= mid.push(frag_at(placeholder(), slot + keep, *p)));
            assert(fragment_views(out@) =~= base + layout_from(
                w,
                i as int,
                count as int,
                slot as int,
                *p,
            ));
            return out;
        }
        let ghost base = fragment_views(out@);
        place_lines(&mut out, &lines, n, slot, p);
        assert(views_of(lines@).take(n as int) =~= views_of(lines@));
        assert(base + layout_from(w, i as int, count as int, slot as int, *p) =~= fragment_views(
            out@,
        ) + layout_from(w, i + 1, count + n, slot + n + 1, *p));
        count = count + n;
        slot = slot + n as u128 + 1;
        i += 1;
    }
    assert(layout_from(w, i as int, count as int, slot as int, *p) =~= Seq::<
        (Seq<char>, u32, int, u32),
    >::empty());
    assert(fragment_views(out@) + Seq::<(Seq<char>, u32, int, u32)>::empty() =~= fragment_views(
        out@,
    ));
    out
}

} // verus!
