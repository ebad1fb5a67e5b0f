//! Laying out palette rows in a given number of terminal columns.
use unicode_width::{UnicodeWidthChar, UnicodeWidthStr};
use vstd::prelude::*;
use crate::model::{PaletteItem, PaletteItemView};
use crate::text::{append_str, chars_of, push_char};

verus! {

/// The number of terminal columns `s` takes (`UnicodeWidthStr::width`).
pub uninterp spec fn str_width(s: Seq<char>) -> usize;

/// The number of terminal columns `c` takes, `None` for a control
/// character (`UnicodeWidthChar::width`).
pub uninterp spec fn char_width(c: char) -> Option<usize>;

/// Calls `UnicodeWidthStr::width`; the contract claims only that the result
/// is a function of the text.
#[verifier::external_body]
fn display_width(s: &str) -> (out: usize)
    ensures
        out == str_width(s@),
{
    UnicodeWidthStr::width(s)
}

/// Calls `UnicodeWidthChar::width`; the contract claims only that the
/// result is a function of the character.
#[verifier::external_body]
fn char_display_width(c: char) -> (out: Option<usize>)
    ensures
        out == char_width(c),
{
    UnicodeWidthChar::width(c)
}

/// The columns a character counts for when truncating: its width, zero for
/// a control character.
pub open spec fn char_cols(c: char) -> int {
    match char_width(c) {
        Some(w) => w as int,
        None => 0,
    }
}

/// How many leading characters of `s`, from `k` on, are kept when each
/// next character must leave room for an ellipsis within `limit` columns:
/// the first `j` for which the kept text, that character and the ellipsis
/// would pass `limit`.
pub open spec fn keep_from(s: Seq<char>, limit: int, k: int) -> int
    decreases s.len() - k,
{
    if k < 0 || k >= s.len() {
        k
    } else if str_width(s.take(k)) + char_cols(s[k]) + 1 > limit {
        k
    } else {
        keep_from(s, limit, k + 1)
    }
}

proof fn lemma_keep_from(s: Seq<char>, limit: int, k: int)
    requires
        0 <= k <= s.len(),
    ensures
        k <= keep_from(s, limit, k) <= s.len(),
    decreases s.len() - k,
{
    if k < s.len() && str_width(s.take(k)) + char_cols(s[k]) + 1 <= limit {
        lemma_keep_from(s, limit, k + 1);
    }
}

/// The kept prefix of `s` for `limit` columns.
pub open spec fn kept_prefix(s: Seq<char>, limit: int) -> Seq<char> {
    s.take(keep_from(s, limit, 0))
}

fn keep_prefix(chars: &Vec<char>, limit: i128) -> (out: String)
    ensures
        out@ == kept_prefix(chars@, limit as int),
{
    let ghost s = chars@;
    let mut kept = String::new();
    let mut k: usize = 0;
    proof {
        assert(s.take(0) =~= Seq::<char>::empty());
    }
    loop
        invariant
            s == chars@,
            k <= s.len(),
            kept@ == s.take(k as int),
            keep_from(s, limit as int, 0) == keep_from(s, limit as int, k as int),
        ensures
            kept@ == s.take(k as int),
            keep_from(s, limit as int, 0) == k,
        decreases s.len() - k,
    {
        if k >= chars.len() {
            break;
        }
        let ch = chars[k];
        let w = display_width(kept.as_str());
        let cw: usize = match char_display_width(ch) {
            Some(x) => x,
            None => 0,
        };
        let total: u128 = w as u128 + cw as u128 + 1;
        if limit < 0 || total > limit as u128 {
            break;
        }
        push_char(&mut kept, ch);
        proof {
            assert(s.take(k + 1) =~= s.take(k as int).push(ch));
        }
        k = k + 1;
    }
    kept
}

/// A line cut to `cols` columns: whole when it fits, else the longest
/// prefix that leaves room for a final ellipsis before the last column.
pub open spec fn truncate_line_spec(line: Seq<char>, cols: int) -> Seq<char> {
    if str_width(line) <= cols {
        line
    } else {
        kept_prefix(line, cols - 1).push('…')
    }
}

/// The line, cut with an ellipsis when it is wider than `cols`.
pub fn truncate_line(line: &str, cols: usize) -> (out: String)
    ensures
        out@ == truncate_line_spec(line@, cols as int),
{
    if display_width(line) <= cols {
        return line.to_owned();
    }
    let chars = chars_of(line);
    let mut truncated = keep_prefix(&chars, cols as i128 - 1);
    push_char(&mut truncated, '…');
    truncated
}

/// A fragment cut to `max_width` columns: nothing for no room, whole when
/// it fits, a lone ellipsis for one column, else the longest prefix that
/// leaves room for a final ellipsis.
pub open spec fn truncate_fragment_spec(fragment: Seq<char>, max_width: int) -> Seq<char> {
    if max_width == 0 {
        Seq::empty()
    } else if str_width(fragment) <= max_width {
        fragment
    } else if max_width == 1 {
        seq!['…']
    } else {
        kept_prefix(fragment, max_width).push('…')
    }
}

/// The fragment, cut with an ellipsis when it is wider than `max_width`.
pub fn truncate_fragment(fragment: &str, max_width: usize) -> (out: String)
    ensures
        out@ == truncate_fragment_spec(fragment@, max_width as int),
{
    if max_width == 0 {
        return String::new();
    }
    if display_width(fragment) <= max_width {
        return fragment.to_owned();
    }
    if max_width == 1 {
        let mut out = String::new();
        push_char(&mut out, '…');
        proof {
            assert(out@ =~= seq!['…']);
        }
        return out;
    }
    let chars = chars_of(fragment);
    let mut truncated = keep_prefix(&chars, max_width as i128);
    push_char(&mut truncated, '…');
    truncated
}

proof fn lemma_fragment_len(fragment: Seq<char>, max_width: int)
    ensures
        truncate_fragment_spec(fragment, max_width).len() <= fragment.len() + 1,
{
    lemma_keep_from(fragment, max_width, 0);
}

/// How part of a row is coloured.
#[derive(Clone, Copy, Debug, PartialEq, Eq, Structural)]
pub enum LineStyle {
    Accent,
    Alias,
    Muted,
    Success,
}

/// A styled span of a row, in characters from `start` up to `end`.
#[derive(Clone, Copy, Debug, PartialEq, Eq, Structural)]
pub struct StyledRange {
    pub start: usize,
    pub end: usize,
    pub style: LineStyle,
}

/// A row's text and its styled spans.
#[derive(Debug)]
pub struct RenderedLine {
    pub text: String,
    pub ranges: Vec<StyledRange>,
}

/// Styled spans as triples of integers and a style.
pub open spec fn ranges_view(ranges: Seq<StyledRange>) -> Seq<(int, int, LineStyle)> {
    ranges.map_values(|r: StyledRange| (r.start as int, r.end as int, r.style))
}

/// The pieces of a row before its shortcut, with their styles: the icon and
/// two spaces, the title, the first alias in brackets, the description.
pub open spec fn segments(item: PaletteItemView) -> Seq<(Seq<char>, Option<LineStyle>)> {
    let icon = match item.icon {
        Some(i) => seq![
            (
                i,
                Some(
                    if item.icon_color is Some {
                        LineStyle::Success
                    } else {
                        LineStyle::Accent
                    },
                ),
            ),
            ("  "@, None),
        ],
        None => Seq::empty(),
    };
    let alias = if item.aliases.len() > 0 {
        seq![("  ["@ + item.aliases[0] + "]"@, Some(LineStyle::Alias))]
    } else {
        Seq::empty()
    };
    let description = match item.description {
        Some(d) => seq![("  "@ + d, Some(LineStyle::Muted))],
        None => Seq::empty(),
    };
    icon + seq![(item.title, None)] + alias + description
}

/// The row's pieces from the `i`-th on laid out after `text` within
/// `max_left` columns, `left` of them used: each piece is cut to the room
/// left; nothing more is laid once there is no room, a piece is cut to
/// nothing, or a piece had to be shortened.
pub open spec fn lay_out(
    segs: Seq<(Seq<char>, Option<LineStyle>)>,
    i: int,
    max_left: int,
    text: Seq<char>,
    ranges: Seq<(int, int, LineStyle)>,
    left: int,
) -> (Seq<char>, Seq<(int, int, LineStyle)>)
    decreases segs.len() - i,
{
    if i < 0 || i >= segs.len() {
        (text, ranges)
    } else {
        let remaining = if max_left > left {
            max_left - left
        } else {
            0
        };
        if remaining == 0 {
            (text, ranges)
        } else {
            let clipped = truncate_fragment_spec(segs[i].0, remaining);
            if clipped.len() == 0 {
                (text, ranges)
            } else {
                let w = str_width(clipped) as int;
                let text2 = text + clipped;
                let ranges2 = match segs[i].1 {
                    Some(style) => ranges.push((text.len() as int, text2.len() as int, style)),
                    None => ranges,
                };
                if w < str_width(segs[i].0) {
                    (text2, ranges2)
                } else {
                    lay_out(segs, i + 1, max_left, text2, ranges2, left + w)
                }
            }
        }
    }
}

/// The shortcut label of an item, empty when it has none.
pub open spec fn shortcut_text(item: PaletteItemView) -> Seq<char> {
    match item.shortcut {
        Some(s) => s,
        None => Seq::empty(),
    }
}

/// The columns left for the pieces before the shortcut: the row less the
/// shortcut and one column of gap before it.
pub open spec fn max_left_width(item: PaletteItemView, cols: int) -> int {
    let sc = shortcut_text(item);
    let need = str_width(sc) + if sc.len() > 0 {
        1int
    } else {
        0int
    };
    if cols >= need {
        cols - need
    } else {
        0
    }
}

/// `n` spaces.
pub open spec fn spaces(n: nat) -> Seq<char> {
    Seq::new(n, |_i: int| ' ')
}

/// A laid-out row with the shortcut placed at its right end, at least one
/// column after the text.
pub open spec fn with_shortcut(
    laid: (Seq<char>, Seq<(int, int, LineStyle)>),
    sc: Seq<char>,
    cols: int,
) -> (Seq<char>, Seq<(int, int, LineStyle)>) {
    if sc.len() > 0 && cols > 0 {
        let t = laid.0;
        let sw = str_width(sc) as int;
        let gap = if t.len() == 0 {
            if cols >= sw {
                cols - sw
            } else {
                0
            }
        } else {
            let r = cols - (str_width(t) + sw);
            if r >= 1 {
                r
            } else {
                1
            }
        };
        (
            t + spaces(gap as nat) + sc,
            laid.1.push((t.len() + gap, t.len() + gap + sc.len(), LineStyle::Accent)),
        )
    } else {
        laid
    }
}

/// A row padded with spaces to `cols` columns.
pub open spec fn padded(laid: (Seq<char>, Seq<(int, int, LineStyle)>), cols: int) -> (
    Seq<char>,
    Seq<(int, int, LineStyle)>,
) {
    let w = str_width(laid.0) as int;
    if w < cols {
        (laid.0 + spaces((cols - w) as nat), laid.1)
    } else {
        laid
    }
}

/// The row of an item in `cols` columns.
pub open spec fn item_line_spec(item: PaletteItemView, cols: int) -> (
    Seq<char>,
    Seq<(int, int, LineStyle)>,
) {
    padded(
        with_shortcut(
            lay_out(segments(item), 0, max_left_width(item, cols), Seq::empty(), Seq::empty(), 0),
            shortcut_text(item),
            cols,
        ),
        cols,
    )
}

/// The number of characters of an optional text.
pub open spec fn opt_len(value: Option<Seq<char>>) -> int {
    match value {
        Some(s) => s.len() as int,
        None => 0,
    }
}

/// The characters an item's row is made of: icon, title, first alias,
/// description and shortcut.
pub open spec fn line_budget(item: PaletteItemView) -> int {
    opt_len(item.icon) + item.title.len() + (if item.aliases.len() > 0 {
        item.aliases[0].len() as int
    } else {
        0
    }) + opt_len(item.description) + opt_len(item.shortcut)
}

/// The total length of the pieces.
pub open spec fn seg_chars(segs: Seq<(Seq<char>, Option<LineStyle>)>) -> int
    decreases segs.len(),
{
    if segs.len() == 0 {
        0
    } else {
        seg_chars(segs.drop_last()) + segs.last().0.len()
    }
}

proof fn lemma_seg_chars_prefix(segs: Seq<(Seq<char>, Option<LineStyle>)>, i: int)
    requires
        0 <= i < segs.len(),
    ensures
        seg_chars(segs.take(i + 1)) == seg_chars(segs.take(i)) + segs[i].0.len(),
{
    assert(segs.take(i + 1).drop_last() =~= segs.take(i));
}

proof fn lemma_seg_chars_upto(segs: Seq<(Seq<char>, Option<LineStyle>)>, k: int)
    requires
        0 <= k <= segs.len(),
    ensures
        0 <= seg_chars(segs.take(k)) <= seg_chars(segs),
    decreases segs.len(),
{
    if k == segs.len() {
        assert(segs.take(k) =~= segs);
        if segs.len() > 0 {
            lemma_seg_chars_upto(segs.drop_last(), k - 1);
            assert(segs.drop_last().take(k - 1) =~= segs.drop_last());
        }
    } else {
        lemma_seg_chars_upto(segs.drop_last(), k);
        assert(segs.drop_last().take(k) =~= segs.take(k));
    }
}

proof fn lemma_seg_chars_append(a: Seq<(Seq<char>, Option<LineStyle>)>, b: Seq<(Seq<char>, Option<LineStyle>)>)
    ensures
        seg_chars(a + b) == seg_chars(a) + seg_chars(b),
    decreases b.len(),
{
    if b.len() == 0 {
        assert(a + b =~= a);
    } else {
        lemma_seg_chars_append(a, b.drop_last());
        assert((a + b).drop_last() =~= a + b.drop_last());
    }
}

proof fn lemma_seg_chars_bound(item: PaletteItemView)
    ensures
        seg_chars(segments(item)) + opt_len(item.shortcut) <= line_budget(item) + 8,
        segments(item).len() <= 5,
{
    let icon = match item.icon {
        Some(i) => seq![
            (
                i,
                Some(
                    if item.icon_color is Some {
                        LineStyle::Success
                    } else {
                        LineStyle::Accent
                    },
                ),
            ),
            ("  "@, None),
        ],
        None => Seq::empty(),
    };
    let alias = if item.aliases.len() > 0 {
        seq![("  ["@ + item.aliases[0] + "]"@, Some(LineStyle::Alias))]
    } else {
        Seq::empty()
    };
    let description = match item.description {
        Some(d) => seq![("  "@ + d, Some(LineStyle::Muted))],
        None => Seq::empty(),
    };
    let title = seq![(item.title, None::<LineStyle>)];
    reveal_strlit("  ");
    reveal_strlit("  [");
    reveal_strlit("]");
    lemma_seg_chars_append(icon, title);
    lemma_seg_chars_append(icon + title, alias);
    lemma_seg_chars_append(icon + title + alias, description);
    reveal_with_fuel(seg_chars, 3);
    assert(seq![(item.title, None::<LineStyle>)].drop_last() =~= Seq::<(Seq<char>, Option<LineStyle>)>::empty());
    if item.icon is Some {
        assert(icon.drop_last().drop_last() =~= Seq::<(Seq<char>, Option<LineStyle>)>::empty());
        assert(seg_chars(icon) == item.icon->0.len() + 2);
    }
    if item.aliases.len() > 0 {
        assert(alias.drop_last() =~= Seq::<(Seq<char>, Option<LineStyle>)>::empty());
    }
    if item.description is Some {
        assert(description.drop_last() =~= Seq::<(Seq<char>, Option<LineStyle>)>::empty());
    }
}

fn push_spaces(out: &mut String, n: usize)
    ensures
        final(out)@ == old(out)@ + spaces(n as nat),
{
    let mut k: usize = 0;
    while k < n
        invariant
            k <= n,
            out@ == old(out)@ + spaces(k as nat),
        decreases n - k,
    {
        push_char(out, ' ');
        proof {
            assert(old(out)@ + spaces((k + 1) as nat) =~= (old(out)@ + spaces(k as nat)).push(' '));
        }
        k = k + 1;
    }
}

fn item_segments(item: &PaletteItem) -> (out: Vec<(String, Option<LineStyle>)>)
    ensures
        out@.map_values(|p: (String, Option<LineStyle>)| (p.0@, p.1)) == segments(item@),
{
    let mut segs: Vec<(String, Option<LineStyle>)> = Vec::new();
    if let Some(icon) = &item.icon {
        let style = if item.icon_color.is_some() {
            LineStyle::Success
        } else {
            LineStyle::Accent
        };
        segs.push((icon.clone(), Some(style)));
        segs.push(("  ".to_owned(), None));
    }
    segs.push((item.title.clone(), None));
    if item.aliases.len() > 0 {
        let mut alias = String::new();
        append_str(&mut alias, "  [");
        append_str(&mut alias, item.aliases[0].as_str());
        append_str(&mut alias, "]");
        segs.push((alias, Some(LineStyle::Alias)));
    }
    if let Some(description) = &item.description {
        let mut d = String::new();
        append_str(&mut d, "  ");
        append_str(&mut d, description.as_str());
        segs.push((d, Some(LineStyle::Muted)));
    }
    proof {
        assert(segs@.map_values(|p: (String, Option<LineStyle>)| (p.0@, p.1)) =~= segments(item@));
    }
    segs
}

/// The row of `item` in `cols` columns: icon, title, first alias and
/// description as far as they fit, the shortcut at the right end, padded
/// to the full width, with the styled spans.
pub fn item_line(item: &PaletteItem, cols: usize) -> (out: RenderedLine)
    requires
        line_budget(item@) + 2 * cols + 64 <= usize::MAX,
    ensures
        (out.text@, ranges_view(out.ranges@)) == item_line_spec(item@, cols as int),
{
    let shortcut: &str = match &item.shortcut {
        Some(s) => s.as_str(),
        None => "",
    };
    proof {
        reveal_strlit("");
    }
    let shortcut_chars = chars_of(shortcut);
    let shortcut_width = display_width(shortcut);
    let reserved_gap: u128 = if shortcut_chars.len() > 0 {
        1
    } else {
        0
    };
    let need: u128 = shortcut_width as u128 + reserved_gap;
    let max_left: usize = if cols as u128 >= need {
        (cols as u128 - need) as usize
    } else {
        0
    };
    proof {
        assert(shortcut@ == shortcut_text(item@));
        assert(max_left as int == max_left_width(item@, cols as int));
    }
    let segs = item_segments(item);
    let ghost sv = segs@.map_values(|p: (String, Option<LineStyle>)| (p.0@, p.1));
    proof {
        lemma_seg_chars_bound(item@);
        assert(sv.take(0) =~= Seq::<(Seq<char>, Option<LineStyle>)>::empty());
    }
    let mut text = String::new();
    let mut ranges: Vec<StyledRange> = Vec::new();
    let mut left_width: u128 = 0;
    let mut char_len: usize = 0;
    let mut i: usize = 0;
    proof {
        assert(ranges_view(ranges@) =~= Seq::<(int, int, LineStyle)>::empty());
    }
    loop
        invariant_except_break
            char_len <= seg_chars(sv.take(i as int)) + i,
            lay_out(sv, 0, max_left as int, Seq::empty(), Seq::empty(), 0) == lay_out(
                sv,
                i as int,
                max_left as int,
                text@,
                ranges_view(ranges@),
                left_width as int,
            ),
        invariant
            sv == segs@.map_values(|p: (String, Option<LineStyle>)| (p.0@, p.1)),
            sv == segments(item@),
            sv.len() <= 5,
            seg_chars(sv) + opt_len(item@.shortcut) <= line_budget(item@) + 8,
            line_budget(item@) + 2 * cols + 64 <= usize::MAX,
            i <= sv.len(),
            char_len == text@.len(),
            left_width <= 2 * (usize::MAX as u128),
        ensures
            char_len == text@.len(),
            char_len + opt_len(item@.shortcut) <= line_budget(item@) + 13,
            lay_out(sv, 0, max_left as int, Seq::empty(), Seq::empty(), 0) == (
                text@,
                ranges_view(ranges@),
            ),
        decreases sv.len() - i,
    {
        proof {
            lemma_seg_chars_upto(sv, i as int);
            if i < sv.len() {
                lemma_seg_chars_prefix(sv, i as int);
                lemma_seg_chars_upto(sv, i + 1);
            }
        }
        if i >= segs.len() {
            break;
        }
        let remaining: usize = if max_left as u128 > left_width {
            (max_left as u128 - left_width) as usize
        } else {
            0
        };
        if remaining == 0 {
            break;
        }
        let segment = &segs[i].0;
        let style = segs[i].1;
        let clipped = truncate_fragment(segment.as_str(), remaining);
        let clipped_chars = chars_of(clipped.as_str());
        if clipped_chars.len() == 0 {
            break;
        }
        proof {
            lemma_fragment_len(sv[i as int].0, remaining as int);
        }
        let segment_width = display_width(clipped.as_str());
        let start = char_len;
        let ghost before_text = text@;
        let ghost before_ranges = ranges_view(ranges@);
        append_str(&mut text, clipped.as_str());
        char_len = char_len + clipped_chars.len();
        left_width = left_width + segment_width as u128;
        match style {
            Some(st) => {
                ranges.push(StyledRange { start, end: char_len, style: st });
                proof {
                    assert(ranges_view(ranges@) =~= before_ranges.push(
                        (before_text.len() as int, text@.len() as int, st),
                    ));
                }
            },
            None => {},
        }
        if segment_width < display_width(segment.as_str()) {
            break;
        }
        i = i + 1;
    }
    let ghost laid = (text@, ranges_view(ranges@));
    proof {
        assert(laid == lay_out(
            segments(item@),
            0,
            max_left_width(item@, cols as int),
            Seq::empty(),
            Seq::empty(),
            0,
        ));
    }
    if shortcut_chars.len() > 0 && cols > 0 {
        let gap: usize = if char_len == 0 {
            if cols >= shortcut_width {
                cols - shortcut_width
            } else {
                0
            }
        } else {
            let used: u128 = display_width(text.as_str()) as u128 + shortcut_width as u128;
            if cols as u128 >= used + 1 {
                (cols as u128 - used) as usize
            } else {
                1
            }
        };
        let ghost laid_text = text@;
        let ghost laid_ranges = ranges_view(ranges@);
        proof {
            assert(shortcut@ == shortcut_text(item@));
            assert(gap <= cols);
        }
        push_spaces(&mut text, gap);
        let start = char_len + gap;
        append_str(&mut text, shortcut);
        let end = start + shortcut_chars.len();
        ranges.push(StyledRange { start, end, style: LineStyle::Accent });
        proof {
            assert(ranges_view(ranges@) =~= laid_ranges.push(
                (laid_text.len() + gap, laid_text.len() + gap + shortcut@.len(), LineStyle::Accent),
            ));
            assert((text@, ranges_view(ranges@)) == with_shortcut(
                (laid_text, laid_ranges),
                shortcut_text(item@),
                cols as int,
            ));
        }
    }
    let ghost placed = (text@, ranges_view(ranges@));
    proof {
        assert(placed == with_shortcut(laid, shortcut_text(item@), cols as int));
    }
    let width = display_width(text.as_str());
    if width < cols {
        push_spaces(&mut text, cols - width);
    }
    proof {
        assert((text@, ranges_view(ranges@)) == padded(placed, cols as int));
    }
    RenderedLine { text, ranges }
}

} // verus!
