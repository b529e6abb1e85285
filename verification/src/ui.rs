//! Screen layout of the picker: where the header, the framed box and its
//! two panes go, which padding to use, and the banner text.

use vstd::prelude::*;
use crate::app::App;
use crate::config::{Config, Project, ProjectView, spec_expanded};
use crate::git_info::ProjectInfo;
use crate::paths::{home_dir, opt_str_view};
use crate::text::{chars_of, push_char, spec_decimal, spec_join, strings_view, join, str_to_string, usize_to_decimal};

verus! {

/// A screen rectangle in terminal cells.
#[derive(Clone, Copy, Debug, PartialEq, Eq, Structural, Default)]
pub struct Rect {
    pub x: u16,
    pub y: u16,
    pub width: u16,
    pub height: u16,
}

impl Rect {
    /// A rectangle whose right and bottom edges stay within the coordinate
    /// range (`ratatui::layout::Rect::new`).
    pub fn new(x: u16, y: u16, width: u16, height: u16) -> (r: Rect)
        ensures
            r.x == x,
            r.y == y,
            r.width == (if width > u16::MAX - x { (u16::MAX - x) as u16 } else { width }),
            r.height == (if height > u16::MAX - y { (u16::MAX - y) as u16 } else { height }),
    {
        let max_width = u16::MAX - x;
        let max_height = u16::MAX - y;
        let width = if width > max_width { max_width } else { width };
        let height = if height > max_height { max_height } else { height };
        Rect { x, y, width, height }
    }
}

/// How much room to leave inside the box.
#[derive(Clone, Copy, Debug, PartialEq, Eq, Structural)]
pub enum PaddingMode {
    Normal,
    Small,
    Tiny,
}

/// Terminals at most this wide use fixed margins instead of a centered box.
pub const LAYOUT_BREAKPOINT: u16 = 120;
/// The margin around the box on narrow terminals.
pub const LAYOUT_MARGIN: u16 = 2;
/// The least terminal height for the large banner.
pub const LARGE_HEADER_HEIGHT_BREAKPOINT: u16 = 34;
/// Rows of the large banner.
pub const LARGE_HEADER_HEIGHT: u16 = 10;
/// Rows between the large banner and the box.
pub const LARGE_HEADER_GAP: u16 = 2;
/// Rows of the one-line title.
pub const COMPACT_HEADER_HEIGHT: u16 = 1;
/// Rows between the one-line title and the box.
pub const COMPACT_HEADER_GAP: u16 = 1;
/// Window widths below this many pixels use small padding.
pub const SMALL_WINDOW_WIDTH_PX: u16 = 1500;
/// Window heights below this many pixels use small padding.
pub const SMALL_WINDOW_HEIGHT_PX: u16 = 900;
/// Window widths up to this many pixels use tiny padding.
pub const TINY_WINDOW_WIDTH_PX: u16 = 1000;
/// Window heights up to this many pixels use tiny padding.
pub const TINY_WINDOW_HEIGHT_PX: u16 = 750;
/// Horizontal padding in tiny mode.
pub const TINY_H_PAD: u16 = 2;
/// Vertical padding in tiny mode.
pub const TINY_V_PAD: u16 = 1;

// ---------------------------------------------------------------------------
// Padding.
// ---------------------------------------------------------------------------

/// The padding mode for a window of the given pixel size, when the
/// terminal reports one: tiny up to 1000x750, small below 1500x900, normal
/// otherwise and when the size is unknown or zero.
pub open spec fn spec_padding_mode(size: Option<(u16, u16)>) -> PaddingMode {
    match size {
        Some((w, h)) => if w > 0 && h > 0 {
            if w <= TINY_WINDOW_WIDTH_PX || h <= TINY_WINDOW_HEIGHT_PX {
                PaddingMode::Tiny
            } else if w < SMALL_WINDOW_WIDTH_PX || h < SMALL_WINDOW_HEIGHT_PX {
                PaddingMode::Small
            } else {
                PaddingMode::Normal
            }
        } else {
            PaddingMode::Normal
        },
        None => PaddingMode::Normal,
    }
}

/// The padding mode for a window of the given pixel size.
pub fn padding_mode_for_window(size: Option<(u16, u16)>) -> (m: PaddingMode)
    ensures
        m == spec_padding_mode(size),
{
    match size {
        Some((w, h)) => {
            if w > 0 && h > 0 {
                if w <= TINY_WINDOW_WIDTH_PX || h <= TINY_WINDOW_HEIGHT_PX {
                    PaddingMode::Tiny
                } else if w < SMALL_WINDOW_WIDTH_PX || h < SMALL_WINDOW_HEIGHT_PX {
                    PaddingMode::Small
                } else {
                    PaddingMode::Normal
                }
            } else {
                PaddingMode::Normal
            }
        },
        None => PaddingMode::Normal,
    }
}

/// `v` limited to `lo..=hi` (`Ord::clamp`, with `lo <= hi`).
pub open spec fn spec_clamp(v: int, lo: int, hi: int) -> int {
    if v < lo {
        lo
    } else if v > hi {
        hi
    } else {
        v
    }
}

fn clamp_u16(v: u16, lo: u16, hi: u16) -> (r: u16)
    requires
        lo <= hi,
    ensures
        r as int == spec_clamp(v as int, lo as int, hi as int),
{
    if v < lo {
        lo
    } else if v > hi {
        hi
    } else {
        v
    }
}

/// The padding inside the box: an eighth of its width within 4..=12 and a
/// quarter of its height within 2..=6, halved in small mode, and fixed at
/// 2 by 1 in tiny mode.
pub open spec fn spec_inner_padding(cb: Rect, mode: PaddingMode) -> (int, int) {
    let h = spec_clamp(cb.width as int / 8, 4, 12);
    let v = spec_clamp(cb.height as int / 4, 2, 6);
    match mode {
        PaddingMode::Normal => (h, v),
        PaddingMode::Small => (h / 2, v / 2),
        PaddingMode::Tiny => (TINY_H_PAD as int, TINY_V_PAD as int),
    }
}

/// The horizontal and vertical padding inside the box.
pub fn inner_padding(content_box: Rect, mode: PaddingMode) -> (r: (u16, u16))
    ensures
        (r.0 as int, r.1 as int) == spec_inner_padding(content_box, mode),
{
    match mode {
        PaddingMode::Normal => (
            clamp_u16(content_box.width / 8, 4, 12),
            clamp_u16(content_box.height / 4, 2, 6),
        ),
        PaddingMode::Small => {
            let h = clamp_u16(content_box.width / 8, 4, 12);
            let v = clamp_u16(content_box.height / 4, 2, 6);
            (h / 2, v / 2)
        },
        PaddingMode::Tiny => (TINY_H_PAD, TINY_V_PAD),
    }
}

// ---------------------------------------------------------------------------
// Header and box geometry.
// ---------------------------------------------------------------------------

/// The width the header may use: the box width.
pub open spec fn spec_available_header_width(t: Rect) -> int {
    if t.width <= LAYOUT_BREAKPOINT {
        if t.width >= 2 * LAYOUT_MARGIN { t.width - 2 * LAYOUT_MARGIN } else { 0 }
    } else {
        t.width * 80 / 100
    }
}

/// Whether the terminal's widths can be computed without overflow: a wide
/// terminal's width times 80 must fit in 16 bits.
pub open spec fn spec_width_in_range(t: Rect) -> bool {
    t.width > LAYOUT_BREAKPOINT ==> t.width * 80 <= u16::MAX
}

/// The width the header may use.
pub fn available_header_width(terminal: Rect) -> (r: u16)
    requires
        spec_width_in_range(terminal),
    ensures
        r as int == spec_available_header_width(terminal),
{
    if terminal.width <= LAYOUT_BREAKPOINT {
        terminal.width.saturating_sub(LAYOUT_MARGIN * 2)
    } else {
        terminal.width * 80 / 100
    }
}

/// The glyph of a banner letter: five rows of five cells.
pub open spec fn spec_banner_glyph(ch: char) -> Seq<Seq<char>> {
    if ch == 'A' {
        seq![" ███ "@, "█   █"@, "█████"@, "█   █"@, "█   █"@]
    } else if ch == 'C' {
        seq![" ████"@, "█    "@, "█    "@, "█    "@, " ████"@]
    } else if ch == 'E' {
        seq!["█████"@, "█    "@, "████ "@, "█    "@, "█████"@]
    } else if ch == 'J' {
        seq!["  ███"@, "   █ "@, "   █ "@, "█  █ "@, " ██  "@]
    } else if ch == 'O' {
        seq![" ███ "@, "█   █"@, "█   █"@, "█   █"@, " ███ "@]
    } else if ch == 'P' {
        seq!["█████"@, "█   █"@, "█████"@, "█    "@, "█    "@]
    } else if ch == 'R' {
        seq!["████ "@, "█   █"@, "████ "@, "█  ██"@, "█   █"@]
    } else if ch == 'T' {
        seq!["█████"@, "  █  "@, "  █  "@, "  █  "@, "  █  "@]
    } else if ch == 'W' {
        seq!["█   █"@, "█   █"@, "█ █ █"@, "██ ██"@, "█   █"@]
    } else {
        seq!["     "@, "     "@, "     "@, "     "@, "     "@]
    }
}

/// The five rows of a banner letter.
pub fn banner_glyph(ch: char) -> (rows: Vec<&'static str>)
    ensures
        rows@.len() == 5,
        rows@.map_values(|r: &str| r@) == spec_banner_glyph(ch),
{
    let rows: Vec<&'static str> = if ch == 'A' {
        vec![" ███ ", "█   █", "█████", "█   █", "█   █"]
    } else if ch == 'C' {
        vec![" ████", "█    ", "█    ", "█    ", " ████"]
    } else if ch == 'E' {
        vec!["█████", "█    ", "████ ", "█    ", "█████"]
    } else if ch == 'J' {
        vec!["  ███", "   █ ", "   █ ", "█  █ ", " ██  "]
    } else if ch == 'O' {
        vec![" ███ ", "█   █", "█   █", "█   █", " ███ "]
    } else if ch == 'P' {
        vec!["█████", "█   █", "█████", "█    ", "█    "]
    } else if ch == 'R' {
        vec!["████ ", "█   █", "████ ", "█  ██", "█   █"]
    } else if ch == 'T' {
        vec!["█████", "  █  ", "  █  ", "  █  ", "  █  "]
    } else if ch == 'W' {
        vec!["█   █", "█   █", "█ █ █", "██ ██", "█   █"]
    } else {
        vec!["     ", "     ", "     ", "     ", "     "]
    };
    assert(rows@.map_values(|r: &str| r@) =~= spec_banner_glyph(ch));
    rows
}

/// Row `row` (of ten) of the banner for `text`: each letter's glyph row
/// (every glyph row drawn twice), letters separated by three spaces.
pub open spec fn spec_banner_row(text: Seq<char>, row: int) -> Seq<char> {
    spec_join(text.map_values(|ch: char| spec_banner_glyph(ch)[(row / 2) as int]), "   "@)
}

/// The ten rows of the banner for `text`.
pub open spec fn spec_banner_rows(text: Seq<char>) -> Seq<Seq<char>> {
    Seq::new(10, |row: int| spec_banner_row(text, row))
}

/// The ten rows of the banner for `text`.
pub fn build_large_header_rows(text: &str) -> (rows: Vec<String>)
    ensures
        strings_view(rows@) == spec_banner_rows(text@),
{
    let chars = chars_of(text);
    let mut rows: Vec<String> = Vec::new();
    let mut row: usize = 0;
    while row < 10
        invariant
            row <= 10,
            chars@ == text@,
            strings_view(rows@) == spec_banner_rows(text@).take(row as int),
        decreases 10 - row,
    {
        let mut parts: Vec<String> = Vec::new();
        let ghost target = text@.map_values(|ch: char| spec_banner_glyph(ch)[(row / 2) as int]);
        let mut i: usize = 0;
        while i < chars.len()
            invariant
                i <= chars@.len(),
                row < 10,
                chars@ == text@,
                target == text@.map_values(|ch: char| spec_banner_glyph(ch)[(row / 2) as int]),
                strings_view(parts@) == target.take(i as int),
            decreases chars@.len() - i,
        {
            let glyph = banner_glyph(chars[i]);
            assert(glyph@.map_values(|r: &str| r@)[(row / 2) as int] == glyph@[(row / 2) as int]@);
            let part = str_to_string(glyph[row / 2]);
            let ghost before = strings_view(parts@);
            parts.push(part);
            assert(strings_view(parts@) =~= before.push(part@));
            assert(target.take(i + 1) =~= target.take(i as int).push(target[i as int]));
            i = i + 1;
        }
        assert(target.take(chars@.len() as int) =~= target);
        let line = join(&parts, "   ");
        let ghost before_rows = strings_view(rows@);
        rows.push(line);
        assert(strings_view(rows@) =~= before_rows.push(line@));
        assert(spec_banner_rows(text@).take(row + 1) =~= spec_banner_rows(text@).take(row as int).push(
            spec_banner_row(text@, row as int),
        ));
        row = row + 1;
    }
    assert(spec_banner_rows(text@).take(10) =~= spec_banner_rows(text@));
    rows
}

/// The number of characters in all the rows together.
pub open spec fn spec_char_total(rows: Seq<Seq<char>>) -> nat
    decreases rows.len(),
{
    if rows.len() == 0 {
        0
    } else {
        spec_char_total(rows.drop_last()) + rows.last().len()
    }
}

/// Where each banner row starts along the color sweep (the characters of
/// the rows before it), and the length of the sweep (all characters, at
/// least one).
pub fn banner_animation_offsets(rows: &Vec<String>) -> (r: (Vec<u32>, u32))
    requires
        spec_char_total(strings_view(rows@)) <= u32::MAX,
    ensures
        r.0@.len() == rows@.len(),
        forall|i: int| 0 <= i < rows@.len() ==> r.0@[i] as nat == spec_char_total(
            #[trigger] strings_view(rows@).take(i),
        ),
        r.1 as nat == (if spec_char_total(strings_view(rows@)) == 0 { 1 } else { spec_char_total(strings_view(rows@)) }),
{
    let ghost rv = strings_view(rows@);
    let mut offsets: Vec<u32> = Vec::new();
    let mut offset: u32 = 0;
    let mut i: usize = 0;
    while i < rows.len()
        invariant
            i <= rows@.len(),
            rv == strings_view(rows@),
            spec_char_total(rv) <= u32::MAX,
            offsets@.len() == i,
            offset as nat == spec_char_total(rv.take(i as int)),
            forall|j: int| 0 <= j < i ==> offsets@[j] as nat == spec_char_total(#[trigger] rv.take(j)),
        decreases rows@.len() - i,
    {
        offsets.push(offset);
        let n = rows[i].as_str().unicode_len();
        assert(rv.take(i + 1).drop_last() =~= rv.take(i as int));
        assert(rv.take(i + 1).last() == rows@[i as int]@);
        proof {
            lemma_char_total_prefix(rv, i + 1);
        }
        offset = offset + n as u32;
        i = i + 1;
    }
    assert(rv.take(rows@.len() as int) =~= rv);
    let total = if offset == 0 { 1 } else { offset };
    (offsets, total)
}

proof fn lemma_char_total_prefix(rows: Seq<Seq<char>>, k: int)
    requires
        0 <= k <= rows.len(),
    ensures
        spec_char_total(rows.take(k)) <= spec_char_total(rows),
    decreases rows.len(),
{
    if k < rows.len() {
        assert(rows.drop_last().take(k) =~= rows.take(k));
        lemma_char_total_prefix(rows.drop_last(), k);
    } else {
        assert(rows.take(k) =~= rows);
    }
}

/// The widest of the given rows, in characters.
pub open spec fn spec_max_len(rows: Seq<Seq<char>>) -> nat
    decreases rows.len(),
{
    if rows.len() == 0 {
        0
    } else {
        let rest = spec_max_len(rows.drop_last());
        if rows.last().len() > rest { rows.last().len() } else { rest }
    }
}

/// The width of the large banner, in cells.
pub open spec fn spec_large_header_width() -> int {
    spec_max_len(spec_banner_rows("PRAWJECTOR"@)) as int
}

/// The width of the large banner, in cells.
pub fn large_header_width() -> (w: u16)
    ensures
        w as int == spec_large_header_width(),
        w == 77,
{
    proof {
        lemma_large_header_width();
    }
    let rows = build_large_header_rows("PRAWJECTOR");
    let ghost rv = strings_view(rows@);
    let mut best: usize = 0;
    let mut i: usize = 0;
    while i < rows.len()
        invariant
            i <= rows@.len(),
            rv == strings_view(rows@),
            rv == spec_banner_rows("PRAWJECTOR"@),
            best as nat == spec_max_len(rv.take(i as int)),
        decreases rows@.len() - i,
    {
        let n = rows[i].as_str().unicode_len();
        assert(rv.take(i + 1).drop_last() =~= rv.take(i as int));
        assert(rv.take(i + 1).last() == rows@[i as int]@);
        if n > best {
            best = n;
        }
        i = i + 1;
    }
    assert(rv.take(rows@.len() as int) =~= rv);
    best as u16
}

/// Whether the large banner is drawn: the terminal is at least 34 rows
/// high and the box is wide enough for the banner.
pub open spec fn spec_use_large_header(t: Rect) -> bool {
    t.height >= LARGE_HEADER_HEIGHT_BREAKPOINT && spec_available_header_width(t)
        >= spec_large_header_width()
}

/// Whether the large banner is drawn.
pub fn use_large_header(terminal: Rect) -> (r: bool)
    requires
        spec_width_in_range(terminal),
    ensures
        r == spec_use_large_header(terminal),
{
    terminal.height >= LARGE_HEADER_HEIGHT_BREAKPOINT && available_header_width(terminal)
        >= large_header_width()
}

/// The header's height and the gap below it.
pub open spec fn spec_header_metrics(t: Rect) -> (int, int) {
    if spec_use_large_header(t) {
        (LARGE_HEADER_HEIGHT as int, LARGE_HEADER_GAP as int)
    } else {
        (COMPACT_HEADER_HEIGHT as int, COMPACT_HEADER_GAP as int)
    }
}

/// The header's height and the gap below it.
pub fn header_metrics(terminal: Rect) -> (r: (u16, u16))
    requires
        spec_width_in_range(terminal),
    ensures
        (r.0 as int, r.1 as int) == spec_header_metrics(terminal),
{
    if use_large_header(terminal) {
        (LARGE_HEADER_HEIGHT, LARGE_HEADER_GAP)
    } else {
        (COMPACT_HEADER_HEIGHT, COMPACT_HEADER_GAP)
    }
}

/// `a - b`, or 0 when `b` is larger (`saturating_sub`).
pub open spec fn spec_sat_sub(a: int, b: int) -> int {
    if a >= b { a - b } else { 0 }
}

/// The framed box: inside fixed margins below the header on narrow
/// terminals; on wide ones 80% of the width, at most 80% of the height,
/// and centered together with the header.
pub open spec fn spec_content_box(t: Rect) -> (int, int, int, int) {
    let (hh, hg) = spec_header_metrics(t);
    if t.width <= LAYOUT_BREAKPOINT {
        (
            t.x + LAYOUT_MARGIN,
            t.y + LAYOUT_MARGIN + hh + hg,
            spec_sat_sub(t.width as int, 2 * LAYOUT_MARGIN),
            spec_sat_sub(t.height as int, 2 * LAYOUT_MARGIN + hh + hg),
        )
    } else {
        let w = t.width * 80 / 100;
        let preferred = t.height * 80 / 100;
        let limit = spec_sat_sub(t.height as int, 2 * LAYOUT_MARGIN + hh + hg);
        let h = if preferred <= limit { preferred } else { limit };
        let cluster = hh + hg + h;
        let top = t.y + spec_sat_sub(t.height as int, cluster) / 2;
        (t.x + spec_sat_sub(t.width as int, w) / 2, top + hh + hg, w, h)
    }
}

/// Whether the box of a terminal can be computed without overflow.
pub open spec fn spec_content_box_in_range(t: Rect) -> bool {
    &&& spec_width_in_range(t)
    &&& t.width > LAYOUT_BREAKPOINT ==> t.height * 80 <= u16::MAX
    &&& {
        let (x, y, w, h) = spec_content_box(t);
        x <= u16::MAX && y <= u16::MAX
    }
}

/// The framed box that holds the two panes.
pub fn compute_content_box(terminal: Rect) -> (r: Rect)
    requires
        spec_content_box_in_range(terminal),
    ensures
        (r.x as int, r.y as int, r.width as int, r.height as int) == spec_content_box(terminal),
{
    let (header_height, header_gap) = header_metrics(terminal);
    if terminal.width <= LAYOUT_BREAKPOINT {
        Rect {
            x: terminal.x + LAYOUT_MARGIN,
            y: terminal.y + LAYOUT_MARGIN + header_height + header_gap,
            width: terminal.width.saturating_sub(LAYOUT_MARGIN * 2),
            height: terminal.height.saturating_sub(LAYOUT_MARGIN * 2 + header_height + header_gap),
        }
    } else {
        let w = terminal.width * 80 / 100;
        let preferred_h = terminal.height * 80 / 100;
        let limit = terminal.height.saturating_sub(LAYOUT_MARGIN * 2 + header_height + header_gap);
        let h = if preferred_h <= limit { preferred_h } else { limit };
        let cluster_h = header_height + header_gap + h;
        let top = terminal.y + (terminal.height.saturating_sub(cluster_h)) / 2;
        Rect {
            x: terminal.x + (terminal.width.saturating_sub(w)) / 2,
            y: top + header_height + header_gap,
            width: w,
            height: h,
        }
    }
}

/// The header sits right above the box, as wide as it.
pub open spec fn spec_header_area(t: Rect, cb: Rect) -> (int, int, int, int) {
    let (hh, hg) = spec_header_metrics(t);
    (cb.x as int, spec_sat_sub(cb.y as int, hh + hg), cb.width as int, hh)
}

/// Where the header goes, given the box.
pub fn compute_header_area(terminal: Rect, content_box: Rect) -> (r: Rect)
    requires
        spec_width_in_range(terminal),
    ensures
        (r.x as int, r.y as int, r.width as int, r.height as int) == spec_header_area(terminal, content_box),
{
    let (header_height, header_gap) = header_metrics(terminal);
    Rect {
        x: content_box.x,
        y: content_box.y.saturating_sub(header_height + header_gap),
        width: content_box.width,
        height: header_height,
    }
}

// ---------------------------------------------------------------------------
// The panes inside the box.
// ---------------------------------------------------------------------------

/// Where everything goes on the screen.
#[derive(Clone, Copy, Debug, PartialEq, Eq, Structural)]
pub struct FrameLayout {
    /// The banner or title.
    pub header: Rect,
    /// Whether the banner is the large one.
    pub large_header: bool,
    /// The framed box.
    pub content: Rect,
    /// The column of the divider between the panes.
    pub divider_x: u16,
    /// The project list, inside its padding.
    pub left: Rect,
    /// The project details, inside their padding.
    pub right: Rect,
}

/// A rectangle from its coordinates.
pub open spec fn spec_rect(r: (int, int, int, int)) -> Rect {
    Rect { x: r.0 as u16, y: r.1 as u16, width: r.2 as u16, height: r.3 as u16 }
}

/// The coordinates of a rectangle.
pub open spec fn rect_view(r: Rect) -> (int, int, int, int) {
    (r.x as int, r.y as int, r.width as int, r.height as int)
}

/// The panes inside a box: the space left after the border and the divider
/// is split in half (the right pane takes the odd cell), and each pane is
/// padded.
pub open spec fn spec_panes(cb: Rect, mode: PaddingMode) -> (int, (int, int, int, int), (int, int, int, int)) {
    let usable = spec_sat_sub(cb.width as int, 3);
    let left_width = usable / 2;
    let divider = cb.x + 1 + left_width;
    let (hp, vp) = spec_inner_padding(cb, mode);
    let inner_height = spec_sat_sub(cb.height as int, 2 + vp * 2);
    let inner_y = cb.y + 1 + vp;
    let right_width = spec_sat_sub(usable, left_width);
    (
        divider,
        (cb.x + 1 + hp, inner_y, spec_sat_sub(left_width, hp * 2), inner_height),
        (divider + 1 + hp, inner_y, spec_sat_sub(right_width, hp * 2), inner_height),
    )
}

/// Whether the whole screen layout can be computed without overflow.
pub open spec fn spec_frame_in_range(t: Rect, mode: PaddingMode) -> bool {
    &&& spec_content_box_in_range(t)
    &&& {
        let cb = spec_rect(spec_content_box(t));
        let (divider, left, right) = spec_panes(cb, mode);
        &&& right.0 <= u16::MAX
        &&& left.1 <= u16::MAX
    }
}

/// Where everything goes on a terminal of the given size.
pub open spec fn spec_frame_layout(t: Rect, mode: PaddingMode, f: FrameLayout) -> bool {
    let cb = spec_rect(spec_content_box(t));
    let (divider, left, right) = spec_panes(cb, mode);
    &&& f.content == cb
    &&& rect_view(f.header) == spec_header_area(t, cb)
    &&& f.large_header == spec_use_large_header(t)
    &&& f.divider_x as int == divider
    &&& rect_view(f.left) == left
    &&& rect_view(f.right) == right
}

/// Where everything goes on a terminal of the given size.
pub fn frame_layout(terminal: Rect, mode: PaddingMode) -> (f: FrameLayout)
    requires
        spec_frame_in_range(terminal, mode),
    ensures
        spec_frame_layout(terminal, mode, f),
{
    let content_box = compute_content_box(terminal);
    let header = compute_header_area(terminal, content_box);
    let large_header = use_large_header(terminal);
    let usable_width = content_box.width.saturating_sub(3);
    let left_width = usable_width / 2;
    let divider_x = content_box.x + 1 + left_width;
    let (h_pad, v_pad) = inner_padding(content_box, mode);
    let inner_height = content_box.height.saturating_sub(2 + v_pad * 2);
    let inner_y = content_box.y + 1 + v_pad;
    let left = Rect {
        x: content_box.x + 1 + h_pad,
        y: inner_y,
        width: left_width.saturating_sub(h_pad * 2),
        height: inner_height,
    };
    let right_width = usable_width.saturating_sub(left_width);
    let right = Rect {
        x: divider_x + 1 + h_pad,
        y: inner_y,
        width: right_width.saturating_sub(h_pad * 2),
        height: inner_height,
    };
    FrameLayout { header, large_header, content: content_box, divider_x, left, right }
}

/// Where everything goes, or nothing when some coordinate would leave the
/// 16-bit range.
pub fn checked_frame_layout(terminal: Rect, mode: PaddingMode) -> (r: Option<FrameLayout>)
    ensures
        r is Some <==> spec_frame_in_range(terminal, mode),
        r matches Some(f) ==> spec_frame_layout(terminal, mode, f),
{
    let wide = terminal.width > LAYOUT_BREAKPOINT;
    if wide && ((terminal.width as u32) * 80 > 65535 || (terminal.height as u32) * 80 > 65535) {
        return None;
    }
    let (hh, hg) = header_metrics(terminal);
    let (x, y, w, h): (u32, u32, u32, u32) = if !wide {
        (
            terminal.x as u32 + 2,
            terminal.y as u32 + 2 + hh as u32 + hg as u32,
            terminal.width.saturating_sub(4) as u32,
            terminal.height.saturating_sub(4 + hh + hg) as u32,
        )
    } else {
        let w = terminal.width * 80 / 100;
        let preferred = terminal.height * 80 / 100;
        let limit = terminal.height.saturating_sub(4 + hh + hg);
        let h = if preferred <= limit { preferred } else { limit };
        let cluster = hh + hg + h;
        let top = terminal.y as u32 + (terminal.height.saturating_sub(cluster) / 2) as u32;
        (
            terminal.x as u32 + (terminal.width.saturating_sub(w) / 2) as u32,
            top + hh as u32 + hg as u32,
            w as u32,
            h as u32,
        )
    };
    if x > 65535 || y > 65535 {
        return None;
    }
    let cb = Rect { x: x as u16, y: y as u16, width: w as u16, height: h as u16 };
    let (hp, vp) = inner_padding(cb, mode);
    let usable = cb.width.saturating_sub(3);
    let left_width = usable / 2;
    if x + 1 + left_width as u32 + 1 + hp as u32 > 65535 || y + 1 + vp as u32 > 65535 {
        return None;
    }
    Some(frame_layout(terminal, mode))
}

// ---------------------------------------------------------------------------
// The box border.
// ---------------------------------------------------------------------------

/// One cell of the box border: where it is, what is drawn, and its place
/// along the border (which picks its color).
#[derive(Clone, Copy, Debug, PartialEq, Eq, Structural)]
pub struct BorderCell {
    pub x: u16,
    pub y: u16,
    pub symbol: char,
    pub position: u32,
}

/// The symbol of a top-edge cell.
pub open spec fn spec_top_symbol(x: int, x1: int, x2: int, divider: int) -> char {
    if x == x1 { '┌' } else if x == x2 { '┐' } else if x == divider { '┬' } else { '─' }
}

/// The symbol of a bottom-edge cell.
pub open spec fn spec_bottom_symbol(x: int, x1: int, x2: int, divider: int) -> char {
    if x == x1 { '└' } else if x == x2 { '┘' } else if x == divider { '┴' } else { '─' }
}

/// The coordinates of a border cell.
pub open spec fn cell_view(c: BorderCell) -> (int, int, char, int) {
    (c.x as int, c.y as int, c.symbol, c.position as int)
}

/// The border of `area` with a divider at column `divider`, walked
/// clockwise from the top-left corner, then the divider from top to bottom.
/// Positions count along the clockwise walk; the divider cell in row `y`
/// takes the position just past the walk plus its distance from the top.
pub open spec fn spec_border_cells(area: Rect, divider: int) -> Seq<(int, int, char, int)> {
    let x1 = area.x as int;
    let x2 = x1 + spec_sat_sub(area.width as int, 1);
    let y1 = area.y as int;
    let y2 = y1 + spec_sat_sub(area.height as int, 1);
    let w = x2 - x1 + 1;
    let nr = spec_sat_sub(y2, y1 + 1);
    Seq::new(w as nat, |k: int| (x1 + k, y1, spec_top_symbol(x1 + k, x1, x2, divider), k))
        + Seq::new(nr as nat, |k: int| (x2, y1 + 1 + k, '│', w + k))
        + Seq::new(w as nat, |k: int| (x2 - k, y2, spec_bottom_symbol(x2 - k, x1, x2, divider), w + nr + k))
        + Seq::new(nr as nat, |k: int| (x1, y2 - 1 - k, '│', 2 * w + nr + k))
        + Seq::new(nr as nat, |k: int| (divider, y1 + 1 + k, '│', 2 * w + 2 * nr + 1 + k))
}

/// Whether the border of `area` stays within the coordinate range.
pub open spec fn spec_border_in_range(area: Rect) -> bool {
    &&& area.x + spec_sat_sub(area.width as int, 1) <= u16::MAX
    &&& area.y + spec_sat_sub(area.height as int, 1) <= u16::MAX
    &&& area.y < u16::MAX
}

/// Whether the border of `area` stays within the coordinate range.
pub fn border_fits(area: Rect) -> (r: bool)
    ensures
        r == spec_border_in_range(area),
{
    let right = area.x as u32 + area.width.saturating_sub(1) as u32;
    let bottom = area.y as u32 + area.height.saturating_sub(1) as u32;
    right <= 65535 && bottom <= 65535 && area.y < 65535
}

/// The number of cells in the clockwise walk of the border, which spreads
/// the color palette around it.
pub fn border_perimeter(area: Rect) -> (p: u32)
    ensures
        p as int == 2 * (area.width as int + spec_sat_sub(area.height as int, 2)),
{
    2 * (area.width as u32 + area.height.saturating_sub(2) as u32)
}

fn push_cell(cells: &mut Vec<BorderCell>, c: BorderCell)
    ensures
        final(cells)@.map_values(|c: BorderCell| cell_view(c)) == old(cells)@.map_values(
            |c: BorderCell| cell_view(c),
        ).push(cell_view(c)),
{
    let ghost before = cells@.map_values(|c: BorderCell| cell_view(c));
    cells.push(c);
    assert(cells@.map_values(|c: BorderCell| cell_view(c)) =~= before.push(cell_view(c)));
}

/// The cells of the box border with its divider.
pub fn border_cells(area: Rect, divider_x: u16) -> (cells: Vec<BorderCell>)
    requires
        spec_border_in_range(area),
    ensures
        cells@.map_values(|c: BorderCell| cell_view(c)) == spec_border_cells(area, divider_x as int),
{
    let x1 = area.x;
    let x2 = area.x + area.width.saturating_sub(1);
    let y1 = area.y;
    let y2 = area.y + area.height.saturating_sub(1);
    let wid: u32 = (x2 - x1) as u32 + 1;
    let rows: u32 = if y2 > y1 + 1 { (y2 - y1 - 1) as u32 } else { 0 };
    let ghost xi1 = x1 as int;
    let ghost xi2 = x2 as int;
    let ghost yi1 = y1 as int;
    let ghost yi2 = y2 as int;
    let ghost d = divider_x as int;
    let ghost w = xi2 - xi1 + 1;
    let ghost nr = spec_sat_sub(yi2, yi1 + 1);
    assert(wid as int == w && rows as int == nr);
    let ghost top = Seq::new(w as nat, |k: int| (xi1 + k, yi1, spec_top_symbol(xi1 + k, xi1, xi2, d), k));
    let ghost right = Seq::new(nr as nat, |k: int| (xi2, yi1 + 1 + k, '│', w + k));
    let ghost bottom = Seq::new(w as nat, |k: int| (xi2 - k, yi2, spec_bottom_symbol(xi2 - k, xi1, xi2, d), w + nr + k));
    let ghost left = Seq::new(nr as nat, |k: int| (xi1, yi2 - 1 - k, '│', 2 * w + nr + k));
    let ghost div = Seq::new(nr as nat, |k: int| (d, yi1 + 1 + k, '│', 2 * w + 2 * nr + 1 + k));
    let mut cells: Vec<BorderCell> = Vec::new();
    // top edge, left to right
    let mut k: u32 = 0;
    while k < wid
        invariant
            k <= wid,
            wid as int == w, w == xi2 - xi1 + 1, 1 <= w <= 65536,
            xi1 == x1 as int, xi2 == x2 as int, yi1 == y1 as int, d == divider_x as int,
            top == Seq::new(w as nat, |k: int| (xi1 + k, yi1, spec_top_symbol(xi1 + k, xi1, xi2, d), k)),
            cells@.map_values(|c: BorderCell| cell_view(c)) == top.take(k as int),
        decreases wid - k,
    {
        let x: u16 = x1 + k as u16;
        let ch = if x == x1 { '┌' } else if x == x2 { '┐' } else if x == divider_x { '┬' } else { '─' };
        push_cell(&mut cells, BorderCell { x, y: y1, symbol: ch, position: k });
        assert(top.take(k + 1) =~= top.take(k as int).push(top[k as int]));
        k = k + 1;
    }
    assert(top.take(w) =~= top);
    let ghost after_top = cells@.map_values(|c: BorderCell| cell_view(c));
    // right edge, top to bottom
    let mut k: u32 = 0;
    while k < rows
        invariant
            k <= rows,
            rows as int == nr, 0 <= nr <= 65535, nr == spec_sat_sub(yi2, yi1 + 1),
            wid as int == w, 1 <= w <= 65536,
            xi2 == x2 as int, yi1 == y1 as int, yi2 == y2 as int,
            right == Seq::new(nr as nat, |k: int| (xi2, yi1 + 1 + k, '│', w + k)),
            cells@.map_values(|c: BorderCell| cell_view(c)) == after_top + right.take(k as int),
        decreases rows - k,
    {
        let y: u16 = y1 + 1 + k as u16;
        push_cell(&mut cells, BorderCell { x: x2, y, symbol: '│', position: wid + k });
        assert(right.take(k + 1) =~= right.take(k as int).push(right[k as int]));
        k = k + 1;
    }
    assert(right.take(nr) =~= right);
    let ghost after_right = cells@.map_values(|c: BorderCell| cell_view(c));
    // bottom edge, right to left
    let mut k: u32 = 0;
    while k < wid
        invariant
            k <= wid,
            wid as int == w, w == xi2 - xi1 + 1, 1 <= w <= 65536,
            rows as int == nr, 0 <= nr <= 65535,
            xi1 == x1 as int, xi2 == x2 as int, yi2 == y2 as int, d == divider_x as int,
            bottom == Seq::new(w as nat, |k: int| (xi2 - k, yi2, spec_bottom_symbol(xi2 - k, xi1, xi2, d), w + nr + k)),
            cells@.map_values(|c: BorderCell| cell_view(c)) == after_right + bottom.take(k as int),
        decreases wid - k,
    {
        let x: u16 = x2 - k as u16;
        let ch = if x == x1 { '└' } else if x == x2 { '┘' } else if x == divider_x { '┴' } else { '─' };
        push_cell(&mut cells, BorderCell { x, y: y2, symbol: ch, position: wid + rows + k });
        assert(bottom.take(k + 1) =~= bottom.take(k as int).push(bottom[k as int]));
        k = k + 1;
    }
    assert(bottom.take(w) =~= bottom);
    let ghost after_bottom = cells@.map_values(|c: BorderCell| cell_view(c));
    // left edge, bottom to top
    let mut k: u32 = 0;
    while k < rows
        invariant
            k <= rows,
            rows as int == nr, 0 <= nr <= 65535, nr == spec_sat_sub(yi2, yi1 + 1),
            wid as int == w, 1 <= w <= 65536,
            xi1 == x1 as int, yi2 == y2 as int, yi1 == y1 as int,
            left == Seq::new(nr as nat, |k: int| (xi1, yi2 - 1 - k, '│', 2 * w + nr + k)),
            cells@.map_values(|c: BorderCell| cell_view(c)) == after_bottom + left.take(k as int),
        decreases rows - k,
    {
        let y: u16 = y2 - 1 - k as u16;
        push_cell(&mut cells, BorderCell { x: x1, y, symbol: '│', position: 2 * wid + rows + k });
        assert(left.take(k + 1) =~= left.take(k as int).push(left[k as int]));
        k = k + 1;
    }
    assert(left.take(nr) =~= left);
    let ghost after_left = cells@.map_values(|c: BorderCell| cell_view(c));
    // divider, top to bottom
    let mut k: u32 = 0;
    while k < rows
        invariant
            k <= rows,
            rows as int == nr, 0 <= nr <= 65535, nr == spec_sat_sub(yi2, yi1 + 1),
            wid as int == w, 1 <= w <= 65536,
            yi1 == y1 as int, yi2 == y2 as int, d == divider_x as int,
            div == Seq::new(nr as nat, |k: int| (d, yi1 + 1 + k, '│', 2 * w + 2 * nr + 1 + k)),
            cells@.map_values(|c: BorderCell| cell_view(c)) == after_left + div.take(k as int),
        decreases rows - k,
    {
        let y: u16 = y1 + 1 + k as u16;
        push_cell(&mut cells, BorderCell { x: divider_x, y, symbol: '│', position: 2 * wid + 2 * rows + 1 + k });
        assert(div.take(k + 1) =~= div.take(k as int).push(div[k as int]));
        k = k + 1;
    }
    assert(div.take(nr) =~= div);
    assert(cells@.map_values(|c: BorderCell| cell_view(c)) =~= spec_border_cells(area, divider_x as int));
    cells
}

// ---------------------------------------------------------------------------
// The project list.
// ---------------------------------------------------------------------------

/// One row of the project list: its number column and its name.
pub struct ListEntry {
    pub number: String,
    pub name: String,
}

/// `s` padded with spaces on the right to `width` characters (`{:<width}`).
pub open spec fn spec_pad_right(s: Seq<char>, width: nat) -> Seq<char> {
    if s.len() >= width {
        s
    } else {
        s + Seq::new((width - s.len()) as nat, |k: int| ' ')
    }
}

/// The number column of row `i`: two spaces, then the number left-aligned
/// in four columns.
pub open spec fn spec_number_label(i: nat) -> Seq<char> {
    "  "@ + spec_pad_right(spec_decimal(i), 4)
}

/// A row's name, marked `(NEW)` when it is selected and a fresh session is
/// requested.
pub open spec fn spec_entry_name(base: Seq<char>, selected: bool, new_session: bool) -> Seq<char> {
    if selected && new_session {
        base + " (NEW)"@
    } else {
        base
    }
}

/// The rows of the project list: "Empty Session" first, then every project.
pub open spec fn spec_list_entries(selected: usize, new_session: bool, projects: Seq<ProjectView>) -> Seq<(Seq<char>, Seq<char>)> {
    Seq::new(
        projects.len() + 1,
        |i: int| (
            spec_number_label(i as nat),
            spec_entry_name(
                if i == 0 { "Empty Session"@ } else { projects[i - 1].name },
                selected == i,
                new_session,
            ),
        ),
    )
}

/// The abstract values of list rows.
pub open spec fn entries_view(v: Seq<ListEntry>) -> Seq<(Seq<char>, Seq<char>)> {
    v.map_values(|e: ListEntry| (e.number@, e.name@))
}

fn number_label(i: usize) -> (r: String)
    ensures
        r@ == spec_number_label(i as nat),
{
    let mut r = String::new();
    r.append("  ");
    let d = usize_to_decimal(i);
    r.append(d.as_str());
    let mut n: usize = d.as_str().unicode_len();
    let ghost base = r@;
    assert(base == "  "@ + spec_decimal(i as nat));
    while n < 4
        invariant
            n <= 4 || n == spec_decimal(i as nat).len(),
            spec_decimal(i as nat).len() <= n,
            base == "  "@ + spec_decimal(i as nat),
            r@ == base + Seq::new((n - spec_decimal(i as nat).len()) as nat, |k: int| ' '),
        decreases 4 - n,
    {
        push_char(&mut r, ' ');
        assert(Seq::new((n + 1 - spec_decimal(i as nat).len()) as nat, |k: int| ' ') =~= Seq::new(
            (n - spec_decimal(i as nat).len()) as nat,
            |k: int| ' ',
        ).push(' '));
        n = n + 1;
    }
    proof {
        if spec_decimal(i as nat).len() >= 4 {
            assert(Seq::new(0, |k: int| ' ') =~= Seq::<char>::empty());
            assert(r@ =~= spec_number_label(i as nat));
        } else {
            assert(r@ =~= spec_number_label(i as nat));
        }
    }
    r
}

fn entry_name(base: &str, selected: bool, new_session: bool) -> (r: String)
    ensures
        r@ == spec_entry_name(base@, selected, new_session),
{
    let mut r = str_to_string(base);
    if selected && new_session {
        r.append(" (NEW)");
    }
    r
}

/// The rows of the project list.
pub fn project_list_entries(app: &App, config: &Config) -> (entries: Vec<ListEntry>)
    requires
        config.projects@.len() < usize::MAX,
    ensures
        entries_view(entries@) == spec_list_entries(app.selected_index, app.new_session, config@),
{
    let ghost target = spec_list_entries(app.selected_index, app.new_session, config@);
    let mut entries: Vec<ListEntry> = Vec::new();
    let n = config.projects.len();
    let mut i: usize = 0;
    while i <= n
        invariant
            i <= n + 1,
            n == config@.len(),
            n == config.projects@.len(),
            n < usize::MAX,
            target == spec_list_entries(app.selected_index, app.new_session, config@),
            entries_view(entries@) == target.take(i as int),
        decreases n + 1 - i,
    {
        let number = number_label(i);
        let name = if i == 0 {
            entry_name("Empty Session", app.selected_index == 0, app.new_session)
        } else {
            assert(config@[i - 1] == config.projects@[i - 1]@);
            entry_name(config.projects[i - 1].name.as_str(), app.selected_index == i, app.new_session)
        };
        let ghost before = entries_view(entries@);
        let e = ListEntry { number, name };
        let ghost ev = (e.number@, e.name@);
        entries.push(e);
        assert(entries_view(entries@) =~= before.push(ev));
        assert(target.take(i + 1) =~= target.take(i as int).push(target[i as int]));
        i = i + 1;
    }
    assert(target.take(n + 1) =~= target);
    entries
}

/// Where the parts of the project list go inside its pane.
#[derive(Clone, Copy, Debug, PartialEq, Eq, Structural)]
pub struct ListPaneLayout {
    /// The list itself, above the last row.
    pub list: Rect,
    /// The number being typed, on the row above the last one, while one is typed.
    pub input: Option<Rect>,
    /// The help text, on the last row.
    pub help: Rect,
}

/// Whether the rows of the list pane can be placed without overflow.
pub open spec fn spec_list_pane_in_range(area: Rect) -> bool {
    area.y + spec_sat_sub(area.height as int, 1) <= u16::MAX
}

/// The list takes the pane but its last row; the typed number goes on the
/// row above the last one, and the help text on the last row, each one row
/// high and as wide as the pane.
pub open spec fn spec_list_pane(area: Rect, typing: bool, l: ListPaneLayout) -> bool {
    &&& rect_view(l.list) == (area.x as int, area.y as int, area.width as int, spec_sat_sub(area.height as int, 1))
    &&& typing == l.input is Some
    &&& (l.input matches Some(r) ==> rect_view(r) == (
        area.x as int,
        area.y + spec_sat_sub(area.height as int, 2),
        area.width as int,
        1int,
    ))
    &&& rect_view(l.help) == (area.x as int, area.y + spec_sat_sub(area.height as int, 1), area.width as int, 1int)
}

/// Where the parts of the project list go inside its pane, given whether a
/// number is being typed.
pub fn list_pane_layout(area: Rect, typing: bool) -> (l: ListPaneLayout)
    requires
        spec_list_pane_in_range(area),
    ensures
        spec_list_pane(area, typing, l),
{
    let list = Rect { x: area.x, y: area.y, width: area.width, height: area.height.saturating_sub(1) };
    let input = if typing {
        Some(Rect { x: area.x, y: area.y + area.height.saturating_sub(2), width: area.width, height: 1 })
    } else {
        None
    };
    let help = Rect { x: area.x, y: area.y + area.height.saturating_sub(1), width: area.width, height: 1 };
    ListPaneLayout { list, input, help }
}

// ---------------------------------------------------------------------------
// The detail pane.
// ---------------------------------------------------------------------------

/// How a detail line is drawn.
#[derive(Clone, Copy, Debug, PartialEq, Eq, Structural)]
pub enum DetailKind {
    /// `label: value`
    Field,
    /// An empty line.
    Blank,
    /// The heading of a Git repository's facts.
    GitHeading,
    /// The heading of the last commit's facts.
    LastCommitHeading,
    /// The heading of a plain directory's facts.
    NotGitHeading,
    /// The note that nothing is known about the project.
    Unavailable,
    /// Plain text.
    Text,
}

/// One line of the detail pane; headings and texts keep their words in `label`.
pub struct DetailLine {
    pub kind: DetailKind,
    pub label: String,
    pub value: String,
}

/// The abstract value of a detail line.
pub open spec fn detail_view(l: DetailLine) -> (DetailKind, Seq<char>, Seq<char>) {
    (l.kind, l.label@, l.value@)
}

/// The abstract values of detail lines.
pub open spec fn details_view(v: Seq<DetailLine>) -> Seq<(DetailKind, Seq<char>, Seq<char>)> {
    v.map_values(|l: DetailLine| detail_view(l))
}

/// A `label: value` line.
pub open spec fn spec_field(label: Seq<char>, value: Seq<char>) -> (DetailKind, Seq<char>, Seq<char>) {
    (DetailKind::Field, label, value)
}

/// A line of words of the given kind.
pub open spec fn spec_words(kind: DetailKind, words: Seq<char>) -> (DetailKind, Seq<char>, Seq<char>) {
    (kind, words, seq![])
}

/// What the detail pane shows for a project in `expanded`: its path, and
/// the repository facts, the file count, or a note that nothing is known.
pub open spec fn spec_detail_lines(expanded: Seq<char>, info: Option<ProjectInfo>) -> Seq<(DetailKind, Seq<char>, Seq<char>)> {
    seq![spec_field("Path"@, expanded), spec_words(DetailKind::Blank, seq![])] + match info {
        Some(ProjectInfo::Git(g)) => seq![
            spec_words(DetailKind::GitHeading, "Git Repository"@),
            spec_field("Files"@, spec_decimal(g.file_count as nat)),
            spec_field("Commits"@, spec_decimal(g.commit_count as nat)),
            spec_words(DetailKind::Blank, seq![]),
            spec_words(DetailKind::LastCommitHeading, "Last Commit"@),
            spec_field("Author"@, g.last_commit_author@ + " <"@ + g.last_commit_email@ + ">"@),
            spec_field("Date"@, g.last_commit_date@),
            spec_field("ID"@, g.last_commit_id@),
            spec_field("Message"@, g.last_commit_message@),
        ],
        Some(ProjectInfo::NonGit(n)) => seq![
            spec_words(DetailKind::NotGitHeading, "Not a Git Repository"@),
            spec_field("Files"@, spec_decimal(n.file_count as nat)),
        ],
        None => seq![spec_words(DetailKind::Unavailable, "Project info unavailable"@)],
    }
}

fn push_detail(lines: &mut Vec<DetailLine>, kind: DetailKind, label: String, value: String)
    ensures
        details_view(final(lines)@) == details_view(old(lines)@).push((kind, label@, value@)),
{
    let ghost before = details_view(lines@);
    let ghost v = (kind, label@, value@);
    lines.push(DetailLine { kind, label, value });
    assert(details_view(lines@) =~= before.push(v));
}

/// The detail lines for a project whose directory is `expanded`.
pub fn build_detail_lines_in(expanded: &str, info: Option<&ProjectInfo>) -> (lines: Vec<DetailLine>)
    ensures
        details_view(lines@) == spec_detail_lines(expanded@, match info { Some(i) => Some(*i), None => None }),
        info is None ==> details_view(lines@).len() == 3 && details_view(lines@)[2] == (
            DetailKind::Unavailable,
            "Project info unavailable"@,
            Seq::<char>::empty(),
        ),
{
    proof {
        lemma_detail_lines_follow_facts(expanded@, match info { Some(i) => Some(*i), None => None });
    }
    let mut lines: Vec<DetailLine> = Vec::new();
    push_detail(&mut lines, DetailKind::Field, str_to_string("Path"), str_to_string(expanded));
    push_detail(&mut lines, DetailKind::Blank, String::new(), String::new());
    match info {
        Some(ProjectInfo::Git(git)) => {
            push_detail(&mut lines, DetailKind::GitHeading, str_to_string("Git Repository"), String::new());
            push_detail(&mut lines, DetailKind::Field, str_to_string("Files"), usize_to_decimal(git.file_count));
            push_detail(&mut lines, DetailKind::Field, str_to_string("Commits"), usize_to_decimal(git.commit_count));
            push_detail(&mut lines, DetailKind::Blank, String::new(), String::new());
            push_detail(&mut lines, DetailKind::LastCommitHeading, str_to_string("Last Commit"), String::new());
            let mut author = str_to_string(git.last_commit_author.as_str());
            author.append(" <");
            author.append(git.last_commit_email.as_str());
            author.append(">");
            push_detail(&mut lines, DetailKind::Field, str_to_string("Author"), author);
            push_detail(&mut lines, DetailKind::Field, str_to_string("Date"), str_to_string(git.last_commit_date.as_str()));
            push_detail(&mut lines, DetailKind::Field, str_to_string("ID"), str_to_string(git.last_commit_id.as_str()));
            push_detail(&mut lines, DetailKind::Field, str_to_string("Message"), str_to_string(git.last_commit_message.as_str()));
        },
        Some(ProjectInfo::NonGit(non_git)) => {
            push_detail(&mut lines, DetailKind::NotGitHeading, str_to_string("Not a Git Repository"), String::new());
            push_detail(&mut lines, DetailKind::Field, str_to_string("Files"), usize_to_decimal(non_git.file_count));
        },
        None => {
            push_detail(&mut lines, DetailKind::Unavailable, str_to_string("Project info unavailable"), String::new());
        },
    }
    proof {
        let iv = match info { Some(i) => Some(*i), None => None };
        assert(details_view(lines@) =~= spec_detail_lines(expanded@, iv));
    }
    lines
}

/// The facts known about project `idx`, if any.
pub open spec fn spec_info_of(app: App, idx: usize) -> Option<ProjectInfo> {
    if app.project_infos@.contains_key(idx) {
        Some(app.project_infos@[idx])
    } else {
        None
    }
}

/// What the detail pane shows for the selected entry: a note for the empty
/// session, a project's details with `~` expanded against `home`, or a
/// note for a selection past the last project.
pub open spec fn spec_detail_text(app: App, projects: Seq<ProjectView>, home: Option<Seq<char>>) -> Seq<(DetailKind, Seq<char>, Seq<char>)> {
    if app.selected_index == 0 {
        seq![spec_words(DetailKind::Text, "Start an empty Zellij session."@)]
    } else if app.selected_index - 1 < projects.len() {
        let idx = (app.selected_index - 1) as usize;
        spec_detail_lines(spec_expanded(projects[idx as int], home), spec_info_of(app, idx))
    } else {
        seq![spec_words(DetailKind::Text, "Unknown project."@)]
    }
}

/// What the detail pane shows, with `~` expanded against `home`.
pub fn detail_text_with_home(app: &App, config: &Config, home: Option<&str>) -> (lines: Vec<DetailLine>)
    ensures
        details_view(lines@) == spec_detail_text(*app, config@, opt_str_view(home)),
{
    if app.selected_index == 0 {
        let mut lines: Vec<DetailLine> = Vec::new();
        push_detail(&mut lines, DetailKind::Text, str_to_string("Start an empty Zellij session."), String::new());
        assert(details_view(lines@) =~= spec_detail_text(*app, config@, opt_str_view(home)));
        return lines;
    }
    let idx = app.selected_index - 1;
    if idx < config.projects.len() {
        let project = &config.projects[idx];
        assert(config@[idx as int] == project@);
        let expanded = project.expanded_path_with_home(home);
        let info = app.project_infos.get(&idx);
        assert(match info { Some(i) => Some(*i), None => None } == spec_info_of(*app, idx));
        build_detail_lines_in(expanded.as_str(), info)
    } else {
        let mut lines: Vec<DetailLine> = Vec::new();
        push_detail(&mut lines, DetailKind::Text, str_to_string("Unknown project."), String::new());
        assert(details_view(lines@) =~= spec_detail_text(*app, config@, opt_str_view(home)));
        lines
    }
}

/// What the detail pane shows, with `~` expanded against the current home directory.
pub fn detail_text(app: &App, config: &Config) -> (lines: Vec<DetailLine>)
    ensures
        exists|home: Option<Seq<char>>| details_view(lines@) == spec_detail_text(*app, config@, home),
{
    let home = home_dir();
    let h = match &home {
        Some(s) => Some(s.as_str()),
        None => None,
    };
    detail_text_with_home(app, config, h)
}

// ---------------------------------------------------------------------------
// Laws.
// ---------------------------------------------------------------------------

proof fn lemma_glyph_rows_five_wide(ch: char)
    ensures
        forall|r: int| 0 <= r < 5 ==> (#[trigger] spec_banner_glyph(ch)[r]).len() == 5,
        spec_banner_glyph(ch).len() == 5,
{
    reveal_strlit(" ███ ");
    reveal_strlit("█   █");
    reveal_strlit("█████");
    reveal_strlit(" ████");
    reveal_strlit("█    ");
    reveal_strlit("████ ");
    reveal_strlit("  ███");
    reveal_strlit("   █ ");
    reveal_strlit("█  █ ");
    reveal_strlit(" ██  ");
    reveal_strlit("█  ██");
    reveal_strlit("  █  ");
    reveal_strlit("█ █ █");
    reveal_strlit("██ ██");
    reveal_strlit("     ");
}

proof fn lemma_join_five_wide(list: Seq<Seq<char>>)
    requires
        list.len() >= 1,
        forall|i: int| 0 <= i < list.len() ==> (#[trigger] list[i]).len() == 5,
    ensures
        spec_join(list, "   "@).len() == 8 * list.len() - 3,
    decreases list.len(),
{
    reveal_strlit("   ");
    if list.len() > 1 {
        let d = list.drop_last();
        assert forall|i: int| 0 <= i < d.len() implies (#[trigger] d[i]).len() == 5 by {
            assert(d[i] == list[i]);
        }
        lemma_join_five_wide(d);
        assert(list.last() == list[list.len() - 1]);
    }
}

proof fn lemma_banner_row_width(text: Seq<char>, row: int)
    requires
        text.len() >= 1,
        0 <= row < 10,
    ensures
        spec_banner_row(text, row).len() == 8 * text.len() - 3,
{
    let list = text.map_values(|ch: char| spec_banner_glyph(ch)[(row / 2) as int]);
    assert forall|i: int| 0 <= i < list.len() implies (#[trigger] list[i]).len() == 5 by {
        lemma_glyph_rows_five_wide(text[i]);
        assert(list[i] == spec_banner_glyph(text[i])[(row / 2) as int]);
    }
    lemma_join_five_wide(list);
}

proof fn lemma_max_len_uniform(rows: Seq<Seq<char>>, w: nat)
    requires
        forall|i: int| 0 <= i < rows.len() ==> (#[trigger] rows[i]).len() == w,
    ensures
        spec_max_len(rows) == (if rows.len() == 0 { 0 } else { w }),
    decreases rows.len(),
{
    if rows.len() > 0 {
        let d = rows.drop_last();
        assert forall|i: int| 0 <= i < d.len() implies (#[trigger] d[i]).len() == w by {
            assert(d[i] == rows[i]);
        }
        lemma_max_len_uniform(d, w);
        assert(rows.last() == rows[rows.len() - 1]);
    }
}

/// Every row of the large banner is 77 cells wide: ten letters of five
/// cells with three-cell gaps between them.
pub proof fn lemma_large_header_width()
    ensures
        spec_large_header_width() == 77,
{
    reveal_strlit("PRAWJECTOR");
    let text = "PRAWJECTOR"@;
    assert(text.len() == 10);
    let rows = spec_banner_rows(text);
    assert forall|i: int| 0 <= i < rows.len() implies (#[trigger] rows[i]).len() == 77 by {
        lemma_banner_row_width(text, i);
    }
    lemma_max_len_uniform(rows, 77);
}

/// The large banner is drawn exactly on terminals at least 34 rows high
/// and at least 81 columns wide (every wide terminal is wide enough).
pub proof fn lemma_large_header_when(t: Rect)
    ensures
        spec_use_large_header(t) <==> (t.height >= 34 && t.width >= 81),
{
    lemma_large_header_width();
}

/// The detail pane starts with the project's path and a blank line. With
/// no facts it then holds only the note that nothing is known (three lines
/// in all); a "Not a Git Repository" heading appears only for facts about a
/// plain directory, and a "Git Repository" heading only for a repository.
pub proof fn lemma_detail_lines_follow_facts(expanded: Seq<char>, info: Option<ProjectInfo>)
    ensures
        ({
            let l = spec_detail_lines(expanded, info);
            &&& l.len() >= 3
            &&& l[0] == (DetailKind::Field, "Path"@, expanded)
            &&& l[1].0 == DetailKind::Blank
            &&& info is None ==> l.len() == 3 && l[2] == (DetailKind::Unavailable, "Project info unavailable"@, Seq::<char>::empty())
            &&& forall|i: int| 0 <= i < l.len() && (#[trigger] l[i]).0 == DetailKind::NotGitHeading
                ==> (info matches Some(ProjectInfo::NonGit(_)))
            &&& forall|i: int| 0 <= i < l.len() && (#[trigger] l[i]).0 == DetailKind::GitHeading
                ==> (info matches Some(ProjectInfo::Git(_)))
            &&& forall|i: int| 0 <= i < l.len() && (#[trigger] l[i]).0 == DetailKind::Unavailable
                ==> info is None
        }),
{
    let l = spec_detail_lines(expanded, info);
    match info {
        Some(ProjectInfo::Git(g)) => {
            assert(l.len() == 11);
        },
        Some(ProjectInfo::NonGit(n)) => {
            assert(l.len() == 4);
        },
        None => {
            assert(l.len() == 3);
        },
    }
}

/// Small padding is half of normal padding, and tiny padding is the same
/// for every box.
pub proof fn lemma_padding_modes(cb: Rect, other: Rect)
    ensures
        spec_inner_padding(cb, PaddingMode::Small).0 == spec_inner_padding(cb, PaddingMode::Normal).0 / 2,
        spec_inner_padding(cb, PaddingMode::Small).1 == spec_inner_padding(cb, PaddingMode::Normal).1 / 2,
        spec_inner_padding(cb, PaddingMode::Tiny) == spec_inner_padding(other, PaddingMode::Tiny),
{
}

/// The header ends right where the gap above the box begins.
pub proof fn lemma_header_above_box(t: Rect)
    requires
        spec_content_box_in_range(t),
    ensures
        ({
            let cb = spec_rect(spec_content_box(t));
            let (hx, hy, hw, hh) = spec_header_area(t, cb);
            let (mh, mg) = spec_header_metrics(t);
            hx == cb.x && hw == cb.width && hh == mh && hy + mh + mg == cb.y
        }),
{
}

/// In the list pane the list ends where the help row begins, and the typed
/// number sits right above the help row, when the pane has two rows or more.
pub proof fn lemma_list_pane_rows(area: Rect, typing: bool, l: ListPaneLayout)
    requires
        spec_list_pane(area, typing, l),
        area.height >= 2,
    ensures
        l.list.y + l.list.height == l.help.y,
        l.input matches Some(r) ==> r.y + 1 == l.help.y,
        l.help.y + l.help.height == area.y + area.height,
{
}

/// On a narrow terminal the box keeps a two-cell margin on every side
/// below the header.
pub proof fn lemma_narrow_box_margins(t: Rect)
    requires
        spec_content_box_in_range(t),
        t.width <= LAYOUT_BREAKPOINT,
        t.width >= 4,
    ensures
        ({
            let (x, y, w, h) = spec_content_box(t);
            x == t.x + 2 && x + w + 2 == t.x + t.width
        }),
{
}

} // verus!
