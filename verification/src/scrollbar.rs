//! The scrollbar of a pane: its scroll model and its marks.

use crate::grid_interaction::CellSpan;
use vstd::prelude::*;

verus! {

/// The scroll state of one pane.
#[derive(Clone, Copy, Debug, PartialEq, Eq, Structural)]
pub struct ScrollMetrics {
    /// Lines that have scrolled off the top.
    pub scrollback_len: usize,
    /// How far the view is scrolled up from the live bottom.
    pub view_offset: usize,
    /// Visible screen rows.
    pub rows: usize,
}

impl ScrollMetrics {
    /// All addressable rows: history and the live screen.
    pub open spec fn content(self) -> int {
        self.scrollback_len + self.rows
    }

    /// The absolute line at the top of the window; an over-scroll stays at 0.
    pub open spec fn window_top(self) -> int {
        if self.view_offset <= self.scrollback_len {
            self.scrollback_len - self.view_offset
        } else {
            0
        }
    }

    /// Total addressable content rows.
    pub fn total(&self) -> (r: usize)
        requires
            self.content() <= usize::MAX,
        ensures
            r == self.content(),
    {
        self.scrollback_len + self.rows
    }

    /// Absolute line at the top of the visible window.
    pub fn window_start(&self) -> (r: usize)
        ensures
            r == self.window_top(),
    {
        self.scrollback_len.saturating_sub(self.view_offset)
    }

    /// Whether there is anything to scroll.
    pub fn scrollable(&self) -> (r: bool)
        ensures
            r == (self.scrollback_len > 0 && self.rows > 0),
    {
        self.scrollback_len > 0 && self.rows > 0
    }

    /// The offset a click in the trough pages to: one screen back above the
    /// thumb, one screen forward below it, within the history.
    pub fn page_target(&self, above_thumb: bool) -> (r: usize)
        requires
            self.view_offset + self.rows <= usize::MAX,
        ensures
            above_thumb ==> r == (if self.view_offset + self.rows <= self.scrollback_len {
                self.view_offset + self.rows
            } else {
                self.scrollback_len as int
            }),
            !above_thumb ==> r == (if self.rows <= self.view_offset {
                self.view_offset - self.rows
            } else {
                0
            }),
    {
        if above_thumb {
            let back: usize = self.view_offset + self.rows;
            if back <= self.scrollback_len {
                back
            } else {
                self.scrollback_len
            }
        } else {
            self.view_offset.saturating_sub(self.rows)
        }
    }

    /// Where the view is asked to go: where the thumb is dragged to, or a page
    /// towards the side of the thumb that was clicked; nowhere for a click on
    /// the thumb itself.
    pub fn scroll_request(
        &self,
        dragged: bool,
        pointed: Option<usize>,
        clicked: bool,
        above_thumb: Option<bool>,
    ) -> (r: Option<usize>)
        requires
            self.view_offset + self.rows <= usize::MAX,
        ensures
            r == (if dragged {
                pointed
            } else if clicked {
                match above_thumb {
                    Some(true) => Some(
                        if self.view_offset + self.rows <= self.scrollback_len {
                            (self.view_offset + self.rows) as usize
                        } else {
                            self.scrollback_len
                        },
                    ),
                    Some(false) => Some(
                        if self.view_offset >= self.rows {
                            (self.view_offset - self.rows) as usize
                        } else {
                            0
                        },
                    ),
                    None => None,
                }
            } else {
                None
            }),
    {
        if dragged {
            pointed
        } else if clicked {
            match above_thumb {
                Some(above) => Some(self.page_target(above)),
                None => None,
            }
        } else {
            None
        }
    }

    /// How far to scroll the view to reach an offset: positive goes back into
    /// history.
    pub fn scroll_delta(&self, target: usize) -> (r: i32)
        requires
            target <= i32::MAX,
            self.view_offset <= i32::MAX,
        ensures
            r == target - self.view_offset,
    {
        target as i32 - self.view_offset as i32
    }
}

/// In view, the window lies within the content.
pub proof fn window_lies_in_content(m: ScrollMetrics)
    ensures
        0 <= m.window_top(),
        m.window_top() + m.rows <= m.content(),
{
}

/// Following the live output shows the end of the content; scrolled fully up
/// the window starts at the first line.
pub proof fn window_at_the_ends(m: ScrollMetrics)
    ensures
        m.view_offset == 0 ==> m.window_top() + m.rows == m.content(),
        m.view_offset == m.scrollback_len ==> m.window_top() == 0,
{
}

/// What a mark on the track records.
#[derive(Clone, Copy, Debug, PartialEq, Eq, Structural)]
pub enum ScrollMarkKind {
    /// A shell prompt.
    Prompt,
    /// The end of a command that failed.
    Error,
    /// A find match.
    SearchHit,
}

/// A tick on the track. `selected` is looked at for search hits only.
#[derive(Clone, Copy, Debug, PartialEq, Eq, Structural)]
pub struct ScrollMark {
    pub abs_line: usize,
    pub kind: ScrollMarkKind,
    pub selected: bool,
}

/// A colour, red, green and blue.
#[derive(Clone, Copy, Debug, PartialEq, Eq, Structural)]
pub struct Rgb {
    pub r: u8,
    pub g: u8,
    pub b: u8,
}

/// The colours of the marks.
#[derive(Clone, Copy, Debug, PartialEq, Eq, Structural)]
pub struct MarkColors {
    pub search: Rgb,
    pub selected: Rgb,
    pub prompt: Rgb,
    pub error: Rgb,
}

/// The colour of a mark.
pub fn mark_color(kind: ScrollMarkKind, selected: bool, colors: &MarkColors) -> (r: Rgb)
    ensures
        r == (match kind {
            ScrollMarkKind::Prompt => colors.prompt,
            ScrollMarkKind::Error => colors.error,
            ScrollMarkKind::SearchHit => if selected {
                colors.selected
            } else {
                colors.search
            },
        }),
{
    match kind {
        ScrollMarkKind::Prompt => colors.prompt,
        ScrollMarkKind::Error => colors.error,
        ScrollMarkKind::SearchHit => if selected {
            colors.selected
        } else {
            colors.search
        },
    }
}

/// The paint layer of a mark: prompts, then failures, then search hits on top.
pub open spec fn rank(kind: ScrollMarkKind) -> int {
    match kind {
        ScrollMarkKind::Prompt => 0,
        ScrollMarkKind::Error => 1,
        ScrollMarkKind::SearchHit => 2,
    }
}

/// The paint layer of a mark.
pub fn paint_rank(kind: ScrollMarkKind) -> (r: u8)
    ensures
        r == rank(kind),
{
    match kind {
        ScrollMarkKind::Prompt => 0,
        ScrollMarkKind::Error => 1,
        ScrollMarkKind::SearchHit => 2,
    }
}

/// The marks of one layer, in their given order.
pub open spec fn layer(marks: Seq<ScrollMark>, k: int) -> Seq<ScrollMark> {
    marks.filter(|m: ScrollMark| rank(m.kind) == k)
}

/// The marks in paint order: layer by layer, each in its given order.
pub open spec fn painted(marks: Seq<ScrollMark>) -> Seq<ScrollMark> {
    layer(marks, 0) + layer(marks, 1) + layer(marks, 2)
}

fn push_layer(out: &mut Vec<ScrollMark>, marks: &Vec<ScrollMark>, k: u8)
    ensures
        final(out)@ == old(out)@ + layer(marks@, k as int),
{
    let ghost keep = |m: ScrollMark| rank(m.kind) == k as int;
    let mut i: usize = 0;
    assert(marks@.take(0).filter(keep) =~= seq![]) by {
        reveal(Seq::filter);
    }
    while i < marks.len()
        invariant
            i <= marks@.len(),
            keep == (|m: ScrollMark| rank(m.kind) == k as int),
            out@ == old(out)@ + marks@.take(i as int).filter(keep),
        decreases marks@.len() - i,
    {
        proof {
            reveal(Seq::filter);
            assert(marks@.take(i + 1).drop_last() =~= marks@.take(i as int));
            assert(marks@.take(i + 1).last() == marks@[i as int]);
        }
        if paint_rank(marks[i].kind) == k {
            out.push(marks[i]);
        }
        assert(out@ =~= old(out)@ + marks@.take(i + 1).filter(keep));
        i += 1;
    }
    assert(marks@.take(i as int) =~= marks@);
}

/// The marks in the order they are painted.
pub fn paint_order(marks: &Vec<ScrollMark>) -> (r: Vec<ScrollMark>)
    ensures
        r@ == painted(marks@),
{
    let mut out: Vec<ScrollMark> = Vec::new();
    push_layer(&mut out, marks, 0);
    push_layer(&mut out, marks, 1);
    push_layer(&mut out, marks, 2);
    assert(out@ =~= painted(marks@));
    out
}

proof fn layer_members(marks: Seq<ScrollMark>, k: int)
    ensures
        forall|i: int| 0 <= i < layer(marks, k).len() ==> rank((#[trigger] layer(marks, k)[i]).kind) == k,
        forall|m: ScrollMark| marks.contains(m) && rank(m.kind) == k ==> layer(marks, k).contains(m),
    decreases marks.len(),
{
    reveal(Seq::filter);
    if marks.len() > 0 {
        layer_members(marks.drop_last(), k);
        let last = marks.last();
        let rest = layer(marks.drop_last(), k);
        assert forall|m: ScrollMark| marks.contains(m) && rank(m.kind) == k implies layer(
            marks,
            k,
        ).contains(m) by {
            let j = marks.index_of(m);
            if j == marks.len() - 1 {
                assert(layer(marks, k).last() == m);
                assert(layer(marks, k)[layer(marks, k).len() - 1] == m);
            } else {
                assert(marks.drop_last()[j] == m);
                assert(marks.drop_last().contains(m));
                let i = rest.index_of(m);
                assert(rest.contains(m));
                assert(layer(marks, k)[i] == m);
            }
        }
    }
}

/// A search hit is painted after every prompt and every failure, so it stays
/// visible where they meet.
pub proof fn search_hits_are_painted_last(marks: Seq<ScrollMark>, i: int, j: int)
    requires
        0 <= i < j < painted(marks).len(),
    ensures
        rank(painted(marks)[i].kind) <= rank(painted(marks)[j].kind),
{
    layer_members(marks, 0);
    layer_members(marks, 1);
    layer_members(marks, 2);
    let a = layer(marks, 0);
    let b = layer(marks, 1);
    let c = layer(marks, 2);
    assert forall|n: int| 0 <= n < painted(marks).len() implies painted(marks)[n] == (if n < a.len() {
        a[n]
    } else if n < a.len() + b.len() {
        b[n - a.len()]
    } else {
        c[n - a.len() - b.len()]
    }) by {}
}

/// No mark is lost in paint order.
pub proof fn every_mark_is_painted(marks: Seq<ScrollMark>, m: ScrollMark)
    requires
        marks.contains(m),
    ensures
        painted(marks).contains(m),
{
    layer_members(marks, 0);
    layer_members(marks, 1);
    layer_members(marks, 2);
    let a = layer(marks, 0);
    let b = layer(marks, 1);
    let c = layer(marks, 2);
    if rank(m.kind) == 0 {
        assert(painted(marks)[a.index_of(m)] == m);
    } else if rank(m.kind) == 1 {
        assert(painted(marks)[a.len() + b.index_of(m)] == m);
    } else {
        assert(painted(marks)[a.len() + b.len() + c.index_of(m)] == m);
    }
}

/// The most prompt marks, and the most failure marks, one pane shows.
pub const MAX_SEMANTIC_SCROLL_MARKS: usize = 256;

/// A line kept within the content.
pub open spec fn clamp_line(line: int, content: int) -> usize {
    let last = if content > 0 {
        content - 1
    } else {
        0
    };
    (if line <= last {
        line
    } else {
        last
    }) as usize
}

/// The marks of the newest lines, newest first, capped.
pub open spec fn newest_marks(lines: Seq<usize>, kind: ScrollMarkKind, content: int) -> Seq<ScrollMark> {
    Seq::new(
        if lines.len() <= MAX_SEMANTIC_SCROLL_MARKS {
            lines.len()
        } else {
            MAX_SEMANTIC_SCROLL_MARKS as nat
        },
        |i: int|
            ScrollMark {
                abs_line: clamp_line(lines[lines.len() - 1 - i] as int, content),
                kind,
                selected: false,
            },
    )
}

/// The marks of the find matches, at their absolute lines.
pub open spec fn hit_marks(spans: Seq<CellSpan>, selected: usize, m: ScrollMetrics) -> Seq<ScrollMark> {
    Seq::new(
        spans.len(),
        |i: int|
            ScrollMark {
                abs_line: clamp_line(m.window_top() + spans[i].line, m.content()),
                kind: ScrollMarkKind::SearchHit,
                selected: i == selected,
            },
    )
}

fn push_newest(out: &mut Vec<ScrollMark>, lines: &Vec<usize>, kind: ScrollMarkKind, last: usize, Ghost(content): Ghost<int>)
    requires
        last == clamp_line(content, content),
        0 <= content <= usize::MAX,
    ensures
        final(out)@ == old(out)@ + newest_marks(lines@, kind, content),
{
    let mut i: usize = 0;
    while i < lines.len() && i < MAX_SEMANTIC_SCROLL_MARKS
        invariant
            i <= lines@.len(),
            i <= MAX_SEMANTIC_SCROLL_MARKS,
            last == clamp_line(content, content),
            0 <= content <= usize::MAX,
            out@ == old(out)@ + newest_marks(lines@, kind, content).take(i as int),
        decreases lines@.len() - i,
    {
        let line: usize = lines[lines.len() - 1 - i];
        let abs_line: usize = if line <= last {
            line
        } else {
            last
        };
        out.push(ScrollMark { abs_line, kind, selected: false });
        assert(out@ =~= old(out)@ + newest_marks(lines@, kind, content).take(i + 1));
        i += 1;
    }
    assert(newest_marks(lines@, kind, content).take(i as int) =~= newest_marks(
        lines@,
        kind,
        content,
    ));
}

/// The marks of a pane: its newest prompts, its newest failures, then the find
/// matches where the overlay is open over it.
pub fn collect_marks(
    metrics: &ScrollMetrics,
    prompts: &Vec<usize>,
    failures: &Vec<usize>,
    hits: &Vec<CellSpan>,
    selected: usize,
) -> (r: Vec<ScrollMark>)
    requires
        metrics.content() <= usize::MAX,
        forall|i: int| 0 <= i < hits@.len() ==> metrics.window_top() + (#[trigger] hits@[i]).line <= usize::MAX,
    ensures
        r@ == newest_marks(prompts@, ScrollMarkKind::Prompt, metrics.content()) + newest_marks(
            failures@,
            ScrollMarkKind::Error,
            metrics.content(),
        ) + hit_marks(hits@, selected, *metrics),
{
    let last: usize = metrics.total().saturating_sub(1);
    let mut out: Vec<ScrollMark> = Vec::new();
    push_newest(&mut out, prompts, ScrollMarkKind::Prompt, last, Ghost(metrics.content()));
    push_newest(&mut out, failures, ScrollMarkKind::Error, last, Ghost(metrics.content()));
    let ghost head = out@;
    let ws: usize = metrics.window_start();
    let mut i: usize = 0;
    while i < hits.len()
        invariant
            i <= hits@.len(),
            ws == metrics.window_top(),
            metrics.content() <= usize::MAX,
            last == clamp_line(metrics.content(), metrics.content()),
            forall|j: int| 0 <= j < hits@.len() ==> metrics.window_top() + (#[trigger] hits@[j]).line
                <= usize::MAX,
            out@ == head + hit_marks(hits@, selected, *metrics).take(i as int),
        decreases hits@.len() - i,
    {
        let line: usize = ws + hits[i].line;
        let abs_line: usize = if line <= last {
            line
        } else {
            last
        };
        out.push(ScrollMark { abs_line, kind: ScrollMarkKind::SearchHit, selected: i == selected });
        assert(out@ =~= head + hit_marks(hits@, selected, *metrics).take(i + 1));
        i += 1;
    }
    assert(hit_marks(hits@, selected, *metrics).take(i as int) =~= hit_marks(
        hits@,
        selected,
        *metrics,
    ));
    assert(head =~= newest_marks(prompts@, ScrollMarkKind::Prompt, metrics.content())
        + newest_marks(failures@, ScrollMarkKind::Error, metrics.content()));
    out
}

/// The content is the history and the screen below it; the window stands as many
/// lines above its end as it is scrolled up, and at the first line where it is
/// scrolled further than that.
pub proof fn the_window_stands_where_it_is_scrolled_to(m: ScrollMetrics)
    ensures
        m.content() == m.scrollback_len + m.rows,
        m.view_offset <= m.scrollback_len ==> m.window_top() + m.view_offset == m.scrollback_len,
        m.view_offset > m.scrollback_len ==> m.window_top() == 0,
{
}

/// Failures are painted over prompts and find matches over both; marks of one
/// kind stay in their order.
pub proof fn marks_are_painted_kind_by_kind(marks: Seq<ScrollMark>, m: ScrollMark)
    ensures
        rank(ScrollMarkKind::Prompt) < rank(ScrollMarkKind::Error),
        rank(ScrollMarkKind::Error) < rank(ScrollMarkKind::SearchHit),
        painted(marks) == marks.filter(|m: ScrollMark| m.kind == ScrollMarkKind::Prompt)
            + marks.filter(|m: ScrollMark| m.kind == ScrollMarkKind::Error) + marks.filter(
            |m: ScrollMark| m.kind == ScrollMarkKind::SearchHit,
        ),
{
    lemma_same_filter(
        marks,
        |m: ScrollMark| m.kind == ScrollMarkKind::Prompt,
        |m: ScrollMark| rank(m.kind) == 0,
    );
    lemma_same_filter(
        marks,
        |m: ScrollMark| m.kind == ScrollMarkKind::Error,
        |m: ScrollMark| rank(m.kind) == 1,
    );
    lemma_same_filter(
        marks,
        |m: ScrollMark| m.kind == ScrollMarkKind::SearchHit,
        |m: ScrollMark| rank(m.kind) == 2,
    );
}

proof fn lemma_same_filter(
    marks: Seq<ScrollMark>,
    p: spec_fn(ScrollMark) -> bool,
    q: spec_fn(ScrollMark) -> bool,
)
    requires
        forall|m: ScrollMark| #[trigger] p(m) == q(m),
    ensures
        marks.filter(p) == marks.filter(q),
    decreases marks.len(),
{
    reveal(Seq::filter);
    if marks.len() > 0 {
        lemma_same_filter(marks.drop_last(), p, q);
        assert(p(marks.last()) == q(marks.last()));
    }
}

/// A line is marked where it stands, and one past the content at its last line.
pub proof fn lines_are_marked_within_the_content(line: int, content: int)
    requires
        0 <= line <= usize::MAX,
        0 <= content <= usize::MAX,
    ensures
        line < content ==> clamp_line(line, content) == line,
        line >= content && content > 0 ==> clamp_line(line, content) == content - 1,
        content == 0 ==> clamp_line(line, content) == 0,
{
}

/// The newest prompts and failures are marked, the newest first and at most two
/// hundred and fifty-six of them, each at its own line and as what it is.
pub proof fn the_newest_lines_are_marked(
    lines: Seq<usize>,
    kind: ScrollMarkKind,
    content: int,
    i: int,
)
    requires
        0 < content <= usize::MAX,
        0 <= i < newest_marks(lines, kind, content).len(),
    ensures
        lines.len() <= 256 ==> newest_marks(lines, kind, content).len() == lines.len(),
        lines.len() > 256 ==> newest_marks(lines, kind, content).len() == 256,
        ({
            let line = lines[lines.len() - 1 - i];
            let mark = newest_marks(lines, kind, content)[i];
            &&& mark.kind == kind && !mark.selected
            &&& line < content ==> mark.abs_line == line
            &&& line >= content ==> mark.abs_line == content - 1
        }),
{
}

/// Every find match is marked at its own line of the content, and the selected
/// one as such.
pub proof fn find_matches_are_marked_at_their_lines(
    spans: Seq<CellSpan>,
    selected: usize,
    m: ScrollMetrics,
    i: int,
)
    requires
        0 < m.content() <= usize::MAX,
        0 <= i < spans.len(),
    ensures
        hit_marks(spans, selected, m).len() == spans.len(),
        ({
            let mark = hit_marks(spans, selected, m)[i];
            &&& mark.kind == ScrollMarkKind::SearchHit
            &&& mark.selected <==> i == selected
            &&& m.window_top() + spans[i].line < m.content() ==> mark.abs_line == m.window_top()
                + spans[i].line
            &&& m.window_top() + spans[i].line >= m.content() ==> mark.abs_line == m.content() - 1
        }),
{
}

/// There is something to scroll where there is a history and a screen.
pub proof fn a_history_can_be_scrolled(m: ScrollMetrics, r: bool)
    requires
        call_ensures(ScrollMetrics::scrollable, (&m,), r),
    ensures
        r <==> m.scrollback_len > 0 && m.rows > 0,
{
}

/// A click above the thumb pages one screen back and one below it one screen
/// forward, and not past the ends of the history.
pub proof fn a_click_pages_by_the_screen(m: ScrollMetrics, back: usize, forward: usize)
    requires
        m.view_offset + m.rows <= usize::MAX,
        m.view_offset <= m.scrollback_len,
        call_ensures(ScrollMetrics::page_target, (&m, true), back),
        call_ensures(ScrollMetrics::page_target, (&m, false), forward),
    ensures
        forward <= m.view_offset <= back <= m.scrollback_len,
        m.view_offset + m.rows <= m.scrollback_len ==> back == m.view_offset + m.rows,
        m.view_offset + m.rows > m.scrollback_len ==> back == m.scrollback_len,
        m.rows <= m.view_offset ==> forward + m.rows == m.view_offset,
        m.rows > m.view_offset ==> forward == 0,
{
}

/// The thumb goes where it is dragged to; a click beside it pages towards the
/// click, and one on it goes nowhere.
pub proof fn the_view_goes_where_it_is_asked(
    m: ScrollMetrics,
    pointed: Option<usize>,
    clicked: bool,
    above: Option<bool>,
    dragged: Option<usize>,
    paged: Option<usize>,
    target: usize,
    up: bool,
    beside: Option<usize>,
)
    requires
        m.view_offset + m.rows <= usize::MAX,
        call_ensures(ScrollMetrics::scroll_request, (&m, true, pointed, clicked, above), dragged),
        call_ensures(
            ScrollMetrics::scroll_request,
            (&m, false, pointed, clicked, None::<bool>),
            paged,
        ),
        call_ensures(ScrollMetrics::page_target, (&m, up), target),
        call_ensures(ScrollMetrics::scroll_request, (&m, false, pointed, true, Some(up)), beside),
    ensures
        dragged == pointed,
        paged is None,
        beside == Some(target),
{
}

/// To reach an offset the view scrolls by what lies between, back into the
/// history where that is positive.
pub proof fn scrolling_by_the_difference_gets_there(m: ScrollMetrics, target: usize, r: i32)
    requires
        target <= i32::MAX,
        m.view_offset <= i32::MAX,
        call_ensures(ScrollMetrics::scroll_delta, (&m, target), r),
    ensures
        m.view_offset + r == target,
        target > m.view_offset ==> r > 0,
{
}

/// A mark has the colour of its kind; a find match has its own where it is the
/// selected one.
pub proof fn marks_have_the_colour_of_their_kind(
    selected: bool,
    c: MarkColors,
    prompt: Rgb,
    error: Rgb,
    hit: Rgb,
    chosen: Rgb,
)
    requires
        call_ensures(mark_color, (ScrollMarkKind::Prompt, selected, &c), prompt),
        call_ensures(mark_color, (ScrollMarkKind::Error, selected, &c), error),
        call_ensures(mark_color, (ScrollMarkKind::SearchHit, false, &c), hit),
        call_ensures(mark_color, (ScrollMarkKind::SearchHit, true, &c), chosen),
    ensures
        prompt == c.prompt,
        error == c.error,
        hit == c.search,
        chosen == c.selected,
{
}

} // verus!
