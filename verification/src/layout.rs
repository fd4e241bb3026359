//! Where the panel goes and what it shows there.

use crate::session::AssistSession;
use crate::session::SessionView;
use crate::text::enclose;
use vstd::prelude::*;

verus! {

/// A rectangle of screen cells.
#[derive(Clone, Copy, Debug, PartialEq, Eq, Structural)]
pub struct Rect {
    pub x: u16,
    pub y: u16,
    pub width: u16,
    pub height: u16,
}

/// `a + b`, or the largest coordinate if that is too large.
pub open spec fn capped(a: u16, b: u16) -> u16 {
    if a + b <= u16::MAX {
        (a + b) as u16
    } else {
        u16::MAX
    }
}

/// The smaller one.
pub open spec fn least(a: u16, b: u16) -> u16 {
    if a < b {
        a
    } else {
        b
    }
}

fn capped_add(a: u16, b: u16) -> (result: u16)
    ensures
        result == capped(a, b),
{
    if a <= u16::MAX - b {
        a + b
    } else {
        u16::MAX
    }
}

fn smaller(a: u16, b: u16) -> (result: u16)
    ensures
        result == least(a, b),
{
    if a < b {
        a
    } else {
        b
    }
}

impl Rect {
    /// The column behind the last one.
    pub open spec fn right(self) -> u16 {
        capped(self.x, self.width)
    }

    /// The row behind the last one.
    pub open spec fn bottom(self) -> u16 {
        capped(self.y, self.height)
    }

    /// The area without its first `n` columns.
    pub open spec fn without_left(self, n: u16) -> Rect {
        Rect {
            x: capped(self.x, least(n, self.width)),
            width: (self.width - least(n, self.width)) as u16,
            ..self
        }
    }

    /// The area without its last `n` columns.
    pub open spec fn without_right(self, n: u16) -> Rect {
        Rect { width: (self.width - least(n, self.width)) as u16, ..self }
    }

    /// The area without its first `n` rows.
    pub open spec fn without_top(self, n: u16) -> Rect {
        Rect {
            y: capped(self.y, least(n, self.height)),
            height: (self.height - least(n, self.height)) as u16,
            ..self
        }
    }

    fn clip_left(self, n: u16) -> (result: Rect)
        ensures
            result == self.without_left(n),
    {
        let cut: u16 = smaller(n, self.width);
        Rect {
            x: capped_add(self.x, cut),
            y: self.y,
            width: self.width - cut,
            height: self.height,
        }
    }

    fn clip_right(self, n: u16) -> (result: Rect)
        ensures
            result == self.without_right(n),
    {
        let cut: u16 = smaller(n, self.width);
        Rect { x: self.x, y: self.y, width: self.width - cut, height: self.height }
    }

    fn clip_top(self, n: u16) -> (result: Rect)
        ensures
            result == self.without_top(n),
    {
        let cut: u16 = smaller(n, self.height);
        Rect {
            x: self.x,
            y: capped_add(self.y, cut),
            width: self.width,
            height: self.height - cut,
        }
    }
}

/// The narrowest panel that can be read.
pub const MIN_PANEL_WIDTH: u16 = 24;

/// The fewest columns that the code keeps.
pub const MIN_CODE_WIDTH: u16 = 30;

/// The width of a panel that wants `width` columns of `area`: at most half of them.
pub open spec fn panel_width(area: Rect, width: u16) -> u16 {
    least(width, area.width / 2)
}

/// Whether `area` can spare a panel that wants `width` columns.
pub open spec fn has_panel(area: Rect, width: u16) -> bool {
    &&& panel_width(area, width) >= MIN_PANEL_WIDTH
    &&& area.width - panel_width(area, width) >= MIN_CODE_WIDTH
}

/// Carve the panel out of the editor area, or `None` when the window cannot spare it.
///
/// Narrow windows shrink the panel rather than losing it, but below a readable width, or once
/// the code would be squeezed too far, it is dropped entirely.
pub fn panel_area(area: Rect, width: u16) -> (result: Option<Rect>)
    ensures
        result == if has_panel(area, width) {
            Some(
                Rect {
                    x: (area.right() - panel_width(area, width)) as u16,
                    y: area.y,
                    width: panel_width(area, width),
                    height: area.height,
                },
            )
        } else {
            None
        },
        ({
            let half = (area.width / 2) as int;
            let taken = if width <= half {
                width as int
            } else {
                half
            };
            let right = if area.x + area.width <= 0xffff {
                area.x + area.width
            } else {
                0xffff
            };
            match result {
                Some(panel) => {
                    &&& taken >= 24 && area.width - taken >= 30
                    &&& panel.x == right - taken && panel.y == area.y
                    &&& panel.width == taken && panel.height == area.height
                },
                None => taken < 24 || area.width - taken < 30,
            }
        }),
{
    let width: u16 = smaller(width, area.width / 2);
    if width < MIN_PANEL_WIDTH || area.width - width < MIN_CODE_WIDTH {
        return None;
    }
    Some(
        Rect {
            x: capped_add(area.x, area.width) - width,
            y: area.y,
            width,
            height: area.height,
        },
    )
}

/// What the panel shows: a rule down its left edge, a line of status, and the transcript.
pub struct Frame {
    /// The rule covers the cells of this column.
    pub rule_column: u16,
    /// The first row of the rule.
    pub rule_top: u16,
    /// The row behind the last one of the rule.
    pub rule_bottom: u16,
    /// Where the status line goes and what it reads, if there is room for it.
    pub header: Option<(Rect, String)>,
    /// Where the transcript goes, if there is room for it.
    pub body: Option<Rect>,
}

/// The one word that tells where a session is.
pub open spec fn status_word(session: SessionView) -> Seq<char> {
    if session.review is Some {
        "review"@
    } else if session.busy {
        "working"@
    } else {
        "idle"@
    }
}

/// The part of the panel inside its edges.
pub open spec fn inner_area(area: Rect) -> Rect {
    area.without_left(2).without_right(1)
}

/// Whether `area` has room for anything.
pub open spec fn has_room(area: Rect) -> bool {
    area.width > 0 && area.height > 0
}

impl Frame {
    /// Whether this is the frame of `session` in `area`.
    pub open spec fn shows(self, session: SessionView, area: Rect) -> bool {
        let inner = inner_area(area);
        let body = inner.without_top(2);
        &&& self.rule_column == area.x
        &&& self.rule_top == area.y
        &&& self.rule_bottom == area.bottom()
        &&& if has_room(inner) {
            &&& self.header matches Some((line, text))
            &&& line == (Rect { x: inner.x, y: inner.y, width: inner.width, height: 1 })
            &&& text@ == " assist \u{b7} "@ + status_word(session)
        } else {
            self.header is None
        }
        &&& self.body == if has_room(inner) && body.height > 0 {
            Some(body)
        } else {
            None
        }
    }
}

/// `scroll` moved back by `lines`, or forth if that is negative, within what can be counted.
pub open spec fn scrolled(scroll: u16, lines: i16) -> u16 {
    if scroll + lines < 0 {
        0
    } else if scroll + lines > u16::MAX {
        u16::MAX
    } else {
        (scroll + lines) as u16
    }
}

/// How far a body of `height` rows can be scrolled back over `rendered` lines.
pub open spec fn max_scroll(rendered: u16, height: u16) -> u16 {
    (rendered - least(height, rendered)) as u16
}

impl AssistSession {
    /// Scroll the panel back (positive) or toward the newest output (negative).
    pub fn scroll(&mut self, lines: i16)
        ensures
            final(self)@ == (SessionView {
                scroll: scrolled(old(self)@.scroll, lines),
                ..old(self)@
            }),
            0 <= old(self).scroll + lines <= 0xffff ==> final(self).scroll == old(self).scroll
                + lines,
            old(self).scroll + lines < 0 ==> final(self).scroll == 0,
            old(self).scroll + lines > 0xffff ==> final(self).scroll == 0xffff,
    {
        let moved: i32 = self.scroll as i32 + lines as i32;
        self.scroll =
        if moved < 0 {
            0
        } else if moved > 0xffff {
            0xffff
        } else {
            moved as u16
        };
    }

    /// Lay out the panel. The host draws the rule and the status line, and then, where there
    /// is a body, renders the transcript to its width and asks [`Self::body_offset`] where to
    /// start.
    pub fn render_panel(&self, area: Rect) -> (frame: Frame)
        ensures
            frame.shows(self@, area),
    {
        let rule_bottom: u16 = capped_add(area.y, area.height);
        let inner = area.clip_left(2).clip_right(1);
        if inner.width == 0 || inner.height == 0 {
            return Frame {
                rule_column: area.x,
                rule_top: area.y,
                rule_bottom,
                header: None,
                body: None,
            };
        }
        let status = if self.review.is_some() {
            "review"
        } else if self.busy {
            "working"
        } else {
            "idle"
        };
        let line = Rect { x: inner.x, y: inner.y, width: inner.width, height: 1 };
        let text = enclose(" assist \u{b7} ", status, "");
        proof {
            reveal_strlit("");
            assert(text@ == " assist \u{b7} "@ + status@);
        }
        let body = inner.clip_top(2);
        Frame {
            rule_column: area.x,
            rule_top: area.y,
            rule_bottom,
            header: Some((line, text)),
            body: if body.height == 0 {
                None
            } else {
                Some(body)
            },
        }
    }

    /// The first line to show of a transcript that renders to `rendered` lines, in a body of
    /// `height` rows. The session scrolls back no further than the transcript goes.
    pub fn body_offset(&mut self, rendered: u16, height: u16) -> (offset: u16)
        ensures
            final(self)@ == (SessionView {
                scroll: least(old(self)@.scroll, max_scroll(rendered, height)),
                ..old(self)@
            }),
            offset == max_scroll(rendered, height) - final(self)@.scroll,
            rendered <= height ==> offset == 0 && final(self).scroll == 0,
            rendered > height && old(self).scroll <= rendered - height ==> final(self).scroll
                == old(self).scroll && offset == rendered - height - old(self).scroll,
            rendered > height && old(self).scroll > rendered - height ==> final(self).scroll
                == rendered - height && offset == 0,
    {
        // `scroll` counts lines back from the newest output, so zero sits at the bottom and
        // the panel follows a streaming reply without any work.
        let max: u16 = rendered - smaller(height, rendered);
        self.scroll = smaller(self.scroll, max);
        max - self.scroll
    }
}

/// The panel lies within the area, at its right edge, and leaves the code its columns, at
/// least as many as the panel takes.
pub proof fn law_panel_displaces_no_more_than_half(area: Rect, width: u16)
    requires
        has_panel(area, width),
        area.x + area.width <= u16::MAX,
    ensures
        ({
            let taken = panel_width(area, width);
            let left = area.right() - taken;
            &&& taken <= width
            &&& MIN_PANEL_WIDTH <= taken
            &&& area.x + MIN_CODE_WIDTH <= left
            &&& taken <= left - area.x
            &&& left + taken == area.x + area.width
        }),
{
}

/// A window too narrow for a panel has none, whatever width it wants, and one that can spare
/// both minimal widths twice over has one for every width that can be read.
pub proof fn law_wide_windows_have_a_panel(area: Rect, width: u16)
    ensures
        area.width < MIN_PANEL_WIDTH + MIN_CODE_WIDTH ==> !has_panel(area, width),
        width < MIN_PANEL_WIDTH ==> !has_panel(area, width),
        area.width >= MIN_CODE_WIDTH + MIN_CODE_WIDTH && width >= MIN_PANEL_WIDTH ==> has_panel(
            area,
            width,
        ),
{
}

/// Unless the user scrolled back, the body ends with the newest line: what is shown reaches
/// exactly to the end, or all of it fits.
pub proof fn law_unscrolled_body_shows_the_newest_line(rendered: u16, height: u16)
    ensures
        ({
            let offset = max_scroll(rendered, height) - least(0, max_scroll(rendered, height));
            if rendered <= height {
                offset == 0
            } else {
                offset + height == rendered
            }
        }),
{
}

/// The status line stands inside the edges, on the first row, wherever there is a column and a row
/// for it, and says what the session is doing: a review before work, and work before idleness. The
/// transcript takes what is left below it and one row of distance. The rule runs down the left
/// edge, all of it. No coordinate goes past the largest one there is.
pub proof fn law_a_frame_fills_its_area(frame: Frame, session: SessionView, area: Rect)
    requires
        frame.shows(session, area),
    ensures
        frame.rule_column == area.x,
        frame.rule_top == area.y,
        frame.rule_bottom == if area.y + area.height <= 0xffff {
            area.y + area.height
        } else {
            0xffff
        },
        frame.header is Some <==> area.width > 3 && area.height > 0,
        frame.header matches Some((line, text)) ==> {
            &&& line.y == area.y
            &&& line.x == if area.x + 2 <= 0xffff {
                area.x + 2
            } else {
                0xffff
            }
            &&& line.width == area.width - 3 && line.height == 1
            &&& text@ == " assist \u{b7} "@ + if session.review is Some {
                "review"@
            } else if session.busy {
                "working"@
            } else {
                "idle"@
            }
        },
        frame.body is Some <==> area.width > 3 && area.height > 2,
        frame.body matches Some(body) ==> {
            &&& body.x == if area.x + 2 <= 0xffff {
                area.x + 2
            } else {
                0xffff
            }
            &&& body.y == if area.y + 2 <= 0xffff {
                area.y + 2
            } else {
                0xffff
            }
            &&& body.width == area.width - 3 && body.height == area.height - 2
        },
{
}

} // verus!
