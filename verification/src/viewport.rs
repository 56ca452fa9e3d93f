use vstd::prelude::*;

verus! {

/// Which candles of a series of `len` candles the chart shows: `visible_count`
/// candles ending `scroll_offset` candles before the newest.
#[derive(Debug, Clone, Copy, PartialEq, Eq, Structural)]
pub struct ChartViewport {
    pub visible_count: usize,
    pub scroll_offset: usize,
    pub drag_start_offset: usize,
}

/// `a - b`, or 0 when `b > a`.
pub open spec fn sat_sub(a: int, b: int) -> int {
    if a >= b {
        a - b
    } else {
        0
    }
}

/// The shown candles: from `start` (inclusive) to `end` (exclusive).
pub open spec fn window_of(len: int, visible_count: int, scroll_offset: int) -> (int, int) {
    if len == 0 {
        (0, 0)
    } else {
        let end = sat_sub(len, scroll_offset);
        (sat_sub(end, visible_count), end)
    }
}

/// Largest scroll offset that still fills the window.
pub open spec fn max_offset(len: int, visible_count: int) -> int {
    sat_sub(len, visible_count)
}

/// Fewest and most candles the chart shows after a wheel zoom.
pub const MIN_VISIBLE: usize = 20;
pub const MAX_VISIBLE: usize = 200;

/// Candle count after a wheel zoom by `step` candles (more when `grow`,
/// fewer otherwise), kept between `MIN_VISIBLE` and `MAX_VISIBLE`.
pub open spec fn zoomed_count(old_count: int, step: int, grow: bool) -> int {
    let target = if grow { old_count + step } else { old_count - step };
    if target < MIN_VISIBLE {
        MIN_VISIBLE as int
    } else if target > MAX_VISIBLE {
        MAX_VISIBLE as int
    } else {
        target
    }
}

impl ChartViewport {
    /// Sixty candles, scrolled to the newest.
    pub fn new() -> (res: ChartViewport)
        ensures
            res.visible_count == 60,
            res.scroll_offset == 0,
            res.drag_start_offset == 0,
    {
        ChartViewport { visible_count: 60, scroll_offset: 0, drag_start_offset: 0 }
    }

    /// Scrolls back to the newest candle (used when the series is cleared).
    pub fn reset_scroll(&mut self)
        ensures
            *final(self) == (ChartViewport { scroll_offset: 0, ..*old(self) }),
    {
        self.scroll_offset = 0;
    }

    /// Keeps the scroll offset within the series.
    pub fn clamp_scroll_offset(&mut self, len: usize)
        ensures
            final(self).scroll_offset == if old(self).scroll_offset <= max_offset(
                len as int,
                old(self).visible_count as int,
            ) {
                old(self).scroll_offset as int
            } else {
                max_offset(len as int, old(self).visible_count as int)
            },
            final(self).visible_count == old(self).visible_count,
            final(self).drag_start_offset == old(self).drag_start_offset,
    {
        let max = len.saturating_sub(self.visible_count);
        if self.scroll_offset > max {
            self.scroll_offset = max;
        }
    }

    /// The range of candle indices shown for a series of `len` candles.
    pub fn visible_range(&self, len: usize) -> (res: (usize, usize))
        ensures
            (res.0 as int, res.1 as int) == window_of(
                len as int,
                self.visible_count as int,
                self.scroll_offset as int,
            ),
    {
        if len == 0 {
            return (0, 0);
        }
        let end = len.saturating_sub(self.scroll_offset);
        let start = end.saturating_sub(self.visible_count);
        (start, end)
    }

    /// Changes the number of shown candles to `new_count`, keeping the centre
    /// of the window in place, then clamps the scroll offset.
    pub fn zoom_to(&mut self, len: usize, new_count: usize)
        requires
            new_count <= 200,
            len + 100 <= usize::MAX,
        ensures
            final(self).visible_count == new_count,
            final(self).drag_start_offset == old(self).drag_start_offset,
            ({
                let old_count = old(self).visible_count as int;
                let recentred = if old_count > 0 && new_count != old_count {
                    sat_sub(
                        len as int,
                        sat_sub(sat_sub(len as int, old(self).scroll_offset as int), old_count / 2)
                            + new_count / 2,
                    )
                } else {
                    old(self).scroll_offset as int
                };
                final(self).scroll_offset == if recentred <= max_offset(len as int, new_count as int) {
                    recentred
                } else {
                    max_offset(len as int, new_count as int)
                }
            }),
    {
        let old_count = self.visible_count;
        if old_count > 0 && new_count != old_count {
            let right_edge = len.saturating_sub(self.scroll_offset);
            let center_candle = right_edge.saturating_sub(old_count / 2);
            let new_right_edge = center_candle + new_count / 2;
            self.scroll_offset = len.saturating_sub(new_right_edge);
        }
        self.visible_count = new_count;
        self.clamp_scroll_offset(len);
    }

    /// Wheel zoom: `step` candles more (`grow`) or fewer, kept between
    /// `MIN_VISIBLE` and `MAX_VISIBLE`, keeping the centre of the window in
    /// place; the window never scrolls past the oldest candle.
    pub fn zoom_by(&mut self, len: usize, step: usize, grow: bool)
        requires
            len + 100 <= usize::MAX,
        ensures
            final(self).visible_count == zoomed_count(old(self).visible_count as int, step as int, grow),
            MIN_VISIBLE <= final(self).visible_count <= MAX_VISIBLE,
            final(self).scroll_offset <= max_offset(len as int, final(self).visible_count as int),
            final(self).drag_start_offset == old(self).drag_start_offset,
            ({
                let old_count = old(self).visible_count as int;
                let new_count = final(self).visible_count as int;
                let recentred = if old_count > 0 && new_count != old_count {
                    sat_sub(
                        len as int,
                        sat_sub(sat_sub(len as int, old(self).scroll_offset as int), old_count / 2)
                            + new_count / 2,
                    )
                } else {
                    old(self).scroll_offset as int
                };
                final(self).scroll_offset == if recentred <= max_offset(len as int, new_count) {
                    recentred
                } else {
                    max_offset(len as int, new_count)
                }
            }),
    {
        let old_count = self.visible_count;
        let new_count: usize = if grow {
            if old_count >= MAX_VISIBLE || step >= MAX_VISIBLE - old_count {
                MAX_VISIBLE
            } else if old_count + step < MIN_VISIBLE {
                MIN_VISIBLE
            } else {
                old_count + step
            }
        } else {
            if old_count <= step || old_count - step < MIN_VISIBLE {
                MIN_VISIBLE
            } else if old_count - step > MAX_VISIBLE {
                MAX_VISIBLE
            } else {
                old_count - step
            }
        };
        self.zoom_to(len, new_count);
    }

    /// Remembers the offset at which a drag starts.
    pub fn start_drag(&mut self)
        ensures
            *final(self) == (ChartViewport { drag_start_offset: old(self).scroll_offset, ..*old(self) }),
    {
        self.drag_start_offset = self.scroll_offset;
    }

    /// Moves the window by `candle_delta` candles relative to where the drag
    /// started (towards older candles for negative deltas), then clamps.
    pub fn drag_by(&mut self, len: usize, candle_delta: isize)
        requires
            old(self).drag_start_offset <= isize::MAX,
            isize::MIN <= old(self).drag_start_offset as int - candle_delta as int <= isize::MAX,
        ensures
            final(self).visible_count == old(self).visible_count,
            final(self).drag_start_offset == old(self).drag_start_offset,
            ({
                let moved = if old(self).drag_start_offset as int - candle_delta as int > 0 {
                    old(self).drag_start_offset as int - candle_delta as int
                } else {
                    0
                };
                final(self).scroll_offset == if moved <= max_offset(len as int, old(self).visible_count as int) {
                    moved
                } else {
                    max_offset(len as int, old(self).visible_count as int)
                }
            }),
    {
        let d = self.drag_start_offset as isize - candle_delta;
        let new_offset: usize = if d > 0 { d as usize } else { 0 };
        self.scroll_offset = new_offset;
        self.clamp_scroll_offset(len);
    }
}

/// Once the scroll offset is clamped, the window lies within the series and
/// is full whenever the series has at least `visible_count` candles.
pub proof fn lemma_clamped_window_is_full(len: int, visible_count: int, scroll_offset: int)
    requires
        0 <= visible_count,
        0 <= len,
        0 <= scroll_offset <= max_offset(len, visible_count),
    ensures
        0 <= window_of(len, visible_count, scroll_offset).0 <= window_of(len, visible_count, scroll_offset).1 <= len,
        window_of(len, visible_count, scroll_offset).1 - window_of(len, visible_count, scroll_offset).0 <= visible_count,
        len >= visible_count ==> window_of(len, visible_count, scroll_offset).1 - window_of(
            len,
            visible_count,
            scroll_offset,
        ).0 == visible_count,
{
}

} // verus!
