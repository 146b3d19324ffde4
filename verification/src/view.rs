//! The texture a browser is drawn into: its size and state, and how the
//! pixels a browser painted are copied into it.
use vstd::prelude::*;

verus! {

/// A rectangle of pixels (`cef_rect_t`).
#[derive(Debug, Clone, Copy, PartialEq, Eq, Structural)]
pub struct Rect {
    pub x: i32,
    pub y: i32,
    pub width: i32,
    pub height: i32,
}

/// `d` with the `len` bytes from `start` on taken from `src`.
pub open spec fn copy_span(d: Seq<u8>, src: Seq<u8>, start: int, len: int) -> Seq<u8> {
    Seq::new(d.len(), |p: int| if start <= p < start + len { src[p] } else { d[p] })
}

/// `d` with the first `rows` rows of rectangle `r` taken from `src`, rows
/// being `pitch` bytes apart and pixels four bytes wide.
pub open spec fn rect_rows(d: Seq<u8>, src: Seq<u8>, pitch: int, r: Rect, rows: int) -> Seq<u8>
    decreases rows,
{
    if rows <= 0 {
        d
    } else {
        copy_span(
            rect_rows(d, src, pitch, r, rows - 1),
            src,
            pitch * (r.y + rows - 1) + 4 * r.x,
            4 * r.width,
        )
    }
}

/// `d` with every rectangle of `rects` taken from `src`, in order.
pub open spec fn rects_copied(d: Seq<u8>, src: Seq<u8>, pitch: int, rects: Seq<Rect>) -> Seq<u8>
    decreases rects.len(),
{
    if rects.len() == 0 {
        d
    } else {
        let prev = rects_copied(d, src, pitch, rects.drop_last());
        rect_rows(prev, src, pitch, rects.last(), rects.last().height as int)
    }
}

/// Position `p` lies in one of the first `rows` rows of rectangle `r`.
pub open spec fn row_touched(p: int, pitch: int, r: Rect, rows: int) -> bool
    decreases rows,
{
    if rows <= 0 {
        false
    } else {
        let start = pitch * (r.y + rows - 1) + 4 * r.x;
        (start <= p && p < start + 4 * r.width) || row_touched(p, pitch, r, rows - 1)
    }
}

/// Position `p` lies in a row of one of the rectangles.
pub open spec fn rects_touch(p: int, pitch: int, rects: Seq<Rect>) -> bool
    decreases rects.len(),
{
    if rects.len() == 0 {
        false
    } else {
        row_touched(p, pitch, rects.last(), rects.last().height as int) || rects_touch(
            p,
            pitch,
            rects.drop_last(),
        )
    }
}

proof fn lemma_rect_rows(d: Seq<u8>, src: Seq<u8>, pitch: int, r: Rect, rows: int)
    ensures
        rect_rows(d, src, pitch, r, rows).len() == d.len(),
        forall|p: int| 0 <= p < d.len() ==> #[trigger] rect_rows(d, src, pitch, r, rows)[p] == (if row_touched(
            p,
            pitch,
            r,
            rows,
        ) {
            src[p]
        } else {
            d[p]
        }),
    decreases rows,
{
    if rows > 0 {
        lemma_rect_rows(d, src, pitch, r, rows - 1);
    }
}

/// Copying the dirty rectangles of a frame makes every byte in one of their
/// rows the frame's byte at the same place, and leaves every other byte of
/// the texture as it was.
pub proof fn law_dirty_rows_copied(d: Seq<u8>, src: Seq<u8>, pitch: int, rects: Seq<Rect>)
    ensures
        rects_copied(d, src, pitch, rects).len() == d.len(),
        forall|p: int| 0 <= p < d.len() ==> #[trigger] rects_copied(d, src, pitch, rects)[p] == (if rects_touch(
            p,
            pitch,
            rects,
        ) {
            src[p]
        } else {
            d[p]
        }),
    decreases rects.len(),
{
    if rects.len() > 0 {
        law_dirty_rows_copied(d, src, pitch, rects.drop_last());
        let prev = rects_copied(d, src, pitch, rects.drop_last());
        lemma_rect_rows(prev, src, pitch, rects.last(), rects.last().height as int);
    }
}

/// The rectangle lies within both buffers: its last row ends inside them.
pub open spec fn rect_fits(r: Rect, pitch: int, len: int) -> bool {
    &&& r.x >= 0 && r.y >= 0 && r.width >= 0 && r.height >= 0
    &&& r.height > 0 ==> pitch * (r.y + r.height - 1) + 4 * r.x + 4 * r.width <= len
}

fn copy_bytes(dest: &mut [u8], src: &[u8], start: usize, len: usize)
    requires
        start + len <= old(dest)@.len(),
        start + len <= src@.len(),
    ensures
        final(dest)@ == copy_span(old(dest)@, src@, start as int, len as int),
{
    let n = dest.len();
    let mut i: usize = 0;
    while i < len
        invariant
            n == dest@.len(),
            start + len <= dest@.len(),
            start + len <= src@.len(),
            dest@.len() == old(dest)@.len(),
            i <= len,
            dest@ == copy_span(old(dest)@, src@, start as int, i as int),
        decreases len - i,
    {
        dest[start + i] = src[start + i];
        i = i + 1;
        proof {
            assert(dest@ =~= copy_span(old(dest)@, src@, start as int, i as int));
        }
    }
}

proof fn lemma_row_bound(pitch: int, y: int, row: int, h: int, x: int, w: int)
    requires
        pitch >= 0,
        y <= row < y + h,
        x >= 0,
        w >= 0,
        y >= 0,
    ensures
        pitch * row + 4 * x + 4 * w <= pitch * (y + h - 1) + 4 * x + 4 * w,
        0 <= pitch * row,
{
    assert(pitch * row <= pitch * (y + h - 1)) by (nonlinear_arith)
        requires
            pitch >= 0,
            row <= y + h - 1,
    ;
    assert(0 <= pitch * row) by (nonlinear_arith)
        requires
            pitch >= 0,
            row >= 0,
    ;
}

/// Copies the dirty rectangles of a painted frame into the texture: each of
/// their rows, at the same place in both, rows `pitch` bytes apart.
pub fn update_texture(dest: &mut [u8], pitch: usize, bytes: &[u8], rects: &[Rect])
    requires
        forall|k: int| 0 <= k < rects@.len() ==> rect_fits(rects@[k], pitch as int, old(dest)@.len() as int)
            && rect_fits(rects@[k], pitch as int, bytes@.len() as int),
    ensures
        final(dest)@ == rects_copied(old(dest)@, bytes@, pitch as int, rects@),
        final(dest)@.len() == old(dest)@.len(),
{
    let n = dest.len();
    let mut k: usize = 0;
    while k < rects.len()
        invariant
            n == dest@.len(),
            k <= rects@.len(),
            dest@.len() == old(dest)@.len(),
            forall|j: int| 0 <= j < rects@.len() ==> rect_fits(rects@[j], pitch as int, dest@.len() as int)
                && rect_fits(rects@[j], pitch as int, bytes@.len() as int),
            dest@ == rects_copied(old(dest)@, bytes@, pitch as int, rects@.take(k as int)),
        decreases rects@.len() - k,
    {
        proof {
            assert(rects@.take(k + 1).drop_last() =~= rects@.take(k as int));
            assert(rects@.take(k + 1).last() == rects@[k as int]);
        }
        let r = rects[k];
        let ghost before = dest@;
        let mut row: usize = 0;
        let h = r.height as usize;
        while row < h
            invariant
                rect_fits(r, pitch as int, dest@.len() as int),
                rect_fits(r, pitch as int, bytes@.len() as int),
                h == r.height,
                row <= h,
                n == dest@.len(),
                dest@.len() == old(dest)@.len(),
                dest@ == rect_rows(before, bytes@, pitch as int, r, row as int),
            decreases h - row,
        {
            let y = r.y as usize + row;
            proof {
                lemma_row_bound(pitch as int, r.y as int, y as int, r.height as int, r.x as int, r.width as int);
            }
            let index = pitch * y + (r.x as usize) * 4;
            copy_bytes(dest, bytes, index, (r.width as usize) * 4);
            row = row + 1;
        }
        k = k + 1;
    }
    proof {
        assert(rects@.take(rects@.len() as int) =~= rects@);
    }
}

/// `d` with `len` bytes from `dst` on taken from `src` starting at `from`.
pub open spec fn copy_shifted(d: Seq<u8>, src: Seq<u8>, dst: int, from: int, len: int) -> Seq<u8> {
    Seq::new(d.len(), |p: int| if dst <= p < dst + len { src[p - dst + from] } else { d[p] })
}

/// `d` with the first `rows` rows of the popup `r` taken from its own buffer
/// `src` (rows of `4 * width` bytes) and placed at its position in the texture.
pub open spec fn popup_rows(d: Seq<u8>, src: Seq<u8>, pitch: int, r: Rect, rows: int) -> Seq<u8>
    decreases rows,
{
    if rows <= 0 {
        d
    } else {
        copy_shifted(
            popup_rows(d, src, pitch, r, rows - 1),
            src,
            (rows - 1 + r.y) * pitch + 4 * r.x,
            (rows - 1) * (4 * r.width),
            4 * r.width,
        )
    }
}

/// The popup lies within the texture and its buffer holds all its rows.
pub open spec fn popup_fits(r: Rect, pitch: int, dest_len: int, src_len: int) -> bool {
    &&& r.x >= 0 && r.y >= 0 && r.width >= 0 && r.height >= 0
    &&& 4 * r.x + 4 * r.width <= pitch
    &&& (r.y + r.height) * pitch <= dest_len
    &&& r.height * (4 * r.width) <= src_len
    &&& (r.y + r.height) * pitch <= i32::MAX
    &&& r.height * (4 * r.width) <= i32::MAX
}

fn copy_shift(dest: &mut [u8], src: &[u8], dst: usize, from: usize, len: usize)
    requires
        dst + len <= old(dest)@.len(),
        from + len <= src@.len(),
    ensures
        final(dest)@ == copy_shifted(old(dest)@, src@, dst as int, from as int, len as int),
{
    let n = dest.len();
    let m = src.len();
    let mut i: usize = 0;
    while i < len
        invariant
            n == dest@.len(),
            m == src@.len(),
            dst + len <= dest@.len(),
            from + len <= src@.len(),
            dest@.len() == old(dest)@.len(),
            i <= len,
            dest@ == copy_shifted(old(dest)@, src@, dst as int, from as int, i as int),
        decreases len - i,
    {
        dest[dst + i] = src[from + i];
        i = i + 1;
        proof {
            assert(dest@ =~= copy_shifted(old(dest)@, src@, dst as int, from as int, i as int));
        }
    }
}

proof fn lemma_popup_row(pitch: int, y: int, row: int, h: int, x: int, w: int)
    requires
        pitch >= 0,
        0 <= row < h,
        x >= 0,
        w >= 0,
        y >= 0,
        4 * x + 4 * w <= pitch,
    ensures
        (row + y) * pitch + 4 * x + 4 * w <= (y + h) * pitch,
        0 <= (row + y) * pitch,
        row * (4 * w) + 4 * w <= h * (4 * w),
        0 <= row * (4 * w),
{
    assert((row + y) * pitch + pitch <= (y + h) * pitch) by (nonlinear_arith)
        requires
            pitch >= 0,
            row + y + 1 <= y + h,
    ;
    assert(0 <= (row + y) * pitch) by (nonlinear_arith)
        requires
            pitch >= 0,
            row + y >= 0,
    ;
    assert(row * (4 * w) + 4 * w <= h * (4 * w)) by (nonlinear_arith)
        requires
            w >= 0,
            row + 1 <= h,
    ;
    assert(0 <= row * (4 * w)) by (nonlinear_arith)
        requires
            w >= 0,
            row >= 0,
    ;
}

/// Copies a popup's pixels into the texture at the popup's position.
pub fn update_popup(dest: &mut [u8], pitch: usize, bytes: &[u8], popup_rect: Rect)
    requires
        popup_fits(popup_rect, pitch as int, old(dest)@.len() as int, bytes@.len() as int),
    ensures
        final(dest)@ == popup_rows(old(dest)@, bytes@, pitch as int, popup_rect, popup_rect.height as int),
{
    let r = popup_rect;
    let popup_pitch = (r.width as usize) * 4;
    let h = r.height as usize;
    let mut row: usize = 0;
    while row < h
        invariant
            popup_fits(r, pitch as int, dest@.len() as int, bytes@.len() as int),
            h == r.height,
            popup_pitch == 4 * r.width,
            row <= h,
            dest@.len() == old(dest)@.len(),
            dest@ == popup_rows(old(dest)@, bytes@, pitch as int, r, row as int),
        decreases h - row,
    {
        proof {
            lemma_popup_row(pitch as int, r.y as int, row as int, r.height as int, r.x as int, r.width as int);
        }
        let source_index = row * popup_pitch;
        let dest_index = (row + r.y as usize) * pitch + (r.x as usize) * 4;
        copy_shift(dest, bytes, dest_index, source_index, popup_pitch);
        row = row + 1;
    }
}

/// Blanks the texture.
pub fn clear(dest: &mut [u8])
    ensures
        final(dest)@.len() == old(dest)@.len(),
        forall|i: int| 0 <= i < final(dest)@.len() ==> final(dest)@[i] == 0,
{
    let n = dest.len();
    let mut i: usize = 0;
    while i < n
        invariant
            n == dest@.len(),
            i <= n,
            forall|j: int| 0 <= j < i ==> dest@[j] == 0,
        decreases n - i,
    {
        dest[i] = 0;
        i = i + 1;
    }
}

/// What holds the texture: a sprite drawn over the screen, or a texture put
/// on an object's material.
#[derive(Debug, Clone, Copy, PartialEq, Eq, Structural)]
pub enum ContainerKind {
    Display,
    Material,
}

/// The state of a browser's texture: what holds it, its size, and whether it
/// may be recreated.
#[derive(Debug, Clone, Copy, PartialEq, Eq, Structural)]
pub struct BrowserView {
    pub container: Option<ContainerKind>,
    pub width: usize,
    pub height: usize,
    pub active: bool,
}

pub open spec fn at_least_one(n: usize) -> usize {
    if n == 0 {
        1
    } else {
        n
    }
}

impl BrowserView {
    /// No texture yet; size zero; active.
    pub fn new() -> (v: BrowserView)
        ensures
            v == (BrowserView { container: None, width: 0, height: 0, active: true }),
    {
        BrowserView { container: None, width: 0, height: 0, active: true }
    }

    /// Holds a new screen texture of the given size (at least one pixel each way).
    pub fn make_display(&mut self, width: usize, height: usize)
        ensures
            *final(self) == (BrowserView {
                container: Some(ContainerKind::Display),
                width: at_least_one(width),
                height: at_least_one(height),
                active: old(self).active,
            }),
    {
        let w = if width == 0 { 1 } else { width };
        let h = if height == 0 { 1 } else { height };
        self.container = Some(ContainerKind::Display);
        self.width = w;
        self.height = h;
    }

    /// Drops the texture and keeps it from being recreated by a resize.
    pub fn make_inactive(&mut self)
        ensures
            *final(self) == (BrowserView { container: None, width: 1, height: 1, active: false }),
    {
        self.container = None;
        self.width = 1;
        self.height = 1;
        self.active = false;
    }

    /// Lets the texture be recreated again.
    pub fn make_active(&mut self)
        ensures
            *final(self) == (BrowserView { active: true, ..*old(self) }),
    {
        self.active = true;
    }

    /// Drops the texture (the device was lost).
    pub fn on_lost_device(&mut self)
        ensures
            *final(self) == (BrowserView { container: None, ..*old(self) }),
    {
        self.container = None;
    }

    /// Resizes the texture: an inactive view, or one with a texture of that
    /// size already, is left alone; otherwise a texture of the new size (at
    /// least one pixel each way) is to be made, for an object's material or
    /// for the screen. Gives back the kind of texture to make, if any.
    pub fn resize(&mut self, is_object: bool, width: usize, height: usize) -> (made: Option<ContainerKind>)
        ensures
            (!old(self).active || (old(self).width == width && old(self).height == height
                && old(self).container is Some)) ==> made is None && *final(self) == *old(self),
            !(!old(self).active || (old(self).width == width && old(self).height == height
                && old(self).container is Some)) ==> ({
                let kind = if is_object { ContainerKind::Material } else { ContainerKind::Display };
                &&& made == Some(kind)
                &&& *final(self) == (BrowserView {
                    container: Some(kind),
                    width: at_least_one(width),
                    height: at_least_one(height),
                    active: true,
                })
            }),
    {
        if !self.active {
            return None;
        }
        let should_replace = self.active && self.container.is_none();
        if self.width == width && self.height == height && !should_replace {
            return None;
        }
        let w = if width == 0 { 1 } else { width };
        let h = if height == 0 { 1 } else { height };
        self.width = w;
        self.height = h;
        let kind = if is_object { ContainerKind::Material } else { ContainerKind::Display };
        self.container = Some(kind);
        Some(kind)
    }

    /// The rectangle the browser renders: the view's size, at least one pixel
    /// each way.
    pub fn rect(&self) -> (r: Rect)
        ensures
            r.x == 0 && r.y == 0,
            r.width == (if self.width == 0 { 1i32 } else { self.width as i32 }),
            r.height == (if self.height == 0 { 1i32 } else { self.height as i32 }),
    {
        let width = if self.width == 0 { 1 } else { self.width as i32 };
        let height = if self.height == 0 { 1 } else { self.height as i32 };
        Rect { width, height, x: 0, y: 0 }
    }
}

} // verus!
