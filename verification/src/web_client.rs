//! A browser's side of painting: what the browser process hands over for the
//! next frame, and how the game thread copies it into the browser's texture.
use vstd::prelude::*;
use crate::values::PaintElement;
use crate::view::{Rect, rects_copied, rect_fits, update_texture, popup_rows, popup_fits, update_popup};

verus! {

/// What the browser painted last, waiting to be copied into the texture.
pub struct DrawData {
    /// A frame buffer was handed over.
    pub has_buffer: bool,
    pub width: usize,
    pub height: usize,
    /// The dirty rectangles of the frame.
    pub rects: Vec<Rect>,
    /// The pixels of the popup (a drop-down list), four bytes each.
    pub popup_buffer: Vec<u8>,
    pub popup_rect: Rect,
    pub popup_show: bool,
    /// A popup was hidden since the last frame: its place must be redrawn.
    pub popup_was_before: bool,
    /// A new frame waits to be copied.
    pub changed: bool,
}

pub open spec fn empty_rect() -> Rect {
    Rect { x: 0, y: 0, width: 0, height: 0 }
}

impl DrawData {
    /// Nothing painted yet.
    pub fn new() -> (d: DrawData)
        ensures
            !d.has_buffer && d.width == 0 && d.height == 0,
            d.rects@.len() == 0,
            d.popup_buffer@.len() == 0,
            d.popup_rect == empty_rect(),
            !d.popup_show && !d.popup_was_before && !d.changed,
    {
        DrawData {
            has_buffer: false,
            width: 0,
            height: 0,
            rects: Vec::new(),
            popup_buffer: Vec::new(),
            popup_rect: Rect { x: 0, y: 0, width: 0, height: 0 },
            popup_show: false,
            popup_was_before: false,
            changed: false,
        }
    }

    /// The popup is shown or hidden; hiding it drops its pixels and marks its
    /// place to be redrawn with the next frame.
    pub fn on_popup_show(&mut self, show: bool)
        ensures
            final(self).popup_show == show,
            !show ==> final(self).popup_buffer@.len() == 0 && final(self).popup_was_before,
            show ==> final(self).popup_buffer@ == old(self).popup_buffer@
                && final(self).popup_was_before == old(self).popup_was_before,
            final(self).has_buffer == old(self).has_buffer,
            final(self).width == old(self).width,
            final(self).height == old(self).height,
            final(self).rects@ == old(self).rects@,
            final(self).popup_rect == old(self).popup_rect,
            final(self).changed == old(self).changed,
    {
        self.popup_show = show;
        if !show {
            self.popup_buffer.clear();
            self.popup_was_before = true;
        }
    }

    /// The popup takes the place `rect`; its pixel buffer gets the matching
    /// size, keeping the pixels it had and filling with zeros.
    pub fn on_popup_size(&mut self, rect: Rect)
        requires
            rect.width >= 0,
            rect.height >= 0,
            rect.width * rect.height * 4 <= usize::MAX,
        ensures
            final(self).popup_rect == rect,
            final(self).popup_buffer@.len() == rect.width * rect.height * 4,
            forall|i: int| 0 <= i < final(self).popup_buffer@.len() ==>
                final(self).popup_buffer@[i] == (if i < old(self).popup_buffer@.len() {
                    old(self).popup_buffer@[i]
                } else {
                    0u8
                }),
            final(self).has_buffer == old(self).has_buffer,
            final(self).width == old(self).width,
            final(self).height == old(self).height,
            final(self).rects@ == old(self).rects@,
            final(self).popup_show == old(self).popup_show,
            final(self).popup_was_before == old(self).popup_was_before,
            final(self).changed == old(self).changed,
    {
        self.popup_rect = rect;
        let w = rect.width as usize;
        let h = rect.height as usize;
        assert(w * h <= usize::MAX) by (nonlinear_arith)
            requires
                w * h * 4 <= usize::MAX,
                w * h >= 0,
        ;
        let size = w * h * 4;
        let mut buf: Vec<u8> = Vec::new();
        std::mem::swap(&mut buf, &mut self.popup_buffer);
        let ghost before = buf@;
        if size <= buf.len() {
            buf.truncate(size);
        } else {
            while buf.len() < size
                invariant
                    buf@.len() <= size,
                    before.len() <= buf@.len(),
                    forall|i: int| 0 <= i < buf@.len() ==>
                        buf@[i] == (if i < before.len() { before[i] } else { 0u8 }),
                decreases size - buf@.len(),
            {
                buf.push(0);
            }
        }
        self.popup_buffer = buf;
    }

    /// A frame was painted. Nothing is taken while the browser closes. A
    /// popup's pixels are taken when their size matches. A view's frame is
    /// taken whole, with the place of a popup hidden since the last frame
    /// added to its dirty rectangles; the painting thread then waits for the
    /// game to draw it, which the result says.
    pub fn on_paint(
        &mut self,
        closing: bool,
        element: PaintElement,
        rects: Vec<Rect>,
        buffer: &[u8],
        width: usize,
        height: usize,
    ) -> (wait: bool)
        ensures
            closing ==> !wait && *final(self) == *old(self),
            !closing && element == PaintElement::Popup ==> {
                &&& !wait
                &&& old(self).popup_buffer@.len() == buffer@.len() ==> final(self).popup_buffer@ == buffer@
                &&& old(self).popup_buffer@.len() != buffer@.len() ==> final(self).popup_buffer@
                    == old(self).popup_buffer@
                &&& final(self).has_buffer == old(self).has_buffer
                &&& final(self).width == old(self).width
                &&& final(self).height == old(self).height
                &&& final(self).rects@ == old(self).rects@
                &&& final(self).popup_rect == old(self).popup_rect
                &&& final(self).popup_show == old(self).popup_show
                &&& final(self).popup_was_before == old(self).popup_was_before
                &&& final(self).changed == old(self).changed
            },
            !closing && element == PaintElement::View ==> {
                let redraw_popup = old(self).popup_was_before && !old(self).popup_show;
                &&& wait
                &&& final(self).rects@ == (if redraw_popup {
                    rects@.push(old(self).popup_rect)
                } else {
                    rects@
                })
                &&& final(self).popup_was_before == (old(self).popup_was_before && !redraw_popup)
                &&& final(self).has_buffer
                &&& final(self).width == width
                &&& final(self).height == height
                &&& final(self).changed
                &&& final(self).popup_buffer@ == old(self).popup_buffer@
                &&& final(self).popup_rect == old(self).popup_rect
                &&& final(self).popup_show == old(self).popup_show
            },
    {
        if closing {
            return false;
        }
        match element {
            PaintElement::Popup => {
                if self.popup_buffer.len() == buffer.len() {
                    let mut buf: Vec<u8> = Vec::new();
                    std::mem::swap(&mut buf, &mut self.popup_buffer);
                    let n = buffer.len();
                    let mut i: usize = 0;
                    while i < n
                        invariant
                            n == buffer@.len(),
                            buf@.len() == n,
                            i <= n,
                            forall|j: int| 0 <= j < i ==> buf@[j] == buffer@[j],
                        decreases n - i,
                    {
                        buf.set(i, buffer[i]);
                        i = i + 1;
                    }
                    proof {
                        assert(buf@ =~= buffer@);
                    }
                    self.popup_buffer = buf;
                }
                false
            },
            PaintElement::View => {
                let mut rects = rects;
                if self.popup_was_before && !self.popup_show {
                    self.popup_was_before = false;
                    rects.push(self.popup_rect);
                }
                self.rects = rects;
                self.has_buffer = true;
                self.height = height;
                self.width = width;
                self.changed = true;
                true
            },
        }
    }
}

impl DrawData {
    /// The game thread drew the frame the painter waited on: no frame waits
    /// any more, until the next paint.
    pub fn frame_drawn(&mut self)
        ensures
            final(self).changed == false,
            final(self).has_buffer == old(self).has_buffer,
            final(self).width == old(self).width,
            final(self).height == old(self).height,
            final(self).rects@ == old(self).rects@,
            final(self).popup_buffer@ == old(self).popup_buffer@,
            final(self).popup_rect == old(self).popup_rect,
            final(self).popup_show == old(self).popup_show,
            final(self).popup_was_before == old(self).popup_was_before,
    {
        self.changed = false;
    }
}

/// Every dirty rectangle lies within the frame and the texture.
pub open spec fn all_fit(rects: Seq<Rect>, pitch: int, frame_len: int, dest_len: int) -> bool {
    forall|k: int| 0 <= k < rects.len() ==> rect_fits(rects[k], pitch, dest_len) && rect_fits(
        rects[k],
        pitch,
        frame_len,
    )
}

/// Whether a frame is to be copied: `None` when the update stops there,
/// `Some(copy)` when it goes on to the popup. A waiting frame is copied when
/// there is a buffer, of the texture's size, not empty, whose first dirty
/// rectangle is no larger than the texture, and whose rectangles all lie
/// within the frame and the texture.
pub open spec fn frame_step(d: DrawData, size: Rect, pitch: int, frame_len: int, dest_len: int) -> Option<bool> {
    if !d.changed {
        Some(false)
    } else if !d.has_buffer || d.height == 0 || d.width == 0 {
        None
    } else if size.height as usize != d.height || size.width as usize != d.width {
        None
    } else if d.rects@.len() > 0 && (d.rects@[0].width > size.width || d.rects@[0].height
        > size.height) {
        None
    } else if !all_fit(d.rects@, pitch, frame_len, dest_len) {
        None
    } else {
        Some(true)
    }
}

/// The popup is drawn when shown, ending short of the texture's right and
/// bottom edges, and lying within the texture and its own buffer.
pub open spec fn popup_step(d: DrawData, size: Rect, pitch: int, dest_len: int) -> bool {
    &&& d.popup_show
    &&& d.popup_rect.x + d.popup_rect.width < size.width
    &&& d.popup_rect.y + d.popup_rect.height < size.height
    &&& popup_fits(d.popup_rect, pitch, dest_len, d.popup_buffer@.len() as int)
}

/// What an update of the texture drew.
#[derive(Debug, Clone, Copy, PartialEq, Eq, Structural)]
pub struct ViewUpdate {
    pub frame: bool,
    pub popup: bool,
}

/// The texture after an update that drew what `u` says.
pub open spec fn updated_texture(d: DrawData, u: ViewUpdate, frame: Seq<u8>, dest: Seq<u8>, pitch: int) -> Seq<u8> {
    let after_frame = if u.frame {
        rects_copied(dest, frame, pitch, d.rects@)
    } else {
        dest
    };
    if u.popup {
        popup_rows(after_frame, d.popup_buffer@, pitch, d.popup_rect, d.popup_rect.height as int)
    } else {
        after_frame
    }
}

/// What an update draws for a browser that is `hidden` or `closing`, whose
/// texture has the size `size`, with rows `pitch` bytes apart.
pub open spec fn view_update_spec(
    d: DrawData,
    hidden: bool,
    closing: bool,
    size: Rect,
    pitch: int,
    frame_len: int,
    dest_len: int,
) -> ViewUpdate {
    if hidden || closing {
        ViewUpdate { frame: false, popup: false }
    } else {
        match frame_step(d, size, pitch, frame_len, dest_len) {
            None => ViewUpdate { frame: false, popup: false },
            Some(f) => ViewUpdate { frame: f, popup: popup_step(d, size, pitch, dest_len) },
        }
    }
}

/// A frame is drawn once: after `frame_drawn`, an update copies no frame
/// until the next paint.
pub proof fn law_frame_drawn_once(
    d: DrawData,
    hidden: bool,
    closing: bool,
    size: Rect,
    pitch: int,
    frame_len: int,
    dest_len: int,
)
    requires
        !d.changed,
    ensures
        !view_update_spec(d, hidden, closing, size, pitch, frame_len, dest_len).frame,
{
}

fn rects_fit(rects: &Vec<Rect>, pitch: usize, frame_len: usize, dest_len: usize) -> (b: bool)
    ensures
        b == all_fit(rects@, pitch as int, frame_len as int, dest_len as int),
{
    let mut k: usize = 0;
    while k < rects.len()
        invariant
            k <= rects@.len(),
            forall|j: int| 0 <= j < k ==> rect_fits(rects@[j], pitch as int, dest_len as int)
                && rect_fits(rects@[j], pitch as int, frame_len as int),
        decreases rects@.len() - k,
    {
        let r = rects[k];
        if r.x < 0 || r.y < 0 || r.width < 0 || r.height < 0 {
            return false;
        }
        if r.height > 0 {
            let p = pitch as u128;
            let rows = (r.y as u128) + (r.height as u128) - 1;
            assert(p * rows <= 0x1_0000_0000_0000_0000 * 0x1_0000_0000) by (nonlinear_arith)
                requires
                    p <= 0x1_0000_0000_0000_0000,
                    rows <= 0x1_0000_0000,
            ;
            let end = p * rows + 4 * (r.x as u128) + 4 * (r.width as u128);
            assert(p * rows == pitch * (r.y + r.height - 1));
            if end > dest_len as u128 || end > frame_len as u128 {
                return false;
            }
        }
        k = k + 1;
    }
    true
}

/// Copies what the browser painted into its texture `dest` (rows `pitch`
/// bytes apart), on the game thread: the dirty rectangles of a waiting frame
/// `frame`, then the popup. Nothing is drawn for a hidden or closing browser.
pub fn update_view(
    d: &DrawData,
    hidden: bool,
    closing: bool,
    size: Rect,
    frame: &[u8],
    dest: &mut [u8],
    pitch: usize,
) -> (u: ViewUpdate)
    ensures
        u == view_update_spec(*d, hidden, closing, size, pitch as int, frame@.len() as int, old(dest)@.len() as int),
        final(dest)@ == updated_texture(*d, u, frame@, old(dest)@, pitch as int),
{
    let none = ViewUpdate { frame: false, popup: false };
    if hidden || closing {
        return none;
    }
    let dest_len = dest.len();
    let mut drew_frame = false;
    if d.changed {
        if !d.has_buffer {
            return none;
        }
        if d.height == 0 || d.width == 0 {
            return none;
        }
        if size.height as usize != d.height || size.width as usize != d.width {
            return none;
        }
        if d.rects.len() > 0 {
            let first = d.rects[0];
            if first.width > size.width || first.height > size.height {
                return none;
            }
        }
        if !rects_fit(&d.rects, pitch, frame.len(), dest_len) {
            return none;
        }
        update_texture(dest, pitch, frame, d.rects.as_slice());
        drew_frame = true;
    }
    let mut drew_popup = false;
    if d.popup_show {
        let r = d.popup_rect;
        let ends_inside = (r.x as i64) + (r.width as i64) < (size.width as i64)
            && (r.y as i64) + (r.height as i64) < (size.height as i64);
        if ends_inside && popup_fits_check(r, pitch, dest_len, d.popup_buffer.len()) {
            update_popup(dest, pitch, d.popup_buffer.as_slice(), r);
            drew_popup = true;
        }
    }
    ViewUpdate { frame: drew_frame, popup: drew_popup }
}

fn popup_fits_check(r: Rect, pitch: usize, dest_len: usize, src_len: usize) -> (b: bool)
    ensures
        b == popup_fits(r, pitch as int, dest_len as int, src_len as int),
{
    if r.x < 0 || r.y < 0 || r.width < 0 || r.height < 0 {
        return false;
    }
    let x = r.x as u128;
    let y = r.y as u128;
    let w = r.width as u128;
    let h = r.height as u128;
    let p = pitch as u128;
    if 4 * x + 4 * w > p {
        return false;
    }
    assert((y + h) * p <= 0x1_0000_0000 * 0x1_0000_0000_0000_0000) by (nonlinear_arith)
        requires
            y + h <= 0x1_0000_0000,
            p <= 0x1_0000_0000_0000_0000,
    ;
    assert(h * (4 * w) <= 0x8000_0000 * 0x2_0000_0000) by (nonlinear_arith)
        requires
            h <= 0x8000_0000,
            4 * w <= 0x2_0000_0000,
    ;
    let bottom = (y + h) * p;
    let size = h * (4 * w);
    bottom <= dest_len as u128 && size <= src_len as u128 && bottom <= i32::MAX as u128 && size
        <= i32::MAX as u128
}

/// What the browser's host and its sound are told when the browser is hidden
/// or shown.
#[derive(Debug, Clone, Copy, PartialEq, Eq, Structural)]
pub struct HideActions {
    /// Tell the host the browser was hidden (or shown).
    pub host_hidden: Option<bool>,
    /// Blank the texture.
    pub clear_view: bool,
    /// Ask for the whole view to be painted again.
    pub invalidate: bool,
    /// Mute (or unmute) the browser's sound.
    pub mute: Option<bool>,
}

/// Hiding a browser tells its host and blanks its texture; showing it tells
/// its host and has it painted again. All of that needs a browser. A browser
/// on the screen (not one drawn on objects) is muted while hidden.
pub open spec fn hide_actions(is_extern: bool, has_browser: bool, to_hide: bool) -> HideActions {
    HideActions {
        host_hidden: if has_browser { Some(to_hide) } else { None },
        clear_view: has_browser && to_hide,
        invalidate: has_browser && !to_hide,
        mute: if !is_extern && has_browser { Some(to_hide) } else { None },
    }
}

/// The objects of `v`, as a set.
pub open spec fn object_set(v: Seq<i32>) -> Set<i32> {
    v.to_set()
}

/// The state of a browser client: its id, whether it is drawn on objects,
/// whether it is to be hidden, whether it closes, and the objects it is
/// drawn on.
pub struct ClientState {
    pub id: u32,
    pub is_extern: bool,
    pub hidden: bool,
    pub closing: bool,
    /// No object occurs twice.
    pub objects: Vec<i32>,
}

impl ClientState {
    /// Each object occurs once.
    pub open spec fn wf(&self) -> bool {
        self.objects@.no_duplicates()
    }

    /// A browser on the screen.
    pub fn new(id: u32) -> (c: ClientState)
        ensures
            c.wf(),
            c.id == id && !c.is_extern && !c.hidden && !c.closing,
            c.objects@.len() == 0,
    {
        ClientState { id, is_extern: false, hidden: false, closing: false, objects: Vec::new() }
    }

    /// A browser drawn on objects.
    pub fn new_extern(id: u32) -> (c: ClientState)
        ensures
            c.wf(),
            c.id == id && c.is_extern && !c.hidden && !c.closing,
            c.objects@.len() == 0,
    {
        ClientState { id, is_extern: true, hidden: false, closing: false, objects: Vec::new() }
    }

    /// Hides or shows the browser; the wish is kept when `store_value` says
    /// so. `has_browser` says whether CEF created the browser yet.
    pub fn internal_hide(&mut self, to_hide: bool, store_value: bool, has_browser: bool) -> (a: HideActions)
        ensures
            a == hide_actions(old(self).is_extern, has_browser, to_hide),
            final(self).hidden == kept_after(old(self).hidden, to_hide, store_value),
            final(self).id == old(self).id,
            final(self).is_extern == old(self).is_extern,
            final(self).closing == old(self).closing,
            final(self).objects@ == old(self).objects@,
    {
        if store_value {
            self.hidden = to_hide;
        }
        HideActions {
            host_hidden: if has_browser { Some(to_hide) } else { None },
            clear_view: has_browser && to_hide,
            invalidate: has_browser && !to_hide,
            mute: if !self.is_extern && has_browser { Some(to_hide) } else { None },
        }
    }

    /// Hides or shows the browser, keeping the wish.
    pub fn set_hidden(&mut self, to_hide: bool, has_browser: bool) -> (a: HideActions)
        ensures
            a == hide_actions(old(self).is_extern, has_browser, to_hide),
            final(self).hidden == to_hide,
            final(self).id == old(self).id,
            final(self).is_extern == old(self).is_extern,
            final(self).closing == old(self).closing,
            final(self).objects@ == old(self).objects@,
    {
        self.internal_hide(to_hide, true, has_browser)
    }

    /// Applies the kept wish again.
    pub fn restore_hide_status(&mut self, has_browser: bool) -> (a: HideActions)
        ensures
            a == hide_actions(old(self).is_extern, has_browser, old(self).hidden),
            final(self).hidden == old(self).hidden,
            final(self).id == old(self).id,
            final(self).is_extern == old(self).is_extern,
            final(self).closing == old(self).closing,
            final(self).objects@ == old(self).objects@,
    {
        let hidden = self.hidden;
        self.internal_hide(hidden, false, has_browser)
    }

    /// The device was lost: the browser is hidden for now, without changing
    /// the kept wish (its texture is dropped as well).
    pub fn on_lost_device(&mut self, has_browser: bool) -> (a: HideActions)
        ensures
            a == hide_actions(old(self).is_extern, has_browser, true),
            final(self).hidden == old(self).hidden,
            final(self).id == old(self).id,
            final(self).is_extern == old(self).is_extern,
            final(self).closing == old(self).closing,
            final(self).objects@ == old(self).objects@,
    {
        self.internal_hide(true, false, has_browser)
    }

    /// The device was reset: a browser on the screen gets a new texture of
    /// the window's size (which the first result says), and the kept wish is
    /// applied again.
    pub fn on_reset_device(&mut self, has_browser: bool) -> (r: (bool, HideActions))
        ensures
            r.0 == !old(self).is_extern,
            r.1 == hide_actions(old(self).is_extern, has_browser, old(self).hidden),
            final(self).hidden == old(self).hidden,
            final(self).id == old(self).id,
            final(self).is_extern == old(self).is_extern,
            final(self).closing == old(self).closing,
            final(self).objects@ == old(self).objects@,
    {
        let remake = !self.is_extern;
        let a = self.restore_hide_status(has_browser);
        (remake, a)
    }

    /// CEF created the browser: the kept wish is applied, and a browser drawn
    /// on objects starts muted, which the second result says.
    pub fn on_after_created(&mut self) -> (r: (HideActions, bool))
        ensures
            r.0 == hide_actions(old(self).is_extern, true, old(self).hidden),
            r.1 == old(self).is_extern,
            final(self).hidden == old(self).hidden,
            final(self).id == old(self).id,
            final(self).is_extern == old(self).is_extern,
            final(self).closing == old(self).closing,
            final(self).objects@ == old(self).objects@,
    {
        let hidden = self.hidden;
        let a = self.set_hidden(hidden, true);
        (a, self.is_extern)
    }

    /// Only a browser drawn on objects hands its sound to the client.
    pub fn audio_handler(&self) -> (b: bool)
        ensures
            b == self.is_extern,
    {
        self.is_extern
    }

    /// The browser starts closing: no frame is taken or drawn any more.
    pub fn close(&mut self)
        ensures
            final(self).closing,
            final(self).id == old(self).id,
            final(self).is_extern == old(self).is_extern,
            final(self).hidden == old(self).hidden,
            final(self).objects@ == old(self).objects@,
    {
        self.closing = true;
    }

    /// The browser is drawn on one more object.
    pub fn add_object(&mut self, object_id: i32)
        requires
            old(self).wf(),
        ensures
            final(self).wf(),
            object_set(final(self).objects@) == object_set(old(self).objects@).insert(object_id),
            final(self).id == old(self).id,
            final(self).is_extern == old(self).is_extern,
            final(self).hidden == old(self).hidden,
            final(self).closing == old(self).closing,
    {
        let ghost before = self.objects@;
        if position_of(&self.objects, object_id).is_some() {
            proof {
                assert(object_set(before).insert(object_id) =~= object_set(before));
            }
            return;
        }
        self.objects.push(object_id);
        proof {
            assert(self.objects@ == before.push(object_id));
            assert forall|a: int, b: int| 0 <= a < b < self.objects@.len() implies self.objects@[a]
                != self.objects@[b] by {
                if b == before.len() {
                    assert(before[a] == self.objects@[a]);
                }
            }
            assert(object_set(self.objects@) =~= object_set(before).insert(object_id)) by {
                assert forall|x: i32| object_set(self.objects@).contains(x) <==> object_set(before).insert(object_id).contains(x) by {
                    if object_set(self.objects@).contains(x) {
                        let k = choose|k: int| 0 <= k < self.objects@.len() && self.objects@[k] == x;
                        if k < before.len() {
                            assert(before.contains(x));
                        }
                    }
                    if before.contains(x) {
                        let k = choose|k: int| 0 <= k < before.len() && before[k] == x;
                        assert(self.objects@[k] == x);
                    }
                    if x == object_id {
                        assert(self.objects@[before.len() as int] == x);
                    }
                }
            }
        }
    }

    /// The browser is no longer drawn on the object.
    pub fn remove_object(&mut self, object_id: i32)
        requires
            old(self).wf(),
        ensures
            final(self).wf(),
            object_set(final(self).objects@) == object_set(old(self).objects@).remove(object_id),
            final(self).id == old(self).id,
            final(self).is_extern == old(self).is_extern,
            final(self).hidden == old(self).hidden,
            final(self).closing == old(self).closing,
    {
        let ghost before = self.objects@;
        match position_of(&self.objects, object_id) {
            Some(i) => {
                self.objects.remove(i);
                proof {
                    let after = self.objects@;
                    assert(after =~= before.remove(i as int));
                    assert forall|a: int, b: int| 0 <= a < b < after.len() implies after[a] != after[b] by {
                        let a2 = if a < i { a } else { a + 1 };
                        let b2 = if b < i { b } else { b + 1 };
                        assert(after[a] == before[a2]);
                        assert(after[b] == before[b2]);
                    }
                    assert forall|x: i32| object_set(after).contains(x) <==> object_set(before).remove(object_id).contains(x) by {
                        if after.contains(x) {
                            let k = choose|k: int| 0 <= k < after.len() && after[k] == x;
                            let k2 = if k < i { k } else { k + 1 };
                            assert(before[k2] == x);
                            assert(k2 != i);
                            assert(before.contains(x));
                        }
                        if before.contains(x) && x != object_id {
                            let k = choose|k: int| 0 <= k < before.len() && before[k] == x;
                            assert(k != i);
                            if k < i {
                                assert(after[k] == x);
                            } else {
                                assert(after[k - 1] == x);
                            }
                        }
                    }
                    assert(object_set(after) =~= object_set(before).remove(object_id));
                }
            },
            None => {
                proof {
                    assert(object_set(before).remove(object_id) =~= object_set(before)) by {
                        assert forall|x: i32| object_set(before).contains(x) implies x != object_id by {
                            let k = choose|k: int| 0 <= k < before.len() && before[k] == x;
                        }
                    }
                }
            },
        }
    }
}

fn position_of(v: &Vec<i32>, x: i32) -> (r: Option<usize>)
    ensures
        match r {
            Some(i) => i < v@.len() && v@[i as int] == x,
            None => forall|j: int| 0 <= j < v@.len() ==> v@[j] != x,
        },
{
    let mut i: usize = 0;
    while i < v.len()
        invariant
            i <= v@.len(),
            forall|j: int| 0 <= j < i ==> v@[j] != x,
        decreases v@.len() - i,
    {
        if v[i] == x {
            return Some(i);
        }
        i = i + 1;
    }
    None
}

/// The wish kept after a browser was hidden or shown.
pub open spec fn kept_after(kept: bool, to_hide: bool, store_value: bool) -> bool {
    if store_value {
        to_hide
    } else {
        kept
    }
}

/// Losing the device hides a browser for the time being without changing
/// what was asked of it: restoring afterwards does what a fresh request for
/// the kept wish would.
pub proof fn law_restore_after_lost_device(is_extern: bool, has_browser: bool, kept: bool)
    ensures
        kept_after(kept, true, false) == kept,
        hide_actions(is_extern, has_browser, kept_after(kept, true, false)) == hide_actions(
            is_extern,
            has_browser,
            kept,
        ),
        has_browser ==> hide_actions(is_extern, has_browser, true).clear_view,
{
}

} // verus!
