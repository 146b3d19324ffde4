//! Bookkeeping of the browsers in the game: which exist, which has the input
//! focus and who waits for it, the mouse, the size of the view, and the
//! callbacks waiting for a browser to be ready. The browsers themselves stay
//! with the caller, keyed by the same ids.
use vstd::prelude::*;
use std::collections::VecDeque;

verus! {

/// A mouse button.
#[derive(Debug, Clone, Copy, PartialEq, Eq, Structural)]
pub enum MouseKey {
    Left,
    Middle,
    Right,
}

/// CEF's modifier flags for held mouse buttons.
pub const EVENTFLAG_LEFT_MOUSE_BUTTON: u32 = 16;
pub const EVENTFLAG_MIDDLE_MOUSE_BUTTON: u32 = 32;
pub const EVENTFLAG_RIGHT_MOUSE_BUTTON: u32 = 64;

/// Where the mouse is and which buttons are held.
#[derive(Clone, Copy)]
pub struct Mouse {
    pub x: i32,
    pub y: i32,
    pub left: bool,
    pub middle: bool,
    pub right: bool,
}

/// The modifier flags for the held buttons.
pub open spec fn button_flags(m: Mouse) -> int {
    (if m.left { EVENTFLAG_LEFT_MOUSE_BUTTON } else { 0u32 }) + (if m.middle {
        EVENTFLAG_MIDDLE_MOUSE_BUTTON
    } else {
        0u32
    }) + (if m.right { EVENTFLAG_RIGHT_MOUSE_BUTTON } else { 0u32 })
}

/// CEF's code for a mouse button (`cef_mouse_button_type_t`).
pub open spec fn button_code(b: MouseKey) -> i32 {
    match b {
        MouseKey::Left => 0,
        MouseKey::Middle => 1,
        MouseKey::Right => 2,
    }
}

/// The browsers of the game and who gets the input; `C` is a callback.
pub struct Manager<C> {
    pub clients: Vec<u32>,
    pub ready_callbacks: Vec<(u32, Vec<C>)>,
    pub focused: Option<u32>,
    pub focused_queue: VecDeque<u32>,
    pub input_corrupted: bool,
    pub do_not_draw: bool,
    pub mouse: Mouse,
    pub view_width: usize,
    pub view_height: usize,
}

/// The callbacks registered for `id`.
pub open spec fn callbacks_for<C>(entries: Seq<(u32, Vec<C>)>, id: u32) -> Seq<C>
    decreases entries.len(),
{
    if entries.len() == 0 {
        seq![]
    } else if entries.last().0 == id {
        entries.last().1@
    } else {
        callbacks_for(entries.drop_last(), id)
    }
}

/// The ids of `s` other than `id`, in order.
pub open spec fn without(s: Seq<u32>, id: u32) -> Seq<u32>
    decreases s.len(),
{
    if s.len() == 0 {
        seq![]
    } else {
        let prev = without(s.drop_last(), id);
        if s.last() == id {
            prev
        } else {
            prev.push(s.last())
        }
    }
}

/// The position of the first `id` in `s`, if any.
pub open spec fn first_pos(s: Seq<u32>, id: u32) -> Option<int>
    decreases s.len(),
{
    if s.len() == 0 {
        None
    } else {
        match first_pos(s.drop_last(), id) {
            Some(i) => Some(i),
            None => if s.last() == id {
                Some(s.len() - 1)
            } else {
                None
            },
        }
    }
}

pub proof fn lemma_first_pos(s: Seq<u32>, id: u32)
    ensures
        match first_pos(s, id) {
            Some(k) => 0 <= k < s.len() && s[k] == id && forall|j: int| 0 <= j < k ==> s[j] != id,
            None => forall|j: int| 0 <= j < s.len() ==> s[j] != id,
        },
    decreases s.len(),
{
    if s.len() > 0 {
        lemma_first_pos(s.drop_last(), id);
        assert(forall|j: int| 0 <= j < s.len() - 1 ==> s.drop_last()[j] == s[j]);
    }
}

/// `s` without its first occurrence of `id`.
pub open spec fn remove_first(s: Seq<u32>, id: u32) -> Seq<u32> {
    match first_pos(s, id) {
        Some(k) => s.remove(k),
        None => s,
    }
}

/// How focusing (`focus`) or unfocusing browser `id` changes who has the
/// focus and who waits for it. Only existing browsers are concerned. A browser
/// focused while another has the focus waits in line; unfocusing the browser
/// with the focus hands it to the first in line; unfocusing one in line takes
/// it out of the line.
pub open spec fn focus_step(
    clients: Seq<u32>,
    focused: Option<u32>,
    queue: Seq<u32>,
    id: u32,
    focus: bool,
) -> (Option<u32>, Seq<u32>) {
    if !clients.contains(id) {
        (focused, queue)
    } else if focus {
        match focused {
            Some(cur) => if cur != id {
                (focused, queue.push(id))
            } else {
                (focused, queue)
            },
            None => (Some(id), queue),
        }
    } else {
        if focused == Some(id) {
            if queue.len() > 0 {
                (Some(queue[0]), queue.drop_first())
            } else {
                (None, queue)
            }
        } else {
            (focused, remove_first(queue, id))
        }
    }
}

fn contains_id(v: &Vec<u32>, id: u32) -> (r: Option<usize>)
    ensures
        match r {
            Some(i) => i < v@.len() && v@[i as int] == id && forall|j: int| 0 <= j < i ==> v@[j] != id,
            None => !v@.contains(id),
        },
{
    let mut i: usize = 0;
    while i < v.len()
        invariant
            i <= v@.len(),
            forall|j: int| 0 <= j < i ==> v@[j] != id,
        decreases v@.len() - i,
    {
        if v[i] == id {
            return Some(i);
        }
        i = i + 1;
    }
    None
}

/// The first place of `id` in the queue `q`, if it waits there.
fn queue_position(q: &VecDeque<u32>, id: u32) -> (r: Option<usize>)
    ensures
        match r {
            Some(i) => i < q@.len() && q@[i as int] == id && forall|j: int| 0 <= j < i ==> q@[j] != id,
            None => !q@.contains(id),
        },
{
    let mut i: usize = 0;
    while i < q.len()
        invariant
            i <= q@.len(),
            forall|j: int| 0 <= j < i ==> q@[j] != id,
        decreases q@.len() - i,
    {
        if q[i] == id {
            return Some(i);
        }
        i = i + 1;
    }
    None
}

impl<C: Copy> Manager<C> {
    /// Ids of browsers are unique, and nobody waits for the focus while
    /// nobody has it.
    pub open spec fn wf(&self) -> bool {
        &&& self.clients@.no_duplicates()
        &&& (self.focused is None ==> self.focused_queue@.len() == 0)
    }

    /// No browsers; nothing focused; mouse at the origin with no button held.
    pub fn new() -> (m: Self)
        ensures
            m.wf(),
            m.clients@.len() == 0,
            m.ready_callbacks@.len() == 0,
            m.focused is None,
            m.focused_queue@.len() == 0,
            !m.input_corrupted,
            !m.do_not_draw,
            m.mouse == (Mouse { x: 0, y: 0, left: false, middle: false, right: false }),
            m.view_width == 0 && m.view_height == 0,
    {
        Manager {
            clients: Vec::new(),
            ready_callbacks: Vec::new(),
            focused: None,
            focused_queue: VecDeque::new(),
            input_corrupted: false,
            do_not_draw: false,
            mouse: Mouse { x: 0, y: 0, left: false, middle: false, right: false },
            view_width: 0,
            view_height: 0,
        }
    }

    /// Records a new browser `id`; gives back whether one with that id existed
    /// already (it is then replaced, and the old one must be closed).
    pub fn create_browser(&mut self, id: u32) -> (replaced: bool)
        requires
            old(self).wf(),
        ensures
            final(self).wf(),
            replaced == old(self).clients@.contains(id),
            forall|x: u32| #[trigger] final(self).clients@.contains(x) <==> (old(self).clients@.contains(x)
                || x == id),
            final(self).focused == old(self).focused,
            final(self).focused_queue == old(self).focused_queue,
            final(self).ready_callbacks == old(self).ready_callbacks,
    {
        match contains_id(&self.clients, id) {
            Some(_) => true,
            None => {
                let ghost before = self.clients@;
                self.clients.push(id);
                proof {
                    assert forall|x: u32| #[trigger] self.clients@.contains(x) <==> (before.contains(x) || x == id) by {
                        if before.contains(x) {
                            let k = choose|k: int| 0 <= k < before.len() && before[k] == x;
                            assert(self.clients@[k] == x);
                        }
                        if x == id {
                            assert(self.clients@[before.len() as int] == x);
                        }
                        if self.clients@.contains(x) {
                            let k = choose|k: int| 0 <= k < self.clients@.len() && self.clients@[k] == x;
                            if k < before.len() {
                                assert(before[k] == x);
                            }
                        }
                    }
                    assert forall|i: int, j: int| 0 <= i < j < self.clients@.len() implies self.clients@[i]
                        != self.clients@[j] by {
                        if j == self.clients@.len() - 1 {
                            assert(before[i] == self.clients@[i]);
                        }
                    }
                }
                false
            },
        }
    }

    /// Forgets browser `id`; gives back whether it existed (it must then be
    /// closed). The focus is left as it was.
    pub fn close_browser(&mut self, id: u32) -> (existed: bool)
        requires
            old(self).wf(),
        ensures
            final(self).wf(),
            existed == old(self).clients@.contains(id),
            forall|x: u32| #[trigger] final(self).clients@.contains(x) <==> (old(self).clients@.contains(x)
                && x != id),
            final(self).focused == old(self).focused,
            final(self).focused_queue == old(self).focused_queue,
    {
        match contains_id(&self.clients, id) {
            Some(i) => {
                let ghost before = self.clients@;
                self.clients.remove(i);
                proof {
                    assert(self.clients@ =~= before.remove(i as int));
                    assert forall|x: u32| #[trigger] self.clients@.contains(x) <==> (before.contains(x) && x != id) by {
                        if x != id && before.contains(x) {
                            let k = choose|k: int| 0 <= k < before.len() && before[k] == x;
                            if k < i {
                                assert(self.clients@[k] == x);
                            } else {
                                assert(k != i);
                                assert(self.clients@[k - 1] == x);
                            }
                        }
                        if self.clients@.contains(x) {
                            let k = choose|k: int| 0 <= k < self.clients@.len() && self.clients@[k] == x;
                            if k < i {
                                assert(before[k] == x);
                                assert(k != i as int);
                            } else {
                                assert(before[k + 1] == x);
                            }
                            assert(before[i as int] == id);
                        }
                    }
                    assert forall|a: int, b: int| 0 <= a < b < self.clients@.len() implies self.clients@[a]
                        != self.clients@[b] by {
                        let a2 = if a < i { a } else { a + 1 };
                        let b2 = if b < i { b } else { b + 1 };
                        assert(self.clients@[a] == before[a2]);
                        assert(self.clients@[b] == before[b2]);
                    }
                }
                true
            },
            None => false,
        }
    }

    /// Whether browser `id` exists.
    pub fn browser_exists(&self, id: u32) -> (b: bool)
        ensures
            b == self.clients@.contains(id),
    {
        contains_id(&self.clients, id).is_some()
    }

    /// Focuses or unfocuses browser `id`.
    pub fn browser_focus(&mut self, id: u32, focus: bool)
        requires
            old(self).wf(),
        ensures
            final(self).wf(),
            (final(self).focused, final(self).focused_queue@) == focus_step(
                old(self).clients@,
                old(self).focused,
                old(self).focused_queue@,
                id,
                focus,
            ),
            final(self).clients == old(self).clients,
            final(self).input_corrupted == old(self).input_corrupted,
            final(self).mouse == old(self).mouse,
    {
        if contains_id(&self.clients, id).is_none() {
            return;
        }
        if focus {
            match self.focused {
                Some(cur) => {
                    if cur != id {
                        self.focused_queue.push_back(id);
                    }
                },
                None => {
                    self.focused = Some(id);
                },
            }
        } else {
            if self.focused == Some(id) {
                let ghost q = self.focused_queue@;
                match self.focused_queue.pop_front() {
                    Some(next) => {
                        self.focused = Some(next);
                        proof {
                            assert(self.focused_queue@ =~= q.drop_first());
                        }
                    },
                    None => {
                        self.focused = None;
                    },
                }
            } else {
                let ghost q = self.focused_queue@;
                match queue_position(&self.focused_queue, id) {
                    Some(i) => {
                        self.focused_queue.remove(i);
                        proof {
                            lemma_first_pos(q, id);
                            assert(first_pos(q, id) == Some(i as int));
                            assert(self.focused_queue@ =~= remove_first(q, id));
                        }
                    },
                    None => {
                        proof {
                            lemma_first_pos(q, id);
                            if first_pos(q, id) is Some {
                                assert(q.contains(id));
                            }
                        }
                    },
                }
            }
        }
    }

    /// Input is held by the browsers while one has the focus.
    pub fn is_input_blocked(&self) -> (b: bool)
        ensures
            b == self.focused is Some,
    {
        self.focused.is_some()
    }

    /// Whether browser `id` may take input now: never while input is
    /// corrupted; only the focused browser while one is focused; any otherwise.
    pub fn is_input_available(&self, id: u32) -> (b: bool)
        ensures
            b == (!self.input_corrupted && (self.focused is None || self.focused == Some(id))),
    {
        if self.input_corrupted {
            return false;
        }
        match self.focused {
            Some(f) => f == id,
            None => true,
        }
    }

    /// A plugin asks for the focus for browser `id`: it gets it only when the
    /// browser may take input now, which the result says (the game thread is
    /// then told of the focus too).
    pub fn try_focus(&mut self, id: u32) -> (focused: bool)
        requires
            old(self).wf(),
        ensures
            final(self).wf(),
            focused == (!old(self).input_corrupted && (old(self).focused is None || old(self).focused == Some(id))),
            focused ==> (final(self).focused, final(self).focused_queue@) == focus_step(
                old(self).clients@,
                old(self).focused,
                old(self).focused_queue@,
                id,
                true,
            ),
            !focused ==> final(self).focused == old(self).focused && final(self).focused_queue
                == old(self).focused_queue,
            final(self).clients == old(self).clients,
            final(self).input_corrupted == old(self).input_corrupted,
    {
        if self.is_input_available(id) {
            self.browser_focus(id, true);
            true
        } else {
            false
        }
    }

    /// Marks input as corrupted (a game menu or dialog has it, or the window
    /// is inactive) or not.
    pub fn set_corrupted(&mut self, corrupted: bool)
        ensures
            final(self).input_corrupted == corrupted,
            final(self).clients == old(self).clients,
            final(self).focused == old(self).focused,
            final(self).focused_queue == old(self).focused_queue,
            final(self).mouse == old(self).mouse,
            final(self).do_not_draw == old(self).do_not_draw,
            final(self).ready_callbacks == old(self).ready_callbacks,
            final(self).view_width == old(self).view_width,
            final(self).view_height == old(self).view_height,
    {
        self.input_corrupted = corrupted;
    }

    /// The browser that mouse and keyboard events go to: the focused one, if
    /// it exists and input is not corrupted.
    pub open spec fn input_target_spec(&self) -> Option<u32> {
        if !self.input_corrupted && (self.focused matches Some(f) && self.clients@.contains(f)) {
            self.focused
        } else {
            None
        }
    }

    /// The browser that mouse and keyboard events go to: the focused one, if
    /// it exists and input is not corrupted.
    pub fn input_target(&self) -> (r: Option<u32>)
        ensures
            r == self.input_target_spec(),
    {
        if self.input_corrupted {
            return None;
        }
        match self.focused {
            Some(f) => if contains_id(&self.clients, f).is_some() {
                Some(f)
            } else {
                None
            },
            None => None,
        }
    }

    /// Records the mouse at (`x`, `y`); gives back the flags of the buttons held.
    pub fn record_mouse_move(&mut self, x: i32, y: i32) -> (modifiers: u32)
        ensures
            final(self).mouse == (Mouse { x, y, ..old(self).mouse }),
            modifiers == button_flags(final(self).mouse),
            final(self).clients == old(self).clients,
            final(self).focused == old(self).focused,
            final(self).focused_queue == old(self).focused_queue,
    {
        self.mouse.x = x;
        self.mouse.y = y;
        let mut modifiers: u32 = 0;
        if self.mouse.left {
            modifiers = modifiers + EVENTFLAG_LEFT_MOUSE_BUTTON;
        }
        if self.mouse.middle {
            modifiers = modifiers + EVENTFLAG_MIDDLE_MOUSE_BUTTON;
        }
        if self.mouse.right {
            modifiers = modifiers + EVENTFLAG_RIGHT_MOUSE_BUTTON;
        }
        modifiers
    }

    /// Records `button` as held or released; gives back where the mouse is
    /// and CEF's code for the button.
    pub fn record_mouse_click(&mut self, button: MouseKey, is_down: bool) -> (r: (i32, i32, i32))
        ensures
            final(self).mouse.x == old(self).mouse.x && final(self).mouse.y == old(self).mouse.y,
            final(self).mouse.left == (if button == MouseKey::Left { is_down } else { old(self).mouse.left }),
            final(self).mouse.middle == (if button == MouseKey::Middle { is_down } else { old(self).mouse.middle }),
            final(self).mouse.right == (if button == MouseKey::Right { is_down } else { old(self).mouse.right }),
            r == (old(self).mouse.x, old(self).mouse.y, button_code(button)),
            final(self).clients == old(self).clients,
            final(self).focused == old(self).focused,
            final(self).focused_queue == old(self).focused_queue,
    {
        match button {
            MouseKey::Left => {
                self.mouse.left = is_down;
            },
            MouseKey::Middle => {
                self.mouse.middle = is_down;
            },
            MouseKey::Right => {
                self.mouse.right = is_down;
            },
        }
        let code = match button {
            MouseKey::Left => 0,
            MouseKey::Middle => 1,
            MouseKey::Right => 2,
        };
        (self.mouse.x, self.mouse.y, code)
    }

    /// Records the size of the view; gives back whether it changed (the
    /// browsers must then be resized).
    pub fn resize(&mut self, width: usize, height: usize) -> (changed: bool)
        ensures
            changed == !(width == old(self).view_width && height == old(self).view_height),
            final(self).view_width == width && final(self).view_height == height,
            final(self).clients == old(self).clients,
            final(self).focused == old(self).focused,
    {
        if width == self.view_width && height == self.view_height {
            return false;
        }
        self.view_width = width;
        self.view_height = height;
        true
    }

    /// Records whether drawing is suspended; gives back whether that changed
    /// (the browsers must then be hidden for the time being, or restored).
    pub fn do_not_draw(&mut self, donot: bool) -> (changed: bool)
        ensures
            changed == (old(self).do_not_draw != donot),
            final(self).do_not_draw == donot,
            final(self).clients == old(self).clients,
            final(self).focused == old(self).focused,
    {
        if self.do_not_draw != donot {
            self.do_not_draw = donot;
            true
        } else {
            false
        }
    }

    /// The browsers to draw, in order: none while drawing is suspended; else
    /// all, the focused one last.
    pub fn draw_order(&self) -> (r: Vec<u32>)
        ensures
            r@ == (if self.do_not_draw {
                seq![]
            } else {
                match self.focused {
                    Some(f) => without(self.clients@, f) + (if self.clients@.contains(f) {
                        seq![f]
                    } else {
                        seq![]
                    }),
                    None => self.clients@,
                }
            }),
    {
        let mut r: Vec<u32> = Vec::new();
        if self.do_not_draw {
            return r;
        }
        match self.focused {
            None => {
                let mut i: usize = 0;
                while i < self.clients.len()
                    invariant
                        i <= self.clients@.len(),
                        r@ == self.clients@.take(i as int),
                    decreases self.clients@.len() - i,
                {
                    r.push(self.clients[i]);
                    proof {
                        assert(r@ =~= self.clients@.take(i + 1));
                    }
                    i = i + 1;
                }
                proof {
                    assert(self.clients@.take(self.clients@.len() as int) =~= self.clients@);
                }
                r
            },
            Some(f) => {
                let mut i: usize = 0;
                while i < self.clients.len()
                    invariant
                        i <= self.clients@.len(),
                        r@ == without(self.clients@.take(i as int), f),
                    decreases self.clients@.len() - i,
                {
                    proof {
                        assert(self.clients@.take(i + 1).drop_last() =~= self.clients@.take(i as int));
                    }
                    if self.clients[i] != f {
                        r.push(self.clients[i]);
                    }
                    i = i + 1;
                }
                proof {
                    assert(self.clients@.take(self.clients@.len() as int) =~= self.clients@);
                }
                if contains_id(&self.clients, f).is_some() {
                    let ghost before = r@;
                    r.push(f);
                    proof {
                        assert(r@ =~= before + seq![f]);
                    }
                } else {
                    proof {
                        assert(r@ =~= r@ + Seq::<u32>::empty());
                    }
                }
                r
            },
        }
    }

    /// Registers `callback` to run when browser `id` is ready. When it is
    /// ready already (`ready`), the callback is to run at once and is not kept.
    pub fn add_browser_ready(&mut self, id: u32, callback: C, ready: bool) -> (run_now: bool)
        ensures
            run_now == ready,
            ready ==> final(self).ready_callbacks@ == old(self).ready_callbacks@,
            !ready ==> callbacks_for(final(self).ready_callbacks@, id) == callbacks_for(
                old(self).ready_callbacks@,
                id,
            ).push(callback),
            forall|other: u32| other != id ==> callbacks_for(final(self).ready_callbacks@, other)
                == callbacks_for(old(self).ready_callbacks@, other),
            final(self).clients == old(self).clients,
            final(self).focused == old(self).focused,
            final(self).focused_queue == old(self).focused_queue,
    {
        if ready {
            return true;
        }
        let existing = self.find_callbacks(id);
        let mut list: Vec<C> = match existing {
            Some(v) => v,
            None => Vec::new(),
        };
        list.push(callback);
        let ghost before = self.ready_callbacks@;
        self.ready_callbacks.push((id, list));
        proof {
            assert(self.ready_callbacks@.drop_last() =~= before);
            assert forall|other: u32| other != id implies callbacks_for(self.ready_callbacks@, other)
                == callbacks_for(before, other) by {
                assert(self.ready_callbacks@.last().0 == id);
            }
        }
        false
    }

    fn find_callbacks(&self, id: u32) -> (r: Option<Vec<C>>)
        ensures
            match r {
                Some(v) => v@ == callbacks_for(self.ready_callbacks@, id),
                None => callbacks_for(self.ready_callbacks@, id) == Seq::<C>::empty(),
            },
    {
        let mut i = self.ready_callbacks.len();
        proof {
            assert(self.ready_callbacks@.take(i as int) =~= self.ready_callbacks@);
        }
        while i > 0
            invariant
                i <= self.ready_callbacks@.len(),
                callbacks_for(self.ready_callbacks@, id) == callbacks_for(self.ready_callbacks@.take(i as int), id),
            decreases i,
        {
            proof {
                assert(self.ready_callbacks@.take(i as int).drop_last() =~= self.ready_callbacks@.take(i - 1));
                assert(self.ready_callbacks@.take(i as int).last() == self.ready_callbacks@[i - 1]);
            }
            if self.ready_callbacks[i - 1].0 == id {
                return Some(copy_callbacks(&self.ready_callbacks[i - 1].1));
            }
            i = i - 1;
        }
        proof {
            assert(self.ready_callbacks@.take(0) =~= Seq::<(u32, Vec<C>)>::empty());
        }
        None
    }

    /// The callbacks to run now that browser `id` is ready, in the order they
    /// were registered. They are kept.
    pub fn call_browser_ready(&self, id: u32) -> (r: Vec<C>)
        ensures
            r@ == callbacks_for(self.ready_callbacks@, id),
    {
        match self.find_callbacks(id) {
            Some(v) => v,
            None => Vec::new(),
        }
    }
}

/// Focusing a browser while none has the focus, then unfocusing it, leaves
/// nothing focused and nobody waiting.
pub proof fn law_focus_then_unfocus(clients: Seq<u32>, id: u32)
    requires
        clients.contains(id),
    ensures
        ({
            let (f1, q1) = focus_step(clients, None, seq![], id, true);
            focus_step(clients, f1, q1, id, false) == (None::<u32>, Seq::<u32>::empty())
        }),
{
}

/// Once a browser has taken the focus from nobody, input goes to it alone
/// (unless input is corrupted).
pub proof fn law_focus_takes_input<C>(m: Manager<C>, id: u32, other: u32)
    requires
        m.clients@.contains(id),
        m.focused is None,
        !m.input_corrupted,
    ensures
        ({
            let (f1, _) = focus_step(m.clients@, m.focused, m.focused_queue@, id, true);
            &&& f1 == Some(id)
            &&& (f1 is None || f1 == Some(other)) <==> other == id
        }),
{
}

/// A browser focused while another has the focus gets it as soon as all
/// those waiting before it have been unfocused: the line is first in, first out.
pub proof fn law_focus_queue_is_fifo(clients: Seq<u32>, cur: u32, queue: Seq<u32>)
    requires
        clients.contains(cur),
        queue.len() > 0,
    ensures
        focus_step(clients, Some(cur), queue, cur, false) == (Some(queue[0]), queue.drop_first()),
{
}

fn copy_callbacks<C: Copy>(v: &Vec<C>) -> (r: Vec<C>)
    ensures
        r@ == v@,
{
    let mut r: Vec<C> = Vec::new();
    let mut i: usize = 0;
    while i < v.len()
        invariant
            i <= v@.len(),
            r@ == v@.take(i as int),
        decreases v@.len() - i,
    {
        r.push(v[i]);
        proof {
            assert(r@ =~= v@.take(i + 1));
        }
        i = i + 1;
    }
    proof {
        assert(v@.take(v@.len() as int) =~= v@);
    }
    r
}

} // verus!
