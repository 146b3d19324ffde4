//! The parts of the game's HUD that pages may hide and show, and the state
//! of the HUD plugin that reports the player's statistics.
use vstd::prelude::*;
use crate::text::str_eq;

verus! {

/// A HUD element that is hidden by patching the game's code (or a flag) at
/// `addr`: `disabled_data` hides it, `origin_data` shows it again. Both are
/// kept last byte first, as they are written back to front.
pub struct HudComponent {
    /// The original bytes are still to be read from memory on first use.
    pub save_origin: bool,
    /// Hidden and shown together with the whole interface.
    pub part_of_interface: bool,
    pub addr: usize,
    pub origin_data: Vec<u8>,
    pub disabled_data: Vec<u8>,
}

impl HudComponent {
    /// Whether the element belongs to the interface as a whole.
    pub fn is_part_of_interface(&self) -> (b: bool)
        ensures
            b == self.part_of_interface,
    {
        self.part_of_interface
    }

    /// Shows or hides the element, given the bytes now at `addr` (as many as
    /// `origin_data` holds). On first use those bytes are kept as the
    /// original ones. Gives back the bytes to write from `addr` on.
    pub fn set_visible(&mut self, visible: bool, current: &[u8]) -> (written: Vec<u8>)
        requires
            current@.len() == old(self).origin_data@.len(),
        ensures
            set_visible_post(*old(self), *final(self), visible, current@, written@),
    {
        if self.save_origin {
            self.origin_data = reversed(current);
            self.save_origin = false;
        }
        if visible {
            reversed(self.origin_data.as_slice())
        } else {
            reversed(self.disabled_data.as_slice())
        }
    }
}

/// What showing (`visible`) or hiding an element does, given the bytes
/// `current` at its address: on first use they become the original bytes;
/// the bytes written are the original or the disabling ones, back to front.
pub open spec fn set_visible_post(
    before: HudComponent,
    after: HudComponent,
    visible: bool,
    current: Seq<u8>,
    written: Seq<u8>,
) -> bool {
    &&& after.origin_data@ == if before.save_origin {
        current.reverse()
    } else {
        before.origin_data@
    }
    &&& !after.save_origin
    &&& after.part_of_interface == before.part_of_interface
    &&& after.addr == before.addr
    &&& after.disabled_data@ == before.disabled_data@
    &&& written == if visible {
        after.origin_data@.reverse()
    } else {
        after.disabled_data@.reverse()
    }
}

/// Showing an element again writes back exactly the bytes that were at its
/// address when it was first hidden or shown.
pub proof fn law_show_restores_original(
    c0: HudComponent,
    c1: HudComponent,
    c2: HudComponent,
    v: bool,
    current: Seq<u8>,
    later: Seq<u8>,
    w1: Seq<u8>,
    w2: Seq<u8>,
)
    requires
        c0.save_origin,
        set_visible_post(c0, c1, v, current, w1),
        set_visible_post(c1, c2, true, later, w2),
    ensures
        w2 == current,
{
    assert(current.reverse().reverse() =~= current);
}

/// What a HUD element remembers, as plain values.
pub struct HudModel {
    pub save_origin: bool,
    pub origin: Seq<u8>,
    pub disabled: Seq<u8>,
}

pub open spec fn hud_model(c: HudComponent) -> HudModel {
    HudModel { save_origin: c.save_origin, origin: c.origin_data@, disabled: c.disabled_data@ }
}

/// One call of `set_visible` on an element remembering `m`, with `current` the
/// bytes at its address: what it remembers then, and the bytes written.
pub open spec fn hud_step(m: HudModel, visible: bool, current: Seq<u8>) -> (HudModel, Seq<u8>) {
    let origin = if m.save_origin { current.reverse() } else { m.origin };
    (
        HudModel { save_origin: false, origin, disabled: m.disabled },
        if visible { origin.reverse() } else { m.disabled.reverse() },
    )
}

/// Calls of `set_visible` with the visibilities `vs`, in order, starting from
/// the bytes `mem` at the element's address, each call writing its bytes there
/// and nothing else writing them: what the element remembers at the end, and
/// the bytes left at its address.
pub open spec fn hud_run(m: HudModel, mem: Seq<u8>, vs: Seq<bool>) -> (HudModel, Seq<u8>)
    decreases vs.len(),
{
    if vs.len() == 0 {
        (m, mem)
    } else {
        let (m1, written) = hud_step(m, vs[0], mem);
        hud_run(m1, written, vs.drop_first())
    }
}

/// The state that `set_visible` leaves is the one `hud_step` gives.
pub proof fn lemma_set_visible_is_step(
    before: HudComponent,
    after: HudComponent,
    visible: bool,
    current: Seq<u8>,
    written: Seq<u8>,
)
    requires
        set_visible_post(before, after, visible, current, written),
    ensures
        hud_model(after) == hud_step(hud_model(before), visible, current).0,
        written == hud_step(hud_model(before), visible, current).1,
{
}

proof fn lemma_run_after_capture(m: HudModel, mem: Seq<u8>, vs: Seq<bool>, mem0: Seq<u8>)
    requires
        !m.save_origin,
        m.origin == mem0.reverse(),
        vs.len() > 0,
        vs.last(),
    ensures
        hud_run(m, mem, vs).1 == mem0,
    decreases vs.len(),
{
    let (m1, w) = hud_step(m, vs[0], mem);
    assert(hud_run(m, mem, vs) == hud_run(m1, w, vs.drop_first()));
    if vs.len() == 1 {
        assert(vs[0] == vs.last());
        assert(mem0.reverse().reverse() =~= mem0);
        assert(vs.drop_first().len() == 0);
        assert(hud_run(m1, w, vs.drop_first()) == (m1, w));
    } else {
        assert(vs.drop_first().last() == vs.last());
        lemma_run_after_capture(m1, w, vs.drop_first(), mem0);
    }
}

/// However an element is hidden and shown, from the first call on, showing
/// it last leaves at its address exactly the bytes that were there before
/// the first call: they are captured once and never overwritten.
pub proof fn law_show_after_any_calls_restores(m: HudModel, mem0: Seq<u8>, vs: Seq<bool>)
    requires
        m.save_origin,
        vs.len() > 0,
        vs.last(),
    ensures
        hud_run(m, mem0, vs).1 == mem0,
{
    let (m1, w) = hud_step(m, vs[0], mem0);
    assert(hud_run(m, mem0, vs) == hud_run(m1, w, vs.drop_first()));
    if vs.len() == 1 {
        assert(vs[0] == vs.last());
        assert(mem0.reverse().reverse() =~= mem0);
        assert(vs.drop_first().len() == 0);
        assert(hud_run(m1, w, vs.drop_first()) == (m1, w));
    } else {
        assert(vs.drop_first().last() == vs.last());
        lemma_run_after_capture(m1, w, vs.drop_first(), mem0);
    }
}

proof fn lemma_calls_keep_capture(cs: Seq<HudComponent>, vs: Seq<bool>, mems: Seq<Seq<u8>>, k: int)
    requires
        cs.len() == vs.len() + 1,
        mems.len() == vs.len() + 1,
        cs[0].save_origin,
        forall|i: int|
            0 <= i < vs.len() ==> set_visible_post(#[trigger] cs[i], cs[i + 1], vs[i], mems[i], mems[i + 1]),
        1 <= k <= vs.len(),
    ensures
        !cs[k].save_origin,
        cs[k].origin_data@ == mems[0].reverse(),
    decreases k,
{
    if k > 1 {
        lemma_calls_keep_capture(cs, vs, mems, k - 1);
        assert(set_visible_post(cs[k - 1], cs[k - 1 + 1], vs[k - 1], mems[k - 1], mems[k - 1 + 1]));
    } else {
        assert(set_visible_post(cs[0], cs[1], vs[0], mems[0], mems[1]));
    }
}

/// However an element is hidden and shown by calls of `set_visible`, from
/// its first call on, each call given the bytes at its address and writing
/// its bytes there, and nothing else writing them (`cs` the element before and
/// after each call, `mems` the bytes at its address before each call and at
/// the end): when the last call shows it, the bytes at its address are again
/// those that were there before the first call.
pub proof fn law_set_visible_calls_restore(cs: Seq<HudComponent>, vs: Seq<bool>, mems: Seq<Seq<u8>>)
    requires
        cs.len() == vs.len() + 1,
        mems.len() == vs.len() + 1,
        cs[0].save_origin,
        forall|i: int|
            0 <= i < vs.len() ==> set_visible_post(#[trigger] cs[i], cs[i + 1], vs[i], mems[i], mems[i + 1]),
        vs.len() > 0,
        vs.last(),
    ensures
        mems[vs.len() as int] == mems[0],
{
    let n = vs.len() as int;
    lemma_calls_keep_capture(cs, vs, mems, n);
    assert(set_visible_post(cs[n - 1], cs[n - 1 + 1], vs[n - 1], mems[n - 1], mems[n - 1 + 1]));
    assert(vs[n - 1] == vs.last());
    assert(mems[0].reverse().reverse() =~= mems[0]);
}

/// The bytes of `s`, last first.
pub fn reversed(s: &[u8]) -> (r: Vec<u8>)
    ensures
        r@ == s@.reverse(),
{
    let n = s.len();
    let mut r: Vec<u8> = Vec::new();
    let mut i: usize = 0;
    while i < n
        invariant
            n == s@.len(),
            i <= n,
            r@.len() == i,
            forall|j: int| 0 <= j < i ==> r@[j] == s@[n - 1 - j],
        decreases n - i,
    {
        r.push(s[n - 1 - i]);
        i = i + 1;
    }
    assert(r@ =~= s@.reverse());
    r
}

/// The HUD elements by name.
pub struct HudComponents {
    pub entries: Vec<(String, HudComponent)>,
}

/// The names of the HUD elements, in order.
pub open spec fn names_of(entries: Seq<(String, HudComponent)>) -> Seq<Seq<char>> {
    entries.map_values(|e: (String, HudComponent)| e.0@)
}

impl HudComponents {
    /// No two elements share a name.
    pub open spec fn wf(&self) -> bool {
        names_of(self.entries@).no_duplicates()
    }

    /// The position of the element named `name`, if there is one.
    pub fn position(&self, name: &str) -> (r: Option<usize>)
        ensures
            match r {
                Some(i) => i < self.entries@.len() && self.entries@[i as int].0@ == name@,
                None => forall|i: int| 0 <= i < self.entries@.len() ==> self.entries@[i].0@ != name@,
            },
    {
        let mut i: usize = 0;
        while i < self.entries.len()
            invariant
                i <= self.entries@.len(),
                forall|j: int| 0 <= j < i ==> self.entries@[j].0@ != name@,
            decreases self.entries@.len() - i,
        {
            if str_eq(self.entries[i].0.as_str(), name) {
                return Some(i);
            }
            i = i + 1;
        }
        None
    }

    /// The elements that a request to show or hide `name` concerns: every part
    /// of the interface for `interface`, else the element of that name, if any.
    pub fn targets(&self, name: &str) -> (r: Vec<usize>)
        ensures
            name@ == "interface"@ ==> r@ == interface_positions(self.entries@),
            name@ != "interface"@ ==> (forall|k: int| 0 <= k < r@.len() ==> r@[k] < self.entries@.len()
                && self.entries@[r@[k] as int].0@ == name@),
            name@ != "interface"@ ==> r@.len() <= 1,
            name@ != "interface"@ ==> (r@.len() == 0 <==> forall|i: int|
                0 <= i < self.entries@.len() ==> self.entries@[i].0@ != name@),
    {
        if str_eq(name, "interface") {
            let mut r: Vec<usize> = Vec::new();
            let mut i: usize = 0;
            while i < self.entries.len()
                invariant
                    i <= self.entries@.len(),
                    r@ == interface_positions(self.entries@.take(i as int)),
                decreases self.entries@.len() - i,
            {
                proof {
                    assert(self.entries@.take(i + 1).drop_last() =~= self.entries@.take(i as int));
                }
                if self.entries[i].1.part_of_interface {
                    r.push(i);
                }
                i = i + 1;
            }
            proof {
                assert(self.entries@.take(self.entries@.len() as int) =~= self.entries@);
            }
            r
        } else {
            let mut r: Vec<usize> = Vec::new();
            match self.position(name) {
                Some(i) => {
                    r.push(i);
                },
                None => {},
            }
            r
        }
    }
}

/// The positions of the elements that belong to the interface, in order.
pub open spec fn interface_positions(entries: Seq<(String, HudComponent)>) -> Seq<usize>
    decreases entries.len(),
{
    if entries.len() == 0 {
        seq![]
    } else {
        let prev = interface_positions(entries.drop_last());
        if entries.last().1.part_of_interface {
            prev.push((entries.len() - 1) as usize)
        } else {
            prev
        }
    }
}

fn component(name: &str, save_origin: bool, part_of_interface: bool, addr: usize, origin: u8, disabled: u8) -> (r: (
    String,
    HudComponent,
))
    ensures
        r.0@ == name@,
        r.1.save_origin == save_origin,
        r.1.part_of_interface == part_of_interface,
        r.1.addr == addr,
        r.1.origin_data@ == seq![origin],
        r.1.disabled_data@ == seq![disabled],
{
    let mut o: Vec<u8> = Vec::new();
    o.push(origin);
    let mut d: Vec<u8> = Vec::new();
    d.push(disabled);
    (name.to_owned(), HudComponent { save_origin, part_of_interface, addr, origin_data: o, disabled_data: d })
}

/// The HUD elements of the game that can be hidden.
pub fn make_components() -> (hud: HudComponents)
    ensures
        hud.wf(),
        hud.entries@.len() == 15,
        names_of(hud.entries@) == seq![
            "ammo"@, "weapon"@, "health"@, "breath"@, "armour"@, "money"@, "vehicle_name"@,
            "area_name"@, "radar"@, "clock"@, "radio"@, "wanted"@, "crosshair"@, "vital_stats"@,
            "help_text"@,
        ],
        forall|i: int| 0 <= i < 15 ==> (#[trigger] hud.entries@[i]).1.part_of_interface == (i <= 5 || i
            == 9 || i == 11 || i == 13),
        forall|i: int| 0 <= i < 15 ==> (#[trigger] hud.entries@[i]).1.save_origin == (i != 9),
        hud.entries@[0].1.addr == 0x5893B0 && hud.entries@[1].1.addr == 0x58D7D0
            && hud.entries@[2].1.addr == 0x589270 && hud.entries@[3].1.addr == 0x589190
            && hud.entries@[4].1.addr == 0x5890A0 && hud.entries@[5].1.addr == 0x58F47D
            && hud.entries@[6].1.addr == 0x58AEA0 && hud.entries@[7].1.addr == 0x58AA50
            && hud.entries@[8].1.addr == 0x58A330 && hud.entries@[9].1.addr == 0xBAA400
            && hud.entries@[10].1.addr == 0x4E9E50 && hud.entries@[11].1.addr == 0x58D9A0
            && hud.entries@[12].1.addr == 0x58E020 && hud.entries@[13].1.addr == 0x589650
            && hud.entries@[14].1.addr == 0x58B6E0,
        hud.entries@[5].1.origin_data@ == seq![0xCCu8, 0xCCu8],
        hud.entries@[5].1.disabled_data@ == seq![0xE9u8, 0x90u8],
        hud.entries@[9].1.origin_data@ == seq![1u8],
        hud.entries@[9].1.disabled_data@ == seq![0u8],
        forall|i: int| 0 <= i < 15 && i != 5 && i != 9 ==> (#[trigger] hud.entries@[i]).1.origin_data@
            == seq![0xCCu8] && hud.entries@[i].1.disabled_data@ == seq![0xC3u8],
{
    let mut v: Vec<(String, HudComponent)> = Vec::new();
    v.push(component("ammo", true, true, 0x5893B0, 0xCC, 0xC3));
    v.push(component("weapon", true, true, 0x58D7D0, 0xCC, 0xC3));
    v.push(component("health", true, true, 0x589270, 0xCC, 0xC3));
    v.push(component("breath", true, true, 0x589190, 0xCC, 0xC3));
    v.push(component("armour", true, true, 0x5890A0, 0xCC, 0xC3));
    let mut money = component("money", true, true, 0x58F47D, 0xCC, 0xE9);
    money.1.origin_data.push(0xCC);
    money.1.disabled_data.push(0x90);
    v.push(money);
    v.push(component("vehicle_name", true, false, 0x58AEA0, 0xCC, 0xC3));
    v.push(component("area_name", true, false, 0x58AA50, 0xCC, 0xC3));
    v.push(component("radar", true, false, 0x58A330, 0xCC, 0xC3));
    v.push(component("clock", false, true, 0xBAA400, 1, 0));
    v.push(component("radio", true, false, 0x4E9E50, 0xCC, 0xC3));
    v.push(component("wanted", true, true, 0x58D9A0, 0xCC, 0xC3));
    v.push(component("crosshair", true, false, 0x58E020, 0xCC, 0xC3));
    v.push(component("vital_stats", true, true, 0x589650, 0xCC, 0xC3));
    v.push(component("help_text", true, false, 0x58B6E0, 0xCC, 0xC3));
    let hud = HudComponents { entries: v };
    proof {
        reveal_strlit("ammo");
        reveal_strlit("weapon");
        reveal_strlit("health");
        reveal_strlit("breath");
        reveal_strlit("armour");
        reveal_strlit("money");
        reveal_strlit("vehicle_name");
        reveal_strlit("area_name");
        reveal_strlit("radar");
        reveal_strlit("clock");
        reveal_strlit("radio");
        reveal_strlit("wanted");
        reveal_strlit("crosshair");
        reveal_strlit("vital_stats");
        reveal_strlit("help_text");
        let ns = names_of(hud.entries@);
        assert(ns =~= seq![
            "ammo"@, "weapon"@, "health"@, "breath"@, "armour"@, "money"@, "vehicle_name"@,
            "area_name"@, "radar"@, "clock"@, "radio"@, "wanted"@, "crosshair"@, "vital_stats"@,
            "help_text"@,
        ]);
        assert forall|i: int, j: int| 0 <= i < ns.len() && 0 <= j < ns.len() && i != j implies ns[i] != ns[j] by {
            if ns[i] == ns[j] {
                assert(ns[i].len() == ns[j].len());
                assert(ns[i][0] == ns[j][0]);
                assert(ns[i].last() == ns[j].last());
            }
        }
    }
    hud
}

/// The state of the HUD plugin: whether player statistics are polled, how
/// often, and the HUD visibility last reported to pages.
pub struct HudState {
    pub polling: bool,
    pub polling_interval_ms: u64,
    pub is_hud_visible: bool,
}

/// A request from a page to the HUD plugin.
pub enum HudEvent {
    SetComponentVisible(String, bool),
    PollPlayerStats(bool, i32),
}

/// The request to show or hide an element, when the page sent its three
/// arguments (event name, element name, visibility).
pub fn set_component_visible(arg_count: usize, name: String, visible: bool) -> (e: Option<HudEvent>)
    ensures
        arg_count == 3 ==> (e matches Some(HudEvent::SetComponentVisible(n, v)) && n@ == name@ && v == visible),
        arg_count != 3 ==> e is None,
{
    if arg_count == 3 {
        Some(HudEvent::SetComponentVisible(name, visible))
    } else {
        None
    }
}

/// The request to poll statistics, when the page sent its three arguments
/// (event name, whether to poll, interval in milliseconds).
pub fn poll_player_stats(arg_count: usize, poll: bool, interval: i32) -> (e: Option<HudEvent>)
    ensures
        arg_count == 3 ==> e == Some(HudEvent::PollPlayerStats(poll, interval)),
        arg_count != 3 ==> e is None,
{
    if arg_count == 3 {
        Some(HudEvent::PollPlayerStats(poll, interval))
    } else {
        None
    }
}

impl HudState {
    /// Not polling; every ten seconds once asked to; HUD reported hidden.
    pub fn new() -> (s: HudState)
        ensures
            !s.polling,
            s.polling_interval_ms == 10000,
            !s.is_hud_visible,
    {
        HudState { polling: false, polling_interval_ms: 10000, is_hud_visible: false }
    }

    /// Starts or stops polling, every `interval` milliseconds (a negative
    /// interval wraps around, as the conversion to an unsigned count does).
    pub fn set_polling(&mut self, poll: bool, interval: i32)
        ensures
            final(self).polling == poll,
            final(self).polling_interval_ms == interval as u64,
            final(self).is_hud_visible == old(self).is_hud_visible,
    {
        self.polling = poll;
        self.polling_interval_ms = interval as u64;
    }

    /// Statistics are due when polling and the interval has passed.
    pub fn poll_due(&self, elapsed_ms: u64) -> (b: bool)
        ensures
            b == (self.polling && elapsed_ms >= self.polling_interval_ms),
    {
        self.polling && elapsed_ms >= self.polling_interval_ms
    }

    /// The HUD visibility must be reported again when polling and it changed.
    pub fn visibility_changed(&self, is_hud_visible: bool) -> (b: bool)
        ensures
            b == (self.polling && is_hud_visible != self.is_hud_visible),
    {
        self.polling && is_hud_visible != self.is_hud_visible
    }

    /// Records the HUD visibility that is reported to pages.
    pub fn update_visible_state(&mut self, is_hud_visible: bool)
        ensures
            final(self).is_hud_visible == is_hud_visible,
            final(self).polling == old(self).polling,
            final(self).polling_interval_ms == old(self).polling_interval_ms,
    {
        self.is_hud_visible = is_hud_visible;
    }

    /// A poll request from a page: polling starts or stops with the new
    /// interval, and the HUD visibility (`is_hud_visible`, read from the game)
    /// is recorded and reported to pages at once.
    pub fn on_poll_request(&mut self, poll: bool, interval: i32, is_hud_visible: bool)
        ensures
            final(self).polling == poll,
            final(self).polling_interval_ms == interval as u64,
            final(self).is_hud_visible == is_hud_visible,
    {
        self.set_polling(poll, interval);
        self.update_visible_state(is_hud_visible);
    }

    /// The end of a game tick, `elapsed_ms` after the last poll, with the HUD
    /// visibility read from the game: whether the player's statistics are due
    /// (the caller then restarts its clock), and whether the visibility is to
    /// be reported, having changed (it is then recorded).
    pub fn end_tick(&mut self, elapsed_ms: u64, is_hud_visible: bool) -> (r: (bool, bool))
        ensures
            r.0 == (old(self).polling && elapsed_ms >= old(self).polling_interval_ms),
            r.1 == (old(self).polling && is_hud_visible != old(self).is_hud_visible),
            final(self).is_hud_visible == (if r.1 { is_hud_visible } else { old(self).is_hud_visible }),
            final(self).polling == old(self).polling,
            final(self).polling_interval_ms == old(self).polling_interval_ms,
    {
        let due = self.poll_due(elapsed_ms);
        let changed = self.visibility_changed(is_hud_visible);
        if changed {
            self.update_visible_state(is_hud_visible);
        }
        (due, changed)
    }
}

} // verus!
