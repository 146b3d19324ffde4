//! The sound of browsers drawn on objects: which streams each browser plays,
//! which objects each stream is heard from and whether they are muted, and
//! which pieces of sound wait to be played.
use vstd::prelude::*;

verus! {

/// A stream's sound as heard from one object.
#[derive(Debug, Clone, Copy, PartialEq, Eq, Structural)]
pub struct SourceState {
    pub object_id: i32,
    pub muted: bool,
}

/// A stream of sound of a browser.
pub struct StreamState {
    pub browser: u32,
    pub stream_id: i32,
    pub sample_rate: i32,
    pub channels: i32,
    pub max_frames: i32,
    /// Presentation time of the last piece queued.
    pub last_pts: u64,
    /// Frames in the last piece queued.
    pub last_frame_len: usize,
    /// Presentation times of the pieces waiting, in increasing order.
    pub pending: Vec<u64>,
    /// The objects the stream is heard from, each once.
    pub sources: Vec<SourceState>,
}

/// A stream as plain values.
pub struct StreamView {
    pub browser: u32,
    pub stream_id: i32,
    pub sample_rate: i32,
    pub channels: i32,
    pub max_frames: i32,
    pub last_pts: u64,
    pub last_frame_len: usize,
    pub pending: Seq<u64>,
    pub sources: Seq<SourceState>,
}

impl View for StreamState {
    type V = StreamView;

    open spec fn view(&self) -> StreamView {
        StreamView {
            browser: self.browser,
            stream_id: self.stream_id,
            sample_rate: self.sample_rate,
            channels: self.channels,
            max_frames: self.max_frames,
            last_pts: self.last_pts,
            last_frame_len: self.last_frame_len,
            pending: self.pending@,
            sources: self.sources@,
        }
    }
}

/// The views of the streams, in order.
pub open spec fn views(ss: Seq<StreamState>) -> Seq<StreamView> {
    Seq::new(ss.len(), |i: int| ss[i]@)
}

/// Strictly increasing.
pub open spec fn increasing(s: Seq<u64>) -> bool {
    forall|i: int, j: int| 0 <= i < j < s.len() ==> s[i] < s[j]
}

/// Each object once.
pub open spec fn distinct_objects(s: Seq<SourceState>) -> bool {
    forall|i: int, j: int| 0 <= i < j < s.len() ==> s[i].object_id != s[j].object_id
}

pub open spec fn stream_wf(s: StreamView) -> bool {
    increasing(s.pending) && distinct_objects(s.sources)
}

pub open spec fn has_object(s: Seq<SourceState>, object_id: i32) -> bool {
    exists|i: int| 0 <= i < s.len() && s[i].object_id == object_id
}

/// The position of the first stream of `browser` with id `stream_id`.
pub open spec fn find_stream(ss: Seq<StreamView>, browser: u32, stream_id: i32) -> Option<int>
    decreases ss.len(),
{
    if ss.len() == 0 {
        None
    } else {
        match find_stream(ss.drop_last(), browser, stream_id) {
            Some(i) => Some(i),
            None => if ss.last().browser == browser && ss.last().stream_id == stream_id {
                Some(ss.len() - 1)
            } else {
                None
            },
        }
    }
}

pub proof fn lemma_find_stream(ss: Seq<StreamView>, browser: u32, stream_id: i32)
    ensures
        match find_stream(ss, browser, stream_id) {
            Some(k) => 0 <= k < ss.len() && ss[k].browser == browser && ss[k].stream_id == stream_id
                && forall|j: int| 0 <= j < k ==> !(ss[j].browser == browser && ss[j].stream_id == stream_id),
            None => forall|j: int| 0 <= j < ss.len() ==> !(ss[j].browser == browser && ss[j].stream_id == stream_id),
        },
    decreases ss.len(),
{
    if ss.len() > 0 {
        lemma_find_stream(ss.drop_last(), browser, stream_id);
        assert(forall|j: int| 0 <= j < ss.len() - 1 ==> ss.drop_last()[j] == ss[j]);
    }
}

/// A new stream, with nothing waiting and heard from no object.
pub open spec fn new_stream(browser: u32, stream_id: i32, channels: i32, sample_rate: i32, max_frames: i32) -> StreamView {
    StreamView {
        browser,
        stream_id,
        sample_rate,
        channels,
        max_frames,
        last_pts: 0,
        last_frame_len: 0,
        pending: seq![],
        sources: seq![],
    }
}

/// `s` heard from `object_id` too, muted, unless it already was.
pub open spec fn with_source(s: StreamView, object_id: i32) -> StreamView {
    if has_object(s.sources, object_id) {
        s
    } else {
        StreamView { sources: s.sources.push(SourceState { object_id, muted: true }), ..s }
    }
}

/// `s` no longer heard from `object_id`.
pub open spec fn without_source(s: StreamView, object_id: i32) -> StreamView {
    StreamView { sources: s.sources.filter(|x: SourceState| x.object_id != object_id), ..s }
}

/// `s` with the sources of `object_id` muted (or not).
pub open spec fn set_muted(s: StreamView, object_id: i32, muted: bool) -> StreamView {
    StreamView {
        sources: Seq::new(
            s.sources.len(),
            |k: int| if s.sources[k].object_id == object_id {
                SourceState { object_id, muted }
            } else {
                s.sources[k]
            },
        ),
        ..s
    }
}

/// `s` with nothing waiting.
pub open spec fn cleared(s: StreamView) -> StreamView {
    StreamView { pending: seq![], ..s }
}

proof fn lemma_filter_push<A>(s: Seq<A>, f: spec_fn(A) -> bool, x: A)
    ensures
        s.push(x).filter(f) == (if f(x) { s.filter(f).push(x) } else { s.filter(f) }),
{
    reveal(Seq::filter);
    assert(s.push(x).drop_last() =~= s);
}

/// The sound of all browsers.
pub struct AudioState {
    /// Sound is paused (a game menu is open or the window inactive).
    pub paused: bool,
    /// The streams, in the order they started.
    pub streams: Vec<StreamState>,
}

/// A stream's sound from one object, to be changed by the sound device.
#[derive(Debug, Clone, Copy, PartialEq, Eq, Structural)]
pub struct SourceRef {
    pub browser: u32,
    pub stream_id: i32,
    pub object_id: i32,
}

impl AudioState {
    pub open spec fn wf(&self) -> bool {
        forall|i: int| 0 <= i < self.streams@.len() ==> stream_wf(#[trigger] self.streams@[i]@)
    }

    pub closed spec fn sv(&self) -> Seq<StreamView> {
        views(self.streams@)
    }

    /// No streams; not paused.
    pub fn new() -> (a: AudioState)
        ensures
            a.wf(),
            !a.paused,
            a.streams@.len() == 0,
    {
        AudioState { paused: false, streams: Vec::new() }
    }

    /// A browser started a stream.
    pub fn create_stream(&mut self, browser: u32, stream_id: i32, channels: i32, sample_rate: i32, max_frames: i32)
        requires
            old(self).wf(),
        ensures
            final(self).wf(),
            final(self).paused == old(self).paused,
            views(final(self).streams@) == views(old(self).streams@).push(
                new_stream(browser, stream_id, channels, sample_rate, max_frames),
            ),
    {
        let s = StreamState {
            browser,
            stream_id,
            sample_rate,
            channels,
            max_frames,
            last_pts: 0,
            last_frame_len: 0,
            pending: Vec::new(),
            sources: Vec::new(),
        };
        let ghost before = self.streams@;
        self.streams.push(s);
        proof {
            assert(views(self.streams@) =~= views(before).push(new_stream(browser, stream_id, channels, sample_rate, max_frames)));
            assert forall|i: int| 0 <= i < self.streams@.len() implies stream_wf(#[trigger] self.streams@[i]@) by {
                if i < before.len() {
                    assert(self.streams@[i] == before[i]);
                }
            }
        }
    }

    fn find(&self, browser: u32, stream_id: i32) -> (r: Option<usize>)
        ensures
            r matches Some(k) ==> k < self.streams@.len() && find_stream(views(self.streams@), browser, stream_id) == Some(k as int),
            r is None ==> find_stream(views(self.streams@), browser, stream_id) is None,
    {
        proof {
            lemma_find_stream(views(self.streams@), browser, stream_id);
        }
        let mut i: usize = 0;
        while i < self.streams.len()
            invariant
                i <= self.streams@.len(),
                forall|j: int| 0 <= j < i ==> !(self.streams@[j].browser == browser && self.streams@[j].stream_id == stream_id),
            decreases self.streams@.len() - i,
        {
            if self.streams[i].browser == browser && self.streams[i].stream_id == stream_id {
                proof {
                    let vs = views(self.streams@);
                    lemma_find_stream(vs, browser, stream_id);
                    match find_stream(vs, browser, stream_id) {
                        Some(k) => {
                            if k < i {
                                assert(vs[k] == self.streams@[k]@);
                            }
                            if k > i {
                                assert(vs[i as int] == self.streams@[i as int]@);
                            }
                        },
                        None => {
                            assert(vs[i as int] == self.streams@[i as int]@);
                        },
                    }
                }
                return Some(i);
            }
            i = i + 1;
        }
        proof {
            let vs = views(self.streams@);
            lemma_find_stream(vs, browser, stream_id);
            match find_stream(vs, browser, stream_id) {
                Some(k) => {
                    assert(vs[k] == self.streams@[k]@);
                },
                None => {},
            }
        }
        None
    }

    /// A browser's stream stopped: its first stream with that id is dropped.
    pub fn remove_stream(&mut self, browser: u32, stream_id: i32)
        requires
            old(self).wf(),
        ensures
            final(self).wf(),
            final(self).paused == old(self).paused,
            views(final(self).streams@) == (match find_stream(views(old(self).streams@), browser, stream_id) {
                Some(k) => views(old(self).streams@).remove(k),
                None => views(old(self).streams@),
            }),
    {
        match self.find(browser, stream_id) {
            Some(k) => {
                let ghost before = self.streams@;
                self.streams.remove(k);
                proof {
                    assert(self.streams@ =~= before.remove(k as int));
                    assert(views(self.streams@) =~= views(before).remove(k as int));
                    assert forall|i: int| 0 <= i < self.streams@.len() implies stream_wf(#[trigger] self.streams@[i]@) by {
                        if i < k {
                            assert(self.streams@[i] == before[i]);
                        } else {
                            assert(self.streams@[i] == before[i + 1]);
                        }
                    }
                }
            },
            None => {},
        }
    }

    /// A browser closed: all its streams are dropped.
    pub fn remove_all_streams(&mut self, browser: u32)
        requires
            old(self).wf(),
        ensures
            final(self).wf(),
            final(self).paused == old(self).paused,
            views(final(self).streams@) == views(old(self).streams@).filter(|s: StreamView| s.browser != browser),
    {
        let mut kept: Vec<StreamState> = Vec::new();
        let mut old_streams: Vec<StreamState> = Vec::new();
        std::mem::swap(&mut old_streams, &mut self.streams);
        let ghost all = old_streams@;
        let ghost f = |s: StreamView| s.browser != browser;
        while old_streams.len() > 0
            invariant
                f == (|s: StreamView| s.browser != browser),
                forall|i: int| 0 <= i < all.len() ==> stream_wf(#[trigger] all[i]@),
                old_streams@.len() <= all.len(),
                old_streams@ == all.subrange(all.len() - old_streams@.len(), all.len() as int),
                views(kept@) == views(all.take(all.len() - old_streams@.len())).filter(f),
                forall|i: int| 0 <= i < kept@.len() ==> stream_wf(#[trigger] kept@[i]@),
            decreases old_streams@.len(),
        {
            let ghost n = all.len() - old_streams@.len();
            let s = old_streams.remove(0);
            proof {
                assert(s == all[n]);
                assert(old_streams@ =~= all.subrange(n + 1, all.len() as int));
                assert(all.take(n + 1) =~= all.take(n).push(all[n]));
                assert(views(all.take(n + 1)) =~= views(all.take(n)).push(all[n]@));
                lemma_filter_push(views(all.take(n)), f, all[n]@);
            }
            if s.browser != browser {
                let ghost before = kept@;
                kept.push(s);
                proof {
                    assert(views(kept@) =~= views(before).push(s@));
                    assert forall|i: int| 0 <= i < kept@.len() implies stream_wf(#[trigger] kept@[i]@) by {
                        if i < before.len() {
                            assert(kept@[i] == before[i]);
                        }
                    }
                }
            }
            proof {
                assert(all.len() - old_streams@.len() == n + 1);
                assert(f(all[n]@) == (s.browser != browser));
                assert(views(kept@) == views(all.take(n + 1)).filter(f));
            }
        }
        proof {
            assert(all.take(all.len() as int) =~= all);
        }
        self.streams = kept;
    }
}


/// The sources of `object_id` whose muting changes when set to `muted`: at
/// most one per stream, in the order of the streams.
pub open spec fn muting_changes(vs: Seq<StreamView>, object_id: i32, muted: bool) -> Seq<SourceRef>
    decreases vs.len(),
{
    if vs.len() == 0 {
        seq![]
    } else {
        let prev = muting_changes(vs.drop_last(), object_id, muted);
        let s = vs.last();
        if exists|k: int| 0 <= k < s.sources.len() && s.sources[k].object_id == object_id && s.sources[k].muted != muted {
            prev.push(SourceRef { browser: s.browser, stream_id: s.stream_id, object_id })
        } else {
            prev
        }
    }
}

/// The streams of `browser` that get a new source for `object_id`, in order.
pub open spec fn added_sources(vs: Seq<StreamView>, browser: u32, object_id: i32) -> Seq<SourceRef>
    decreases vs.len(),
{
    if vs.len() == 0 {
        seq![]
    } else {
        let prev = added_sources(vs.drop_last(), browser, object_id);
        let s = vs.last();
        if s.browser == browser && !has_object(s.sources, object_id) {
            prev.push(SourceRef { browser: s.browser, stream_id: s.stream_id, object_id })
        } else {
            prev
        }
    }
}

fn add_source_to(s: &mut StreamState, object_id: i32) -> (added: bool)
    requires
        stream_wf(old(s)@),
    ensures
        stream_wf(final(s)@),
        final(s)@ == with_source(old(s)@, object_id),
        added == !has_object(old(s)@.sources, object_id),
{
    let mut i: usize = 0;
    while i < s.sources.len()
        invariant
            *s == *old(s),
            stream_wf(s@),
            i <= s.sources@.len(),
            forall|j: int| 0 <= j < i ==> s.sources@[j].object_id != object_id,
        decreases s.sources@.len() - i,
    {
        if s.sources[i].object_id == object_id {
            return false;
        }
        i = i + 1;
    }
    let ghost before = s.sources@;
    s.sources.push(SourceState { object_id, muted: true });
    proof {
        assert forall|a: int, b: int| 0 <= a < b < s.sources@.len() implies s.sources@[a].object_id
            != s.sources@[b].object_id by {
            if b == before.len() {
                assert(s.sources@[a] == before[a]);
            }
        }
        assert(s@ == with_source(old(s)@, object_id)) by {
            assert(s.sources@ =~= before.push(SourceState { object_id, muted: true }));
        }
    }
    true
}

fn remove_source_from(s: &mut StreamState, object_id: i32)
    requires
        stream_wf(old(s)@),
    ensures
        stream_wf(final(s)@),
        final(s)@ == without_source(old(s)@, object_id),
{
    let ghost f = |x: SourceState| x.object_id != object_id;
    let ghost all = s.sources@;
    let mut kept: Vec<SourceState> = Vec::new();
    let mut i: usize = 0;
    while i < s.sources.len()
        invariant
            f == (|x: SourceState| x.object_id != object_id),
            s.sources@ == all,
            i <= all.len(),
            kept@ == all.take(i as int).filter(f),
        decreases all.len() - i,
    {
        let x = s.sources[i];
        proof {
            assert(all.take(i + 1) =~= all.take(i as int).push(all[i as int]));
            lemma_filter_push(all.take(i as int), f, all[i as int]);
        }
        if x.object_id != object_id {
            kept.push(x);
        }
        i = i + 1;
    }
    proof {
        assert(all.take(all.len() as int) =~= all);
        lemma_filter_distinct(all, f);
    }
    s.sources = kept;
}

proof fn lemma_filter_distinct(s: Seq<SourceState>, f: spec_fn(SourceState) -> bool)
    requires
        distinct_objects(s),
    ensures
        distinct_objects(s.filter(f)),
        forall|x: SourceState| s.filter(f).contains(x) ==> s.contains(x),
    decreases s.len(),
{
    reveal(Seq::filter);
    if s.len() > 0 {
        let pre = s.drop_last();
        assert(distinct_objects(pre)) by {
            assert forall|i: int, j: int| 0 <= i < j < pre.len() implies pre[i].object_id != pre[j].object_id by {
                assert(pre[i] == s[i] && pre[j] == s[j]);
            }
        }
        lemma_filter_distinct(pre, f);
        if f(s.last()) {
            let fp = pre.filter(f);
            assert forall|i: int, j: int| 0 <= i < j < fp.push(s.last()).len() implies fp.push(s.last())[i].object_id
                != fp.push(s.last())[j].object_id by {
                if j == fp.len() {
                    assert(fp.contains(fp[i]));
                    assert(pre.contains(fp[i]));
                    let k = choose|k: int| 0 <= k < pre.len() && pre[k] == fp[i];
                    assert(s[k] == pre[k]);
                }
            }
            assert forall|x: SourceState| fp.push(s.last()).contains(x) implies s.contains(x) by {
                let k = choose|k: int| 0 <= k < fp.push(s.last()).len() && fp.push(s.last())[k] == x;
                if k < fp.len() {
                    assert(fp[k] == x);
                    assert(fp.contains(x));
                    assert(pre.contains(x));
                    let m = choose|m: int| 0 <= m < pre.len() && pre[m] == x;
                    assert(s[m] == x);
                } else {
                    assert(s[s.len() - 1] == x);
                }
            }
        } else {
            assert forall|x: SourceState| pre.filter(f).contains(x) implies s.contains(x) by {
                assert(pre.contains(x));
                let m = choose|m: int| 0 <= m < pre.len() && pre[m] == x;
                assert(s[m] == x);
            }
        }
    }
}

fn set_muted_in(s: &mut StreamState, object_id: i32, muted: bool) -> (changed: bool)
    requires
        stream_wf(old(s)@),
    ensures
        stream_wf(final(s)@),
        final(s)@ == set_muted(old(s)@, object_id, muted),
        changed == exists|k: int| 0 <= k < old(s)@.sources.len() && old(s)@.sources[k].object_id == object_id
            && old(s)@.sources[k].muted != muted,
{
    let mut v: Vec<SourceState> = Vec::new();
    std::mem::swap(&mut v, &mut s.sources);
    let ghost all = v@;
    let mut changed = false;
    let mut i: usize = 0;
    while i < v.len()
        invariant
            v@.len() == all.len(),
            i <= all.len(),
            distinct_objects(all),
            forall|j: int| 0 <= j < i ==> v@[j] == (if all[j].object_id == object_id {
                SourceState { object_id, muted }
            } else {
                all[j]
            }),
            forall|j: int| i <= j < all.len() ==> v@[j] == all[j],
            changed == exists|k: int| 0 <= k < i && all[k].object_id == object_id && all[k].muted != muted,
        decreases all.len() - i,
    {
        let x = v[i];
        assert(all[i as int] == x);
        if x.object_id == object_id {
            if x.muted != muted {
                changed = true;
            }
            v.set(i, SourceState { object_id, muted });
        }
        i = i + 1;
    }
    proof {
        assert(v@ =~= set_muted(old(s)@, object_id, muted).sources);
        assert forall|a: int, b: int| 0 <= a < b < v@.len() implies v@[a].object_id != v@[b].object_id by {
            assert(all[a].object_id != all[b].object_id);
        }
    }
    s.sources = v;
    changed
}

impl AudioState {
    /// The sound of browser `browser` is heard from object `object_id` too:
    /// each of its streams gets a muted source for it, unless it has one.
    /// Gives back the sources to create, in the order of the streams.
    pub fn add_source(&mut self, browser: u32, object_id: i32) -> (added: Vec<SourceRef>)
        requires
            old(self).wf(),
        ensures
            final(self).wf(),
            final(self).paused == old(self).paused,
            views(final(self).streams@) == Seq::new(
                old(self).streams@.len(),
                |i: int| if old(self).streams@[i].browser == browser {
                    with_source(old(self).streams@[i]@, object_id)
                } else {
                    old(self).streams@[i]@
                },
            ),
            added@ == added_sources(views(old(self).streams@), browser, object_id),
    {
        let mut rest: Vec<StreamState> = Vec::new();
        std::mem::swap(&mut rest, &mut self.streams);
        let ghost all = rest@;
        let ghost g = |s: StreamView| if s.browser == browser { with_source(s, object_id) } else { s };
        let mut done: Vec<StreamState> = Vec::new();
        let mut added: Vec<SourceRef> = Vec::new();
        while rest.len() > 0
            invariant
                g == (|s: StreamView| if s.browser == browser { with_source(s, object_id) } else { s }),
                forall|i: int| 0 <= i < all.len() ==> stream_wf(#[trigger] all[i]@),
                rest@.len() <= all.len(),
                rest@ == all.subrange(all.len() - rest@.len(), all.len() as int),
                done@.len() == all.len() - rest@.len(),
                forall|i: int| 0 <= i < done@.len() ==> #[trigger] done@[i]@ == g(all[i]@),
                forall|i: int| 0 <= i < done@.len() ==> stream_wf(#[trigger] done@[i]@),
                added@ == added_sources(views(all.take(done@.len() as int)), browser, object_id),
            decreases rest@.len(),
        {
            let ghost n = done@.len() as int;
            let mut s = rest.remove(0);
            proof {
                assert(s == all[n]);
                assert(rest@ =~= all.subrange(n + 1, all.len() as int));
                assert(views(all.take(n + 1)).drop_last() =~= views(all.take(n)));
                assert(views(all.take(n + 1)).last() == all[n]@);
            }
            if s.browser == browser {
                let was_added = add_source_to(&mut s, object_id);
                if was_added {
                    added.push(SourceRef { browser: s.browser, stream_id: s.stream_id, object_id });
                }
            }
            let ghost before = done@;
            done.push(s);
            proof {
                assert forall|i: int| 0 <= i < done@.len() implies #[trigger] done@[i]@ == g(all[i]@) by {
                    if i < before.len() {
                        assert(done@[i] == before[i]);
                    }
                }
                assert forall|i: int| 0 <= i < done@.len() implies stream_wf(#[trigger] done@[i]@) by {
                    if i < before.len() {
                        assert(done@[i] == before[i]);
                    }
                }
            }
        }
        proof {
            assert(all.take(all.len() as int) =~= all);
            assert(views(done@) =~= Seq::new(all.len(), |i: int| if all[i].browser == browser {
                with_source(all[i]@, object_id)
            } else {
                all[i]@
            }));
        }
        self.streams = done;
        added
    }
}

impl AudioState {
    /// The sound of browser `browser` is no longer heard from object
    /// `object_id`.
    pub fn remove_source(&mut self, browser: u32, object_id: i32)
        requires
            old(self).wf(),
        ensures
            final(self).wf(),
            final(self).paused == old(self).paused,
            views(final(self).streams@) == Seq::new(
                old(self).streams@.len(),
                |i: int| if old(self).streams@[i].browser == browser {
                    without_source(old(self).streams@[i]@, object_id)
                } else {
                    old(self).streams@[i]@
                },
            ),
    {
        let mut rest: Vec<StreamState> = Vec::new();
        std::mem::swap(&mut rest, &mut self.streams);
        let ghost all = rest@;
        let ghost g = |s: StreamView| if s.browser == browser { without_source(s, object_id) } else { s };
        let mut done: Vec<StreamState> = Vec::new();
        while rest.len() > 0
            invariant
                g == (|s: StreamView| if s.browser == browser { without_source(s, object_id) } else { s }),
                forall|i: int| 0 <= i < all.len() ==> stream_wf(#[trigger] all[i]@),
                rest@.len() <= all.len(),
                rest@ == all.subrange(all.len() - rest@.len(), all.len() as int),
                done@.len() == all.len() - rest@.len(),
                forall|i: int| 0 <= i < done@.len() ==> #[trigger] done@[i]@ == g(all[i]@),
                forall|i: int| 0 <= i < done@.len() ==> stream_wf(#[trigger] done@[i]@),
            decreases rest@.len(),
        {
            let ghost n = done@.len() as int;
            let mut s = rest.remove(0);
            proof {
                assert(s == all[n]);
                assert(rest@ =~= all.subrange(n + 1, all.len() as int));
            }
            if s.browser == browser {
                remove_source_from(&mut s, object_id);
            }
            let ghost before = done@;
            done.push(s);
            proof {
                assert forall|i: int| 0 <= i < done@.len() implies #[trigger] done@[i]@ == g(all[i]@) by {
                    if i < before.len() {
                        assert(done@[i] == before[i]);
                    }
                }
                assert forall|i: int| 0 <= i < done@.len() implies stream_wf(#[trigger] done@[i]@) by {
                    if i < before.len() {
                        assert(done@[i] == before[i]);
                    }
                }
            }
        }
        proof {
            assert(views(done@) =~= Seq::new(all.len(), |i: int| if all[i].browser == browser {
                without_source(all[i]@, object_id)
            } else {
                all[i]@
            }));
        }
        self.streams = done;
    }

    fn set_object_muted(&mut self, object_id: i32, muted: bool) -> (changed: Vec<SourceRef>)
        requires
            old(self).wf(),
        ensures
            final(self).wf(),
            final(self).paused == old(self).paused,
            views(final(self).streams@) == Seq::new(
                old(self).streams@.len(),
                |i: int| set_muted(old(self).streams@[i]@, object_id, muted),
            ),
            changed@ == muting_changes(views(old(self).streams@), object_id, muted),
    {
        let mut rest: Vec<StreamState> = Vec::new();
        std::mem::swap(&mut rest, &mut self.streams);
        let ghost all = rest@;
        let mut done: Vec<StreamState> = Vec::new();
        let mut changed: Vec<SourceRef> = Vec::new();
        while rest.len() > 0
            invariant
                forall|i: int| 0 <= i < all.len() ==> stream_wf(#[trigger] all[i]@),
                rest@.len() <= all.len(),
                rest@ == all.subrange(all.len() - rest@.len(), all.len() as int),
                done@.len() == all.len() - rest@.len(),
                forall|i: int| 0 <= i < done@.len() ==> #[trigger] done@[i]@ == set_muted(all[i]@, object_id, muted),
                forall|i: int| 0 <= i < done@.len() ==> stream_wf(#[trigger] done@[i]@),
                changed@ == muting_changes(views(all.take(done@.len() as int)), object_id, muted),
            decreases rest@.len(),
        {
            let ghost n = done@.len() as int;
            let mut s = rest.remove(0);
            proof {
                assert(s == all[n]);
                assert(rest@ =~= all.subrange(n + 1, all.len() as int));
                assert(views(all.take(n + 1)).drop_last() =~= views(all.take(n)));
                assert(views(all.take(n + 1)).last() == all[n]@);
            }
            let browser = s.browser;
            let stream_id = s.stream_id;
            let was_changed = set_muted_in(&mut s, object_id, muted);
            if was_changed {
                changed.push(SourceRef { browser, stream_id, object_id });
            }
            let ghost before = done@;
            done.push(s);
            proof {
                assert forall|i: int| 0 <= i < done@.len() implies #[trigger] done@[i]@ == set_muted(all[i]@, object_id, muted) by {
                    if i < before.len() {
                        assert(done@[i] == before[i]);
                    }
                }
                assert forall|i: int| 0 <= i < done@.len() implies stream_wf(#[trigger] done@[i]@) by {
                    if i < before.len() {
                        assert(done@[i] == before[i]);
                    }
                }
            }
        }
        proof {
            assert(all.take(all.len() as int) =~= all);
            assert(views(done@) =~= Seq::new(all.len(), |i: int| set_muted(all[i]@, object_id, muted)));
        }
        self.streams = done;
        changed
    }

    /// The object is close to the player: its sources are placed at it (by
    /// the sound device) and the muted ones are heard again. Gives back the
    /// sources whose muting is lifted.
    pub fn set_object_settings(&mut self, object_id: i32) -> (unmuted: Vec<SourceRef>)
        requires
            old(self).wf(),
        ensures
            final(self).wf(),
            final(self).paused == old(self).paused,
            views(final(self).streams@) == Seq::new(
                old(self).streams@.len(),
                |i: int| set_muted(old(self).streams@[i]@, object_id, false),
            ),
            unmuted@ == muting_changes(views(old(self).streams@), object_id, false),
    {
        self.set_object_muted(object_id, false)
    }

    /// The object is gone or far from the player: its sources are muted.
    /// Gives back the sources muted now.
    pub fn object_mute(&mut self, object_id: i32) -> (muted: Vec<SourceRef>)
        requires
            old(self).wf(),
        ensures
            final(self).wf(),
            final(self).paused == old(self).paused,
            views(final(self).streams@) == Seq::new(
                old(self).streams@.len(),
                |i: int| set_muted(old(self).streams@[i]@, object_id, true),
            ),
            muted@ == muting_changes(views(old(self).streams@), object_id, true),
    {
        self.set_object_muted(object_id, true)
    }

    /// Pauses or resumes the sound. Pausing when it played drops what was
    /// waiting in every stream (the sound device is then silenced and its
    /// queues emptied), which the result says.
    pub fn set_paused(&mut self, paused: bool) -> (reset: bool)
        requires
            old(self).wf(),
        ensures
            final(self).wf(),
            final(self).paused == paused,
            reset == (!old(self).paused && paused),
            reset ==> views(final(self).streams@) == Seq::new(
                old(self).streams@.len(),
                |i: int| cleared(old(self).streams@[i]@),
            ),
            !reset ==> views(final(self).streams@) == views(old(self).streams@),
    {
        let prev = self.paused;
        self.paused = paused;
        if prev != paused && paused {
            let mut rest: Vec<StreamState> = Vec::new();
            std::mem::swap(&mut rest, &mut self.streams);
            let ghost all = rest@;
            let mut done: Vec<StreamState> = Vec::new();
            while rest.len() > 0
                invariant
                    forall|i: int| 0 <= i < all.len() ==> stream_wf(#[trigger] all[i]@),
                    rest@.len() <= all.len(),
                    rest@ == all.subrange(all.len() - rest@.len(), all.len() as int),
                    done@.len() == all.len() - rest@.len(),
                    forall|i: int| 0 <= i < done@.len() ==> #[trigger] done@[i]@ == cleared(all[i]@),
                    forall|i: int| 0 <= i < done@.len() ==> stream_wf(#[trigger] done@[i]@),
                decreases rest@.len(),
            {
                let ghost n = done@.len() as int;
                let mut s = rest.remove(0);
                proof {
                    assert(s == all[n]);
                    assert(rest@ =~= all.subrange(n + 1, all.len() as int));
                }
                s.pending = Vec::new();
                let ghost before = done@;
                done.push(s);
                proof {
                    assert(done@[n]@ =~= cleared(all[n]@));
                    assert forall|i: int| 0 <= i < done@.len() implies #[trigger] done@[i]@ == cleared(all[i]@) by {
                        if i < before.len() {
                            assert(done@[i] == before[i]);
                        }
                    }
                    assert forall|i: int| 0 <= i < done@.len() implies stream_wf(#[trigger] done@[i]@) by {
                        if i < before.len() {
                            assert(done@[i] == before[i]);
                        }
                    }
                }
            }
            proof {
                assert(views(done@) =~= Seq::new(all.len(), |i: int| cleared(all[i]@)));
            }
            self.streams = done;
            true
        } else {
            false
        }
    }

    /// The game's volume applies only while sound plays.
    pub fn gain_applies(&self) -> (b: bool)
        ensures
            b == !self.paused,
    {
        !self.paused
    }
}

/// `s` waiting for one more piece, at `pts` (a piece already waiting at
/// that time is replaced).
pub open spec fn with_pending(s: StreamView, pts: u64) -> StreamView {
    StreamView { pending: insert_sorted_spec(s.pending, pts), ..s }
}

/// The increasing sequence `s` with `x` added where it belongs, unless there.
pub open spec fn insert_sorted_spec(s: Seq<u64>, x: u64) -> Seq<u64>
    decreases s.len(),
{
    if s.len() == 0 {
        seq![x]
    } else if s.last() < x {
        s.push(x)
    } else if s.last() == x {
        s
    } else {
        insert_sorted_spec(s.drop_last(), x).push(s.last())
    }
}

proof fn lemma_insert_sorted(s: Seq<u64>, x: u64)
    requires
        increasing(s),
    ensures
        increasing(insert_sorted_spec(s, x)),
        insert_sorted_spec(s, x).to_set() == s.to_set().insert(x),
        insert_sorted_spec(s, x).len() > 0,
        s.len() > 0 ==> insert_sorted_spec(s, x).last() == if x > s.last() { x } else { s.last() },
    decreases s.len(),
{
    if s.len() == 0 {
        assert(seq![x].to_set() =~= Set::<u64>::empty().insert(x)) by {
            assert(seq![x][0] == x);
        }
        assert(s.to_set() =~= Set::<u64>::empty());
    } else if s.last() < x {
        assert(s.push(x).to_set() =~= s.to_set().insert(x)) by {
            assert forall|y: u64| s.push(x).to_set().contains(y) <==> s.to_set().insert(x).contains(y) by {
                if s.push(x).contains(y) {
                    let k = choose|k: int| 0 <= k < s.push(x).len() && s.push(x)[k] == y;
                    if k < s.len() {
                        assert(s[k] == y);
                    }
                }
                if s.contains(y) {
                    let k = choose|k: int| 0 <= k < s.len() && s[k] == y;
                    assert(s.push(x)[k] == y);
                }
                if y == x {
                    assert(s.push(x)[s.len() as int] == y);
                }
            }
        }
    } else if s.last() == x {
        assert(s.to_set().insert(x) =~= s.to_set()) by {
            assert(s[s.len() - 1] == x);
            assert(s.contains(x));
        }
    } else {
        let pre = s.drop_last();
        assert(increasing(pre)) by {
            assert forall|i: int, j: int| 0 <= i < j < pre.len() implies pre[i] < pre[j] by {
                assert(pre[i] == s[i] && pre[j] == s[j]);
            }
        }
        lemma_insert_sorted(pre, x);
        let r = insert_sorted_spec(pre, x);
        let l = s.last();
        assert(increasing(r.push(l))) by {
            assert forall|i: int, j: int| 0 <= i < j < r.push(l).len() implies r.push(l)[i] < r.push(l)[j] by {
                if j == r.len() {
                    assert(r.to_set().contains(r[i]));
                    assert(pre.to_set().insert(x).contains(r[i]));
                    if r[i] != x {
                        assert(pre.contains(r[i]));
                        let k = choose|k: int| 0 <= k < pre.len() && pre[k] == r[i];
                        assert(s[k] == pre[k]);
                        assert(s[k] < s[s.len() - 1]);
                    }
                }
            }
        }
        assert(r.push(l).to_set() =~= s.to_set().insert(x)) by {
            assert(s =~= pre.push(l));
            assert forall|y: u64| r.push(l).to_set().contains(y) <==> s.to_set().insert(x).contains(y) by {
                if r.push(l).contains(y) {
                    let k = choose|k: int| 0 <= k < r.push(l).len() && r.push(l)[k] == y;
                    if k < r.len() {
                        assert(r[k] == y);
                        assert(r.to_set().contains(y));
                        if y != x {
                            assert(pre.contains(y));
                            let m = choose|m: int| 0 <= m < pre.len() && pre[m] == y;
                            assert(s[m] == y);
                        }
                    } else {
                        assert(s[s.len() - 1] == y);
                    }
                }
                if s.contains(y) {
                    let k = choose|k: int| 0 <= k < s.len() && s[k] == y;
                    if k < pre.len() {
                        assert(pre[k] == y);
                        assert(pre.to_set().insert(x).contains(y));
                        assert(r.to_set().contains(y));
                        let m = choose|m: int| 0 <= m < r.len() && r[m] == y;
                        assert(r.push(l)[m] == y);
                    } else {
                        assert(r.push(l)[r.len() as int] == y);
                    }
                }
                if y == x {
                    assert(r.to_set().contains(x));
                    let m = choose|m: int| 0 <= m < r.len() && r[m] == x;
                    assert(r.push(l)[m] == x);
                }
            }
        }
    }
}

fn insert_sorted(v: &mut Vec<u64>, x: u64)
    requires
        increasing(old(v)@),
    ensures
        final(v)@ == insert_sorted_spec(old(v)@, x),
{
    let ghost s0 = v@;
    let mut i: usize = v.len();
    while i > 0 && v[i - 1] >= x
        invariant
            v@ == s0,
            i <= s0.len(),
            increasing(s0),
            forall|j: int| i <= j < s0.len() ==> x < s0[j],
        decreases i,
    {
        if v[i - 1] == x {
            proof {
                lemma_insert_sorted_at_equal(s0, x, i - 1);
            }
            return;
        }
        i = i - 1;
    }
    proof {
        lemma_insert_sorted_at(s0, x, i as int);
    }
    v.insert(i, x);
}

proof fn lemma_insert_sorted_at_equal(s: Seq<u64>, x: u64, k: int)
    requires
        increasing(s),
        0 <= k < s.len(),
        s[k] == x,
    ensures
        insert_sorted_spec(s, x) == s,
    decreases s.len(),
{
    if s.last() != x {
        let pre = s.drop_last();
        assert(increasing(pre)) by {
            assert forall|i: int, j: int| 0 <= i < j < pre.len() implies pre[i] < pre[j] by {
                assert(pre[i] == s[i] && pre[j] == s[j]);
            }
        }
        assert(k < s.len() - 1);
        assert(pre[k] == x);
        assert(s.last() > x);
        lemma_insert_sorted_at_equal(pre, x, k);
        assert(s =~= pre.push(s.last()));
    }
}

proof fn lemma_insert_sorted_at(s: Seq<u64>, x: u64, i: int)
    requires
        increasing(s),
        0 <= i <= s.len(),
        forall|j: int| i <= j < s.len() ==> x < s[j],
        i > 0 ==> s[i - 1] < x,
    ensures
        insert_sorted_spec(s, x) == s.insert(i, x),
    decreases s.len(),
{
    if s.len() == 0 {
        assert(s.insert(i, x) =~= seq![x]);
    } else if s.last() < x {
        assert(i == s.len());
        assert(s.insert(i, x) =~= s.push(x));
    } else {
        let pre = s.drop_last();
        assert(increasing(pre)) by {
            assert forall|a: int, b: int| 0 <= a < b < pre.len() implies pre[a] < pre[b] by {
                assert(pre[a] == s[a] && pre[b] == s[b]);
            }
        }
        assert(i < s.len());
        lemma_insert_sorted_at(pre, x, i);
        assert(s.insert(i, x) =~= pre.insert(i, x).push(s.last()));
    }
}

/// What waits and is not yet played: the pieces after the last one queued.
pub open spec fn after_played(s: StreamView) -> StreamView {
    StreamView { pending: s.pending.filter(|p: u64| p > s.last_pts), ..s }
}

/// Whether a waiting piece at `pts` is queued now, at time `now` (in
/// milliseconds): when it is due within two milliseconds either way, or it
/// follows the last piece queued without a gap (`next_tick`).
pub fn queue_now(pts: u64, now: i128, next_tick: u64) -> (b: bool)
    ensures
        b == ((pts - now <= 2 && now - pts <= 2) || pts == next_tick),
{
    let p = pts as i128;
    (p - 2 <= now && now <= p + 2) || pts == next_tick
}

impl AudioState {
    /// Whether a piece of sound is taken: not while paused, not an empty one
    /// or one without data, and not one whose time (`pts`, in
    /// milliseconds) is already past at `now`.
    pub fn accept_pcm(&self, frames: i32, has_data: bool, now: i128, pts: u64) -> (b: bool)
        ensures
            b == (!self.paused && frames != 0 && has_data && now - pts <= 0),
    {
        if self.paused {
            return false;
        }
        if frames == 0 || !has_data {
            return false;
        }
        now <= pts as i128
    }

    /// A piece of sound at `pts` arrived for a browser's stream: the first
    /// stream of that browser with that id waits for it. Gives back whether
    /// there was such a stream.
    pub fn insert_pending(&mut self, browser: u32, stream_id: i32, pts: u64) -> (found: bool)
        requires
            old(self).wf(),
        ensures
            final(self).wf(),
            final(self).paused == old(self).paused,
            found == find_stream(views(old(self).streams@), browser, stream_id) is Some,
            views(final(self).streams@) == (match find_stream(views(old(self).streams@), browser, stream_id) {
                Some(k) => views(old(self).streams@).update(k, with_pending(views(old(self).streams@)[k], pts)),
                None => views(old(self).streams@),
            }),
    {
        match self.find(browser, stream_id) {
            Some(k) => {
                let ghost before = self.streams@;
                let mut s = self.streams.remove(k);
                proof {
                    assert(s == before[k as int]);
                    assert(stream_wf(s@));
                    lemma_insert_sorted(s.pending@, pts);
                }
                insert_sorted(&mut s.pending, pts);
                self.streams.insert(k, s);
                proof {
                    assert(self.streams@ =~= before.update(k as int, s));
                    assert(views(self.streams@) =~= views(before).update(k as int, with_pending(views(before)[k as int], pts)));
                    assert forall|i: int| 0 <= i < self.streams@.len() implies stream_wf(#[trigger] self.streams@[i]@) by {
                        if i != k {
                            assert(self.streams@[i] == before[i]);
                        }
                    }
                }
                true
            },
            None => false,
        }
    }

    /// The piece at `pts`, of `frames` frames, was queued on stream `index`.
    pub fn played(&mut self, index: usize, pts: u64, frames: usize)
        requires
            old(self).wf(),
            index < old(self).streams@.len(),
        ensures
            final(self).wf(),
            final(self).paused == old(self).paused,
            views(final(self).streams@) == views(old(self).streams@).update(
                index as int,
                StreamView { last_pts: pts, last_frame_len: frames, ..views(old(self).streams@)[index as int] },
            ),
    {
        let ghost before = self.streams@;
        let mut s = self.streams.remove(index);
        s.last_pts = pts;
        s.last_frame_len = frames;
        self.streams.insert(index, s);
        proof {
            assert(self.streams@ =~= before.update(index as int, s));
            assert(views(self.streams@) =~= views(before).update(
                index as int,
                StreamView { last_pts: pts, last_frame_len: frames, ..views(before)[index as int] },
            ));
            assert forall|i: int| 0 <= i < self.streams@.len() implies stream_wf(#[trigger] self.streams@[i]@) by {
                if i != index {
                    assert(self.streams@[i] == before[i]);
                } else {
                    assert(s.pending@ == before[i].pending@);
                }
            }
        }
    }

    /// Drops from stream `index` the pieces up to the last one queued; gives
    /// back their times, in order.
    pub fn drop_played(&mut self, index: usize) -> (dropped: Vec<u64>)
        requires
            old(self).wf(),
            index < old(self).streams@.len(),
        ensures
            final(self).wf(),
            final(self).paused == old(self).paused,
            views(final(self).streams@) == views(old(self).streams@).update(
                index as int,
                after_played(views(old(self).streams@)[index as int]),
            ),
            dropped@ == old(self).streams@[index as int].pending@.filter(
                |p: u64| p <= old(self).streams@[index as int].last_pts,
            ),
    {
        let ghost before = self.streams@;
        let mut s = self.streams.remove(index);
        proof {
            assert(s == before[index as int]);
            assert(stream_wf(before[index as int]@));
        }
        let last = s.last_pts;
        let ghost all = s.pending@;
        let ghost keep = |p: u64| p > last;
        let ghost gone = |p: u64| p <= last;
        let mut kept: Vec<u64> = Vec::new();
        let mut dropped: Vec<u64> = Vec::new();
        let mut i: usize = 0;
        while i < s.pending.len()
            invariant
                keep == (|p: u64| p > last),
                gone == (|p: u64| p <= last),
                s.pending@ == all,
                i <= all.len(),
                kept@ == all.take(i as int).filter(keep),
                dropped@ == all.take(i as int).filter(gone),
            decreases all.len() - i,
        {
            let p = s.pending[i];
            proof {
                assert(all.take(i + 1) =~= all.take(i as int).push(all[i as int]));
                lemma_filter_push(all.take(i as int), keep, all[i as int]);
                lemma_filter_push(all.take(i as int), gone, all[i as int]);
            }
            if p > last {
                kept.push(p);
            } else {
                dropped.push(p);
            }
            i = i + 1;
        }
        proof {
            assert(all.take(all.len() as int) =~= all);
            lemma_filter_increasing(all, keep);
        }
        s.pending = kept;
        self.streams.insert(index, s);
        proof {
            assert(self.streams@ =~= before.update(index as int, s));
            assert(views(self.streams@) =~= views(before).update(index as int, after_played(views(before)[index as int])));
            assert forall|i: int| 0 <= i < self.streams@.len() implies stream_wf(#[trigger] self.streams@[i]@) by {
                if i != index {
                    assert(self.streams@[i] == before[i]);
                }
            }
        }
        dropped
    }
}

proof fn lemma_filter_increasing(s: Seq<u64>, f: spec_fn(u64) -> bool)
    requires
        increasing(s),
    ensures
        increasing(s.filter(f)),
        forall|y: u64| s.filter(f).contains(y) ==> s.contains(y),
    decreases s.len(),
{
    reveal(Seq::filter);
    if s.len() > 0 {
        let pre = s.drop_last();
        assert(increasing(pre)) by {
            assert forall|i: int, j: int| 0 <= i < j < pre.len() implies pre[i] < pre[j] by {
                assert(pre[i] == s[i] && pre[j] == s[j]);
            }
        }
        lemma_filter_increasing(pre, f);
        let fp = pre.filter(f);
        if f(s.last()) {
            assert forall|i: int, j: int| 0 <= i < j < fp.push(s.last()).len() implies fp.push(s.last())[i]
                < fp.push(s.last())[j] by {
                if j == fp.len() {
                    assert(fp.contains(fp[i]));
                    assert(pre.contains(fp[i]));
                    let k = choose|k: int| 0 <= k < pre.len() && pre[k] == fp[i];
                    assert(s[k] == pre[k]);
                }
            }
            assert forall|y: u64| fp.push(s.last()).contains(y) implies s.contains(y) by {
                let k = choose|k: int| 0 <= k < fp.push(s.last()).len() && fp.push(s.last())[k] == y;
                if k < fp.len() {
                    assert(fp[k] == y);
                    assert(fp.contains(y));
                    assert(pre.contains(y));
                    let m = choose|m: int| 0 <= m < pre.len() && pre[m] == y;
                    assert(s[m] == y);
                } else {
                    assert(s[s.len() - 1] == y);
                }
            }
        } else {
            assert forall|y: u64| fp.contains(y) implies s.contains(y) by {
                assert(pre.contains(y));
                let m = choose|m: int| 0 <= m < pre.len() && pre[m] == y;
                assert(s[m] == y);
            }
        }
    }
}

proof fn lemma_filter_all<A>(s: Seq<A>, f: spec_fn(A) -> bool)
    requires
        forall|i: int| 0 <= i < s.len() ==> f(s[i]),
    ensures
        s.filter(f) == s,
    decreases s.len(),
{
    reveal(Seq::filter);
    if s.len() > 0 {
        lemma_filter_all(s.drop_last(), f);
        assert(s.drop_last().push(s.last()) =~= s);
    }
}

/// Hearing a stream from an object and then no longer leaves the stream as
/// it was.
pub proof fn law_add_then_remove_source(s: StreamView, object_id: i32)
    requires
        !has_object(s.sources, object_id),
    ensures
        without_source(with_source(s, object_id), object_id) == s,
{
    let f = |x: SourceState| x.object_id != object_id;
    let src = SourceState { object_id, muted: true };
    lemma_filter_push(s.sources, f, src);
    lemma_filter_all(s.sources, f);
    assert(without_source(with_source(s, object_id), object_id).sources =~= s.sources);
}

/// Muting an object's sound and then hearing it again is the same as only
/// hearing it: every source of the object ends unmuted.
pub proof fn law_mute_then_unmute(s: StreamView, object_id: i32)
    ensures
        set_muted(set_muted(s, object_id, true), object_id, false) == set_muted(s, object_id, false),
        forall|k: int| 0 <= k < s.sources.len() && s.sources[k].object_id == object_id ==>
            !(#[trigger] set_muted(s, object_id, false).sources[k]).muted,
{
    assert(set_muted(set_muted(s, object_id, true), object_id, false).sources =~= set_muted(s, object_id, false).sources);
}

/// A piece of sound that arrives twice waits once.
pub proof fn law_pending_once(s: StreamView, pts: u64)
    requires
        stream_wf(s),
    ensures
        with_pending(with_pending(s, pts), pts) == with_pending(s, pts),
        with_pending(s, pts).pending.contains(pts),
{
    lemma_insert_sorted(s.pending, pts);
    let r = insert_sorted_spec(s.pending, pts);
    assert(r.to_set().contains(pts));
    let k = choose|k: int| 0 <= k < r.len() && r[k] == pts;
    lemma_insert_sorted_at_equal(r, pts, k);
}
} // verus!
