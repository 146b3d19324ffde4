//! Plugins loaded from the `plugins` directory: which of their entry points
//! are called for each event of the client, and in what order.
use vstd::prelude::*;
use crate::paths::{split_path, split_path_spec, file_extension};
use crate::assets::path_extension;
use crate::text::str_eq;

verus! {

/// An entry point that a plugin may export.
#[derive(Clone, Copy, PartialEq, Eq, Structural)]
pub enum EntryPoint {
    Initialize,
    Mainloop,
    DxReset,
    Connect,
    Disconnect,
    Quit,
    BrowserCreated,
}

/// The entry points that one loaded plugin exports.
#[derive(Clone, Copy)]
pub struct ExtPlugin {
    pub initialize: bool,
    pub mainloop: bool,
    pub dxreset: bool,
    pub connect: bool,
    pub disconnect: bool,
    pub quit: bool,
    pub browser_created: bool,
}

pub open spec fn exports(p: ExtPlugin, e: EntryPoint) -> bool {
    match e {
        EntryPoint::Initialize => p.initialize,
        EntryPoint::Mainloop => p.mainloop,
        EntryPoint::DxReset => p.dxreset,
        EntryPoint::Connect => p.connect,
        EntryPoint::Disconnect => p.disconnect,
        EntryPoint::Quit => p.quit,
        EntryPoint::BrowserCreated => p.browser_created,
    }
}

/// The positions of the plugins that export `e`, in load order.
pub open spec fn exporters(ps: Seq<ExtPlugin>, e: EntryPoint) -> Seq<usize>
    decreases ps.len(),
{
    if ps.len() == 0 {
        seq![]
    } else {
        let prev = exporters(ps.drop_last(), e);
        if exports(ps.last(), e) {
            prev.push((ps.len() - 1) as usize)
        } else {
            prev
        }
    }
}

/// The plugins that were loaded, and whether the game window is active.
pub struct ExternalManager {
    pub plugins: Vec<ExtPlugin>,
    pub window_active: bool,
}

impl ExternalManager {
    /// No plugins yet; the window counts as active.
    pub fn new() -> (m: ExternalManager)
        ensures
            m.plugins@.len() == 0,
            m.window_active,
    {
        ExternalManager { plugins: Vec::new(), window_active: true }
    }

    /// Records a plugin that was loaded, after those loaded before it.
    pub fn add_plugin(&mut self, plugin: ExtPlugin)
        ensures
            final(self).plugins@ == old(self).plugins@.push(plugin),
            final(self).window_active == old(self).window_active,
    {
        self.plugins.push(plugin);
    }
}

/// The plugins kept from the entries `names` of the plugins directory, in its
/// order, where `loads` says what loading each entry gave: the entries whose
/// file has the extension `dll` and that loaded.
pub open spec fn kept_plugins(names: Seq<Seq<char>>, loads: Seq<Option<ExtPlugin>>) -> Seq<ExtPlugin>
    decreases names.len(),
{
    if names.len() == 0 || loads.len() == 0 {
        seq![]
    } else {
        let prev = kept_plugins(names.drop_last(), loads.drop_last());
        if path_extension(split_path_spec(names.last())) == Some("dll"@) && loads.last() is Some {
            prev.push(loads.last().unwrap())
        } else {
            prev
        }
    }
}

/// Sets up the plugins from the entries `names` of the plugins directory and
/// what loading each of them gave (`None` where it was not loaded): the
/// `dll` files that loaded, in the directory's order; the window counts as
/// active.
pub fn plugins_from_dir(names: &Vec<String>, loads: Vec<Option<ExtPlugin>>) -> (m: ExternalManager)
    requires
        names@.len() == loads@.len(),
    ensures
        m.plugins@ == kept_plugins(names@.map_values(|n: String| n@), loads@),
        m.window_active,
{
    let mut m = ExternalManager::new();
    let ghost nv = names@.map_values(|n: String| n@);
    let mut i: usize = 0;
    while i < names.len()
        invariant
            names@.len() == loads@.len(),
            nv == names@.map_values(|n: String| n@),
            i <= names@.len(),
            m.window_active,
            m.plugins@ == kept_plugins(nv.take(i as int), loads@.take(i as int)),
        decreases names@.len() - i,
    {
        proof {
            assert(nv.take(i + 1).drop_last() =~= nv.take(i as int));
            assert(loads@.take(i + 1).drop_last() =~= loads@.take(i as int));
            assert(nv.take(i + 1).last() == names@[i as int]@);
            assert(loads@.take(i + 1).last() == loads@[i as int]);
        }
        if is_plugin_file(names[i].as_str()) {
            match loads[i] {
                Some(p) => m.add_plugin(p),
                None => {},
            }
        }
        i = i + 1;
    }
    proof {
        assert(nv.take(names@.len() as int) =~= nv);
        assert(loads@.take(loads@.len() as int) =~= loads@);
    }
    m
}

fn plugin_exports(p: &ExtPlugin, e: EntryPoint) -> (b: bool)
    ensures
        b == exports(*p, e),
{
    match e {
        EntryPoint::Initialize => p.initialize,
        EntryPoint::Mainloop => p.mainloop,
        EntryPoint::DxReset => p.dxreset,
        EntryPoint::Connect => p.connect,
        EntryPoint::Disconnect => p.disconnect,
        EntryPoint::Quit => p.quit,
        EntryPoint::BrowserCreated => p.browser_created,
    }
}

/// The plugins whose entry point `e` is to be called, in load order; none
/// before the plugins have been set up.
pub open spec fn callees(ext: Option<ExternalManager>, e: EntryPoint) -> Seq<usize> {
    match ext {
        Some(m) => exporters(m.plugins@, e),
        None => seq![],
    }
}

/// The positions of the plugins that export `e`.
pub fn callable(ext: &Option<ExternalManager>, e: EntryPoint) -> (r: Vec<usize>)
    ensures
        r@ == callees(*ext, e),
{
    let mut r: Vec<usize> = Vec::new();
    match ext {
        None => r,
        Some(m) => {
            let mut i: usize = 0;
            while i < m.plugins.len()
                invariant
                    i <= m.plugins@.len(),
                    r@ == exporters(m.plugins@.take(i as int), e),
                decreases m.plugins@.len() - i,
            {
                proof {
                    assert(m.plugins@.take(i + 1).drop_last() =~= m.plugins@.take(i as int));
                    assert(m.plugins@.take(i + 1).last() == m.plugins@[i as int]);
                }
                if plugin_exports(&m.plugins[i], e) {
                    r.push(i);
                }
                i = i + 1;
            }
            proof {
                assert(m.plugins@.take(m.plugins@.len() as int) =~= m.plugins@);
            }
            r
        },
    }
}

/// The plugins whose `cef_samp_mainloop` runs on each game frame.
pub fn call_mainloop(ext: &Option<ExternalManager>) -> (r: Vec<usize>)
    ensures
        r@ == callees(*ext, EntryPoint::Mainloop),
{
    callable(ext, EntryPoint::Mainloop)
}

/// The plugins whose `cef_dxreset` runs when the device is reset.
pub fn call_dxreset(ext: &Option<ExternalManager>) -> (r: Vec<usize>)
    ensures
        r@ == callees(*ext, EntryPoint::DxReset),
{
    callable(ext, EntryPoint::DxReset)
}

/// The plugins whose `cef_initialize` runs once CEF is ready; each gets the
/// table of client functions.
pub fn call_initialize(ext: &Option<ExternalManager>) -> (r: Vec<usize>)
    ensures
        r@ == callees(*ext, EntryPoint::Initialize),
{
    callable(ext, EntryPoint::Initialize)
}

/// The plugins whose `cef_connect` runs on connecting to a server.
pub fn call_connect(ext: &Option<ExternalManager>) -> (r: Vec<usize>)
    ensures
        r@ == callees(*ext, EntryPoint::Connect),
{
    callable(ext, EntryPoint::Connect)
}

/// The plugins whose `cef_disconnect` runs on leaving a server.
pub fn call_disconnect(ext: &Option<ExternalManager>) -> (r: Vec<usize>)
    ensures
        r@ == callees(*ext, EntryPoint::Disconnect),
{
    callable(ext, EntryPoint::Disconnect)
}

/// The plugins whose `cef_browser_created` runs when a browser has loaded;
/// each gets the browser's id and the status code.
pub fn browser_created(ext: &Option<ExternalManager>, browser_id: u32, status_code: i32) -> (r: Vec<
    usize,
>)
    ensures
        r@ == callees(*ext, EntryPoint::BrowserCreated),
{
    callable(ext, EntryPoint::BrowserCreated)
}

/// Unloads every plugin; gives back those whose `cef_quit` runs first.
pub fn quit(ext: &mut Option<ExternalManager>) -> (r: Vec<usize>)
    ensures
        r@ == callees(*old(ext), EntryPoint::Quit),
        match *final(ext) {
            Some(m) => *old(ext) matches Some(o) && m.plugins@.len() == 0 && m.window_active
                == o.window_active,
            None => *old(ext) is None,
        },
{
    let r = callable(ext, EntryPoint::Quit);
    match ext {
        Some(m) => {
            m.plugins = Vec::new();
        },
        None => {},
    }
    r
}

/// Records whether the game window is active.
pub fn window_active(ext: &mut Option<ExternalManager>, active: bool)
    ensures
        match *final(ext) {
            Some(m) => *old(ext) matches Some(o) && m.window_active == active && m.plugins
                == o.plugins,
            None => *old(ext) is None,
        },
{
    match ext {
        Some(m) => {
            m.window_active = active;
        },
        None => {},
    }
}

/// Whether the game window is active, as plugins are told: never before the
/// plugins have been set up.
pub fn gta_window_active(ext: &Option<ExternalManager>) -> (b: bool)
    ensures
        b == (ext matches Some(m) && m.window_active),
{
    match ext {
        Some(m) => m.window_active,
        None => false,
    }
}

/// A file of the plugins directory is loaded when its extension is `dll`.
pub fn is_plugin_file(path: &str) -> (b: bool)
    ensures
        b == (path_extension(split_path_spec(path@)) == Some("dll"@)),
{
    let parts = split_path(path);
    match file_extension(&parts) {
        Some(e) => str_eq(e.as_str(), "dll"),
        None => false,
    }
}

/// Once unloaded, no plugin is called for any event: after `quit`, the
/// manager holds no plugins, and then no entry point has a callee.
pub proof fn law_quit_silences_plugins(after: Option<ExternalManager>, e: EntryPoint)
    requires
        after matches Some(m) ==> m.plugins@.len() == 0,
    ensures
        callees(after, e).len() == 0,
{
}

/// The plugins called for an event are exactly those that export its entry
/// point, each once, in load order.
pub proof fn law_callees_are_exporters(ps: Seq<ExtPlugin>, e: EntryPoint)
    requires
        ps.len() <= usize::MAX,
    ensures
        forall|k: int| 0 <= k < exporters(ps, e).len() ==> (exporters(ps, e)[k] as int) < ps.len()
            && exports(ps[exporters(ps, e)[k] as int], e),
        forall|k: int, l: int| 0 <= k < l < exporters(ps, e).len() ==> exporters(ps, e)[k] < exporters(ps, e)[l],
        forall|i: int| 0 <= i < ps.len() && exports(ps[i], e) ==> exporters(ps, e).contains(i as usize),
    decreases ps.len(),
{
    if ps.len() > 0 {
        let prev = ps.drop_last();
        law_callees_are_exporters(prev, e);
        assert(forall|i: int| 0 <= i < prev.len() ==> prev[i] == ps[i]);
        let ex = exporters(ps, e);
        let pe = exporters(prev, e);
        let last: usize = (ps.len() - 1) as usize;
        assert(last as int == ps.len() - 1);
        if exports(ps.last(), e) {
            assert(ex == pe.push(last));
            assert forall|k: int| 0 <= k < ex.len() implies (ex[k] as int) < ps.len() && exports(ps[ex[k] as int], e) by {
                if k < pe.len() {
                    assert(ex[k] == pe[k]);
                } else {
                    assert(ex[k] == last);
                }
            }
            assert forall|k: int, l: int| 0 <= k < l < ex.len() implies ex[k] < ex[l] by {
                if l < pe.len() {
                    assert(ex[k] == pe[k] && ex[l] == pe[l]);
                } else {
                    assert(ex[k] == pe[k]);
                    assert(ex[l] == last);
                }
            }
            assert forall|i: int| 0 <= i < ps.len() && exports(ps[i], e) implies ex.contains(i as usize) by {
                if i < ps.len() - 1 {
                    let k = choose|k: int| 0 <= k < pe.len() && pe[k] == i as usize;
                    assert(ex[k] == i as usize);
                } else {
                    assert(ex[pe.len() as int] == i as usize);
                }
            }
        } else {
            assert(ex == pe);
            assert forall|i: int| 0 <= i < ps.len() && exports(ps[i], e) implies ex.contains(i as usize) by {
                assert(i < ps.len() - 1);
            }
        }
    }
}

} // verus!
