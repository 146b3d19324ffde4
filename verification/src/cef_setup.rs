//! How CEF is set up for the game: the switches its command line gets and
//! where its files are, below the CEF directory.
use vstd::prelude::*;
use crate::paths::{Part, PathPart, parts_view, split_path, split_path_spec, join, join_spec, render, render_spec};

verus! {

/// A command-line switch, with its value if it takes one.
pub struct Switch {
    pub name: String,
    pub value: Option<String>,
}

pub open spec fn switch_view(s: Switch) -> (Seq<char>, Option<Seq<char>>) {
    (s.name@, match s.value { Some(v) => Some(v@), None => None })
}

/// The switches of every CEF process: no GPU, frames on demand, sound
/// without a user gesture, and media streams.
pub open spec fn switches_spec() -> Seq<(Seq<char>, Option<Seq<char>>)> {
    seq![
        ("disable-gpu-compositing"@, None),
        ("disable-gpu"@, None),
        ("enable-begin-frame-scheduling"@, None),
        ("autoplay-policy"@, Some("no-user-gesture-required"@)),
        ("enable-media-stream"@, None),
    ]
}

fn switch(name: &str, value: Option<&str>) -> (s: Switch)
    ensures
        switch_view(s) == (name@, match value { Some(v) => Some(v@), None => None }),
{
    Switch {
        name: name.to_owned(),
        value: match value {
            Some(v) => Some(v.to_owned()),
            None => None,
        },
    }
}

/// The switches appended to CEF's command line, in order.
pub fn command_line_switches() -> (v: Vec<Switch>)
    ensures
        v@.map_values(|s: Switch| switch_view(s)) == switches_spec(),
{
    let mut v: Vec<Switch> = Vec::new();
    v.push(switch("disable-gpu-compositing", None));
    v.push(switch("disable-gpu", None));
    v.push(switch("enable-begin-frame-scheduling", None));
    v.push(switch("autoplay-policy", Some("no-user-gesture-required")));
    v.push(switch("enable-media-stream", None));
    proof {
        assert(v@.map_values(|s: Switch| switch_view(s)) =~= switches_spec());
    }
    v
}

/// The frame rate asked of windowless browsers.
pub const WINDOWLESS_FRAME_RATE: i32 = 60;

/// `name` in the directory `dir`.
pub open spec fn in_dir(dir: Seq<char>, name: Seq<char>) -> Seq<char> {
    render_spec(join_spec(split_path_spec(dir), seq![Part::Normal(name)]))
}

/// Names `name` in the directory `dir`.
pub fn file_in(dir: &str, name: &str) -> (p: String)
    ensures
        p@ == in_dir(dir@, name@),
{
    let parts = split_path(dir);
    let mut tail: Vec<PathPart> = Vec::new();
    tail.push(PathPart::Normal(name.to_owned()));
    proof {
        assert(parts_view(tail@) =~= seq![Part::Normal(name@)]);
    }
    render(&join(&parts, &tail))
}

/// Where CEF's files are.
pub struct CefPaths {
    /// The program run for CEF's other processes.
    pub subprocess: String,
    pub cache: String,
    pub locales: String,
    pub resources: String,
    pub log_file: String,
    pub user_data: String,
}

impl CefPaths {
    /// The files of CEF below the CEF directory `cef_dir`, which holds its
    /// resources itself.
    pub fn in_cef_dir(cef_dir: &str) -> (p: CefPaths)
        ensures
            p.subprocess@ == in_dir(cef_dir@, "renderer.exe"@),
            p.cache@ == in_dir(cef_dir@, "cache"@),
            p.locales@ == in_dir(cef_dir@, "locales"@),
            p.resources@ == cef_dir@,
            p.log_file@ == in_dir(cef_dir@, "cef.log"@),
            p.user_data@ == in_dir(cef_dir@, "user_data"@),
    {
        CefPaths {
            subprocess: file_in(cef_dir, "renderer.exe"),
            cache: file_in(cef_dir, "cache"),
            locales: file_in(cef_dir, "locales"),
            resources: cef_dir.to_owned(),
            log_file: file_in(cef_dir, "cef.log"),
            user_data: file_in(cef_dir, "user_data"),
        }
    }
}

} // verus!
