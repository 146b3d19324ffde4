//! Where the client's files are: the CEF directory is the one the launcher
//! names on the command line, or the one next to the game.
use vstd::prelude::*;
use crate::text::{occurs, str_contains};
use crate::paths::{Part, PathPart, parts_view, split_path, split_path_spec, join, join_spec, render, render_spec};

verus! {

/// The position of the first argument holding `--lp`.
pub open spec fn first_launcher_flag(args: Seq<Seq<char>>) -> Option<int>
    decreases args.len(),
{
    if args.len() == 0 {
        None
    } else {
        match first_launcher_flag(args.drop_last()) {
            Some(i) => Some(i),
            None => if occurs(args.last(), "--lp"@) {
                Some(args.len() - 1)
            } else {
                None
            },
        }
    }
}

pub proof fn lemma_first_launcher_flag(args: Seq<Seq<char>>)
    ensures
        match first_launcher_flag(args) {
            Some(k) => 0 <= k < args.len() && occurs(args[k], "--lp"@) && forall|j: int|
                0 <= j < k ==> !occurs(#[trigger] args[j], "--lp"@),
            None => forall|j: int| 0 <= j < args.len() ==> !occurs(#[trigger] args[j], "--lp"@),
        },
    decreases args.len(),
{
    if args.len() > 0 {
        lemma_first_launcher_flag(args.drop_last());
        assert(forall|j: int| 0 <= j < args.len() - 1 ==> args.drop_last()[j] == args[j]);
    }
}

pub open spec fn args_view(args: Seq<String>) -> Seq<Seq<char>> {
    args.map_values(|a: String| a@)
}

/// The directory the launcher names: the argument right after the first
/// one that holds `--lp`.
pub open spec fn launcher_dir_spec(args: Seq<Seq<char>>) -> Option<Seq<char>> {
    match first_launcher_flag(args) {
        Some(k) => if k + 1 < args.len() {
            Some(args[k + 1])
        } else {
            None
        },
        None => None,
    }
}

/// Finds the directory the launcher names on the command line.
pub fn launcher_dir(args: &Vec<String>) -> (r: Option<String>)
    ensures
        match r {
            Some(d) => launcher_dir_spec(args_view(args@)) == Some(d@),
            None => launcher_dir_spec(args_view(args@)) is None,
        },
{
    let ghost av = args_view(args@);
    proof {
        lemma_first_launcher_flag(av);
        reveal_strlit("--lp");
    }
    let mut i: usize = 0;
    while i < args.len()
        invariant
            av == args_view(args@),
            i <= args@.len(),
            forall|j: int| 0 <= j < i ==> !occurs(#[trigger] av[j], "--lp"@),
            match first_launcher_flag(av) {
                Some(k) => 0 <= k < av.len() && occurs(av[k], "--lp"@) && forall|j: int|
                    0 <= j < k ==> !occurs(#[trigger] av[j], "--lp"@),
                None => forall|j: int| 0 <= j < av.len() ==> !occurs(#[trigger] av[j], "--lp"@),
            },
        decreases args@.len() - i,
    {
        if str_contains(args[i].as_str(), "--lp") {
            proof {
                assert(av[i as int] == args@[i as int]@);
                match first_launcher_flag(av) {
                    Some(k) => {
                        if k > i {
                            assert(!occurs(av[i as int], "--lp"@));
                        }
                    },
                    None => {
                        assert(!occurs(av[i as int], "--lp"@));
                    },
                }
            }
            if i + 1 < args.len() {
                proof {
                    assert(av[i + 1] == args@[i + 1]@);
                }
                return Some(args[i + 1].clone());
            }
            return None;
        }
        proof {
            assert(av[i as int] == args@[i as int]@);
        }
        i = i + 1;
    }
    proof {
        match first_launcher_flag(av) {
            Some(k) => {
                assert(!occurs(av[k], "--lp"@));
            },
            None => {},
        }
    }
    None
}

/// The CEF directory: `cef` in the directory the launcher names, else in the
/// game's directory (`game_dir`, when known), else in the working directory.
pub open spec fn cef_dir_spec(args: Seq<Seq<char>>, game_dir: Option<Seq<char>>) -> Seq<char> {
    let base = match launcher_dir_spec(args) {
        Some(d) => d,
        None => match game_dir {
            Some(g) => g,
            None => "."@,
        },
    };
    render_spec(join_spec(split_path_spec(base), seq![Part::Normal("cef"@)]))
}

/// Finds the CEF directory from the command line and the game's directory.
pub fn cef_dir(args: &Vec<String>, game_dir: Option<String>) -> (d: String)
    ensures
        d@ == cef_dir_spec(
            args_view(args@),
            match game_dir {
                Some(g) => Some(g@),
                None => None,
            },
        ),
{
    let base = match launcher_dir(args) {
        Some(d) => d,
        None => match game_dir {
            Some(g) => g,
            None => {
                proof {
                    reveal_strlit(".");
                }
                ".".to_owned()
            },
        },
    };
    let parts = split_path(base.as_str());
    let mut tail: Vec<PathPart> = Vec::new();
    tail.push(PathPart::Normal("cef".to_owned()));
    proof {
        reveal_strlit("cef");
        assert(parts_view(tail@) =~= seq![Part::Normal("cef"@)]);
    }
    let joined = join(&parts, &tail);
    render(&joined)
}

} // verus!
