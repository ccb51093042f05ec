//! The command line: an optional `--no-tui` switch and the path of the
//! configuration file.
use vstd::prelude::*;

use crate::strings::chars_of;

verus! {

/// What the command line asks for.
#[derive(Debug)]
pub struct CliOptions {
    pub no_tui: bool,
    pub config_path: String,
}

/// `--no-tui`
pub open spec fn no_tui_flag() -> Seq<char> {
    "--no-tui"@
}

/// `config.toml`
pub open spec fn default_config_path() -> Seq<char> {
    "config.toml"@
}

/// `a` could name the configuration file: it does not start with `-` and is
/// not the program's own name `program`.
pub open spec fn is_path_argument(a: Seq<char>, program: Seq<char>) -> bool {
    !(a.len() > 0 && a[0] == '-') && a != program
}

/// The first position from `from` on of an argument that could name the
/// configuration file, or the number of arguments when there is none.
pub open spec fn path_index_from(args: Seq<Seq<char>>, from: int) -> int
    decreases args.len() - from,
{
    if from < 0 || from >= args.len() {
        args.len() as int
    } else if is_path_argument(args[from], args[0]) {
        from
    } else {
        path_index_from(args, from + 1)
    }
}

/// The path position from `from` on is the first argument there that could
/// name the configuration file, or the number of arguments.
pub proof fn lemma_path_index(args: Seq<Seq<char>>, from: int)
    requires
        0 <= from <= args.len(),
    ensures
        from <= path_index_from(args, from) <= args.len(),
        path_index_from(args, from) < args.len() ==> is_path_argument(
            args[path_index_from(args, from)],
            args[0],
        ),
        forall|j: int|
            from <= j < path_index_from(args, from) ==> !is_path_argument(#[trigger] args[j], args[0]),
    decreases args.len() - from,
{
    if from < args.len() && !is_path_argument(args[from], args[0]) {
        lemma_path_index(args, from + 1);
    }
}

/// The arguments as character sequences.
pub open spec fn arg_views(args: Seq<String>) -> Seq<Seq<char>> {
    args.map_values(|a: String| a@)
}

impl CliOptions {
    /// Reads the command line `args` (the program's name first): the monitor
    /// is off when any argument is `--no-tui`; the configuration is the first
    /// argument that does not start with `-` and is not the program's name,
    /// else `config.toml`.
    pub fn from_args(args: &Vec<String>) -> (opts: Self)
        ensures
            opts.no_tui == arg_views(args@).contains(no_tui_flag()),
            ({
                let k = path_index_from(arg_views(args@), 0);
                if k < args@.len() {
                    opts.config_path@ == args@[k]@
                } else {
                    opts.config_path@ == default_config_path()
                }
            }),
            forall|k: int|
                1 <= k < args@.len() && !(args@[k]@.len() > 0 && args@[k]@[0] == '-') && args@[k]@
                    != args@[0]@ && (forall|j: int|
                    #![trigger args@[j]]
                    1 <= j < k ==> (args@[j]@.len() > 0 && args@[j]@[0] == '-') || args@[j]@
                        == args@[0]@) ==> opts.config_path@ == #[trigger] args@[k]@,
            (forall|j: int|
                1 <= j < args@.len() ==> (#[trigger] args@[j]@.len() > 0 && args@[j]@[0] == '-')
                    || args@[j]@ == args@[0]@) ==> opts.config_path@ == "config.toml"@,
    {
        proof {
            lemma_path_index(arg_views(args@), 0);
        }
        let ghost views = arg_views(args@);
        let flag = "--no-tui".to_owned();
        let n = args.len();
        let mut no_tui = false;
        let mut i: usize = 0;
        while i < n
            invariant
                n == args@.len(),
                views == arg_views(args@),
                flag@ == no_tui_flag(),
                i <= n,
                no_tui == views.take(i as int).contains(no_tui_flag()),
            decreases n - i,
        {
            let ghost next = views.take(i + 1);
            assert(next =~= views.take(i as int).push(args@[i as int]@));
            let same = args[i] == flag;
            if same {
                no_tui = true;
                assert(next[i as int] == no_tui_flag());
            }
            assert(next.contains(no_tui_flag()) == (views.take(i as int).contains(no_tui_flag())
                || same)) by {
                if next.contains(no_tui_flag()) && !same {
                    let w = choose|w: int| 0 <= w < next.len() && next[w] == no_tui_flag();
                    assert(w < i);
                    assert(views.take(i as int)[w] == no_tui_flag());
                }
                if views.take(i as int).contains(no_tui_flag()) {
                    let w = choose|w: int|
                        0 <= w < views.take(i as int).len() && views.take(i as int)[w] == no_tui_flag();
                    assert(next[w] == no_tui_flag());
                }
            }
            i = i + 1;
        }
        assert(views.take(n as int) =~= views);
        let mut j: usize = 0;
        let mut path: Option<usize> = None;
        while j < n && path.is_none()
            invariant
                n == args@.len(),
                views == arg_views(args@),
                j <= n,
                path matches Some(k) ==> k < n && k == path_index_from(views, 0),
                path is None ==> path_index_from(views, 0) == path_index_from(views, j as int),
            decreases n - j + (if path is None { 1int } else { 0int }),
        {
            let cs = chars_of(args[j].as_str());
            let dash = cs.len() > 0 && cs[0] == '-';
            if !dash && args[j] != args[0] {
                path = Some(j);
            } else {
                j = j + 1;
            }
        }
        let config_path = match path {
            Some(k) => args[k].clone(),
            None => "config.toml".to_owned(),
        };
        proof {
            let p = path_index_from(views, 0);
            lemma_path_index(views, 0);
            assert(views.len() == args@.len());
            assert(p < args@.len() ==> config_path@ == args@[p]@);
            assert(p >= args@.len() ==> config_path@ == "config.toml"@);
            assert forall|k: int|
                1 <= k < args@.len() && !(args@[k]@.len() > 0 && args@[k]@[0] == '-') && args@[k]@
                    != args@[0]@ && (forall|j: int|
                    #![trigger args@[j]]
                    1 <= j < k ==> (args@[j]@.len() > 0 && args@[j]@[0] == '-') || args@[j]@
                        == args@[0]@) implies config_path@ == #[trigger] args@[k]@ by {
                assert(views[k] == args@[k]@);
                assert(views[0] == args@[0]@);
                if p > k {
                    assert(!is_path_argument(views[k], views[0]));
                } else if p < k {
                    assert(is_path_argument(views[p], views[0]));
                    assert(views[p] == args@[p]@);
                    if p == 0 {
                        assert(!is_path_argument(views[0], views[0]));
                    } else {
                        let q = args@[p];
                        assert((q@.len() > 0 && q@[0] == '-') || q@ == args@[0]@);
                    }
                }
            }
            if forall|j: int|
                1 <= j < args@.len() ==> (#[trigger] args@[j]@.len() > 0 && args@[j]@[0] == '-')
                    || args@[j]@ == args@[0]@ {
                if p < args@.len() {
                    assert(is_path_argument(views[p], views[0]));
                    assert(views[p] == args@[p]@);
                    assert(views[0] == args@[0]@);
                    if p >= 1 {
                        assert(args@[p]@.len() > 0 && args@[p]@[0] == '-' || args@[p]@ == args@[0]@);
                    }
                }
            }
        }
        CliOptions { no_tui, config_path }
    }
}

} // verus!
