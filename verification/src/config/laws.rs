//! Where the config is, what it holds, and how paths are shown and typed.
use vstd::prelude::*;

use super::saving::{
    action_due, save_answered, save_begun, save_result, SaveActionView, SaveRunView,
};
use super::{
    config_path_of, displayed, expanded, home_of, loaded, save_plan, ConfigErrorView,
    ConfigFileView, SavePlanView,
};
use crate::paths::{join, parent, strip_base, with_extension};

verus! {

/// A config holds the projects of its file in their order, and none without a file. A file that
/// cannot be read or understood is an error that names the file and keeps the cause.
pub proof fn what_a_config_holds(path: Seq<char>, projects: Seq<Seq<char>>, cause: Seq<char>)
    ensures
        loaded(path, ConfigFileView::Missing) == Ok::<Seq<Seq<char>>, ConfigErrorView>(
            Seq::empty(),
        ),
        loaded(path, ConfigFileView::Read(projects)) == Ok::<Seq<Seq<char>>, ConfigErrorView>(
            projects,
        ),
        loaded(path, ConfigFileView::Malformed(cause)) == Err::<Seq<Seq<char>>, ConfigErrorView>(
            ConfigErrorView { context: "invalid config "@ + path, cause },
        ),
        loaded(path, ConfigFileView::Unreadable(cause)) == Err::<Seq<Seq<char>>, ConfigErrorView>(
            ConfigErrorView { context: "cannot read "@ + path, cause },
        ),
{
}

/// The config lies under `XDG_CONFIG_HOME` if that is an absolute path, else under `.config` in the
/// home directory; with neither there is no place for it. An empty `HOME` is none.
pub proof fn where_the_config_is(xdg: Option<Seq<char>>, home: Option<Seq<char>>)
    ensures
        home is None ==> home_of(home) is None,
        home is Some && home->Some_0.len() == 0 ==> home_of(home) is None,
        home is Some && home->Some_0.len() > 0 ==> home_of(home) == home,
        ({
            let absolute = xdg is Some && xdg->Some_0.len() > 0 && xdg->Some_0[0] == '/';
            let known = home is Some && home->Some_0.len() > 0;
            &&& absolute ==> config_path_of(xdg, home) == Ok::<Seq<char>, Seq<char>>(
                join(join(xdg->Some_0, "tuitree"@), "config.toml"@),
            )
            &&& !absolute && known ==> config_path_of(xdg, home) == Ok::<Seq<char>, Seq<char>>(
                join(join(join(home->Some_0, ".config"@), "tuitree"@), "config.toml"@),
            )
            &&& !absolute && !known ==> config_path_of(xdg, home) == Err::<Seq<char>, Seq<char>>(
                "neither XDG_CONFIG_HOME nor HOME is set"@,
            )
        }),
{
}

/// A path that does not start with the tilde component is taken as it is, and without a home
/// directory every path is; a tilde alone is the home directory.
pub proof fn what_a_tilde_stands_for(input: Seq<char>, home: Seq<char>)
    ensures
        expanded(input, None) == input,
        expanded("~"@, Some(home)) == home,
        input != "~"@ && !("~/"@).is_prefix_of(input) ==> expanded(input, Some(home)) == input,
{
}

/// Only what lies in the home directory is shown relative to it.
pub proof fn how_paths_are_shown(path: Seq<char>, home: Seq<char>)
    ensures
        displayed(path, None) == path,
        strip_base(path, home) is None ==> displayed(path, Some(home)) == path,
        strip_base(path, home) is Some ==> {
            let rest = strip_base(path, home)->Some_0;
            displayed(path, Some(home)) == if rest.len() == 0 {
                "~"@
            } else {
                "~/"@ + rest
            }
        },
{
}

/// The files of a save: the directory is the parent of the config, and the temporary file carries
/// its own extension. A path without a parent cannot be saved to.
pub proof fn what_a_save_touches(path: Seq<char>)
    ensures
        parent(path) is None ==> save_plan(path) == Err::<SavePlanView, Seq<char>>(
            "config path has no parent directory"@,
        ),
        parent(path) is Some ==> save_plan(path) == Ok::<SavePlanView, Seq<char>>(
            SavePlanView {
                dir: parent(path)->Some_0,
                tmp: with_extension(path, "toml.tmp"@),
                path,
            },
        ),
{
}

/// A save that goes well: the directory is made, the text is made, the temporary file is written,
/// and it replaces the config.
pub proof fn how_a_save_goes(plan: SavePlanView)
    ensures
        ({
            let s0 = save_begun(plan);
            let s1 = save_answered(s0, Ok(()));
            let s2 = save_answered(s1, Ok(()));
            let s3 = save_answered(s2, Ok(()));
            let s4 = save_answered(s3, Ok(()));
            &&& action_due(s0) == Some(SaveActionView::CreateDir(plan.dir))
            &&& action_due(s1) == Some(SaveActionView::Serialize)
            &&& action_due(s2) == Some(SaveActionView::Write(plan.tmp))
            &&& action_due(s3) == Some(SaveActionView::Rename(plan.tmp, plan.path))
            &&& action_due(s4) is None
            &&& save_result(s0) is None && save_result(s1) is None
            &&& save_result(s2) is None && save_result(s3) is None
            &&& save_result(s4) == Some(Ok::<(), Seq<char>>(()))
        }),
{
}

/// A step that fails ends the save with what could not be done and why; nothing more is done.
pub proof fn how_a_save_fails(run: SaveRunView, cause: Seq<char>)
    requires
        action_due(run) is Some,
    ensures
        ({
            let after = save_answered(run, Err(cause));
            let message = match action_due(run)->Some_0 {
                SaveActionView::CreateDir(dir) => "cannot create "@ + dir,
                SaveActionView::Serialize => "cannot serialize config"@,
                SaveActionView::Write(tmp) => "cannot write "@ + tmp,
                SaveActionView::Rename(_, path) => "cannot replace "@ + path,
            };
            &&& save_result(after) == Some(Err::<(), Seq<char>>(message + ": "@ + cause))
            &&& action_due(after) is None
        }),
{
}

/// An answer after the end of a save changes nothing.
pub proof fn a_save_that_is_over_stays_so(run: SaveRunView, result: Result<(), Seq<char>>)
    requires
        action_due(run) is None,
    ensures
        save_answered(run, result) == run,
{
}

} // verus!
