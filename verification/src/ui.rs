//! What the screen shows, as plain text with colors. Where it goes is decided when it is drawn.
use vstd::prelude::*;

use crate::app::state::{FetchResult, FetchResultView, Project, ProjectView};
use crate::paths::{file_name, name_of};
use crate::text::{chars_of, contents, decimal, decimal_of, lines, lines_of, string_of};

pub mod detail;
pub mod dialogs;
pub mod laws;
pub mod places;
pub mod tables;

verus! {

/// The colors of the screen.
#[derive(Debug, Clone, Copy, PartialEq, Eq, Structural)]
pub enum Paint {
    /// The terminal's own color.
    Plain,
    /// What is active.
    Accent,
    Added,
    Deleted,
    Muted,
    Warning,
    Merged,
}

/// A piece of text in one style.
#[derive(Debug)]
pub struct Piece {
    pub text: String,
    pub paint: Paint,
    pub bold: bool,
}

/// A [`Piece`] as mathematical values.
#[verifier::ext_equal]
pub struct PieceView {
    pub text: Seq<char>,
    pub paint: Paint,
    pub bold: bool,
}

impl DeepView for Piece {
    type V = PieceView;

    open spec fn deep_view(&self) -> PieceView {
        PieceView { text: self.text@, paint: self.paint, bold: self.bold }
    }
}

pub open spec fn piece(text: Seq<char>, paint: Paint) -> PieceView {
    PieceView { text, paint, bold: false }
}

pub open spec fn bold(text: Seq<char>) -> PieceView {
    PieceView { text, paint: Paint::Plain, bold: true }
}

pub(crate) fn painted(text: String, paint: Paint) -> (p: Piece)
    ensures
        p.deep_view() == piece(text@, paint),
{
    Piece { text, paint, bold: false }
}

pub(crate) fn bold_text(text: String) -> (p: Piece)
    ensures
        p.deep_view() == bold(text@),
{
    Piece { text, paint: Paint::Plain, bold: true }
}

/// A count behind its sign; zero is muted.
pub open spec fn count_piece(sign: Seq<char>, value: nat, paint: Paint) -> PieceView {
    piece(
        sign + decimal(value),
        if value == 0 {
            Paint::Muted
        } else {
            paint
        },
    )
}

/// A count behind its sign; zero is muted.
pub fn count_cell(sign: &str, value: u64, paint: Paint) -> (cell: Piece)
    ensures
        cell.deep_view() == count_piece(sign@, value as nat, paint),
{
    painted(
        sign.to_owned().concat(&decimal_of(value)),
        if value == 0 {
            Paint::Muted
        } else {
            paint
        },
    )
}

// ---------------------------------------------------------------------------------------------
// Projects
// ---------------------------------------------------------------------------------------------

/// The name of a project: the last part of its path.
pub open spec fn project_name(path: Seq<char>) -> Seq<char> {
    match file_name(path) {
        Some(name) => name,
        None => path,
    }
}

/// What is known of a project's remote; nothing before the first refresh.
pub open spec fn remote_text(project: ProjectView) -> Seq<char> {
    match (project.github, project.default_branch) {
        (Some(repo), _) => repo,
        (None, Some(_)) => "no GitHub remote"@,
        (None, None) => Seq::empty(),
    }
}

/// The two lines of a project in the project list.
pub open spec fn project_lines(project: ProjectView, spinner: Seq<char>) -> Seq<Seq<PieceView>> {
    seq![
        seq![
            bold(project_name(project.path)),
            piece(" "@, Paint::Plain),
            piece(
                if project.is_loading() {
                    spinner
                } else {
                    Seq::empty()
                },
                Paint::Accent,
            ),
        ],
        seq![piece("  "@, Paint::Plain), piece(remote_text(project), Paint::Muted)],
    ]
}

/// The two lines of a project in the project list.
pub fn project_item(project: &Project, spinner: &str) -> (item: Vec<Vec<Piece>>)
    ensures
        item.deep_view() == project_lines(project.deep_view(), spinner@),
{
    let name = match name_of(&project.path) {
        Some(name) => name,
        None => project.path.clone(),
    };
    let busy = if project.is_loading() {
        spinner.to_owned()
    } else {
        String::new()
    };
    let remote = match (&project.github, &project.default_branch) {
        (Some(repo), _) => repo.clone(),
        (None, Some(_)) => "no GitHub remote".to_owned(),
        (None, None) => String::new(),
    };
    let first: Vec<Piece> = vec![
        bold_text(name),
        painted(" ".to_owned(), Paint::Plain),
        painted(busy, Paint::Accent),
    ];
    let second: Vec<Piece> = vec![
        painted("  ".to_owned(), Paint::Plain),
        painted(remote, Paint::Muted),
    ];
    proof {
        let wanted = project_lines(project.deep_view(), spinner@);
        assert(first.deep_view() =~= wanted[0]);
        assert(second.deep_view() =~= wanted[1]);
    }
    vec![first, second]
}

// ---------------------------------------------------------------------------------------------
// The info line
// ---------------------------------------------------------------------------------------------

/// How long ago something was, in words.
pub open spec fn age_text(secs: nat) -> Seq<char> {
    if secs < 5 {
        "just now"@
    } else if secs < 60 {
        decimal(secs) + "s ago"@
    } else if secs < 3600 {
        decimal(secs / 60) + "m ago"@
    } else {
        decimal(secs / 3600) + "h ago"@
    }
}

/// How long ago something was, in words.
pub fn age(secs: u64) -> (text: String)
    ensures
        text@ == age_text(secs as nat),
{
    if secs < 5 {
        "just now".to_owned()
    } else if secs < 60 {
        decimal_of(secs).concat("s ago")
    } else if secs < 3600 {
        decimal_of(secs / 60).concat("m ago")
    } else {
        decimal_of(secs / 3600).concat("h ago")
    }
}

/// Seconds from `at` to `now`, both in milliseconds; zero when `at` is later.
pub open spec fn seconds_since(at: u64, now: u64) -> nat {
    if now < at {
        0
    } else {
        ((now - at) / 1000) as nat
    }
}

/// How the last fetch went.
pub open spec fn fetch_piece(fetch: FetchResultView, now: u64) -> PieceView {
    match fetch.result {
        Ok(_) => piece("fetched "@ + age_text(seconds_since(fetch.at, now)), Paint::Muted),
        Err(err) => piece(
            "fetch failed: "@ + if lines(err).len() == 0 {
                "unknown error"@
            } else {
                lines(err).last()
            },
            Paint::Deleted,
        ),
    }
}

fn fetch_cell(fetch: &FetchResult, now: u64) -> (cell: Piece)
    ensures
        cell.deep_view() == fetch_piece(fetch.deep_view(), now),
{
    match &fetch.result {
        Ok(_) => {
            let secs = if now < fetch.at {
                0
            } else {
                (now - fetch.at) / 1000
            };
            painted("fetched ".to_owned().concat(&age(secs)), Paint::Muted)
        },
        Err(err) => {
            let chars = chars_of(err);
            let found = lines_of(&chars);
            proof {
                assert(contents(found@).len() == found@.len());
            }
            let reason = if found.len() == 0 {
                "unknown error".to_owned()
            } else {
                let last = found.len() - 1;
                proof {
                    assert(contents(found@)[last as int] == found@[last as int]@);
                }
                string_of(found[last])
            };
            painted("fetch failed: ".to_owned().concat(&reason), Paint::Deleted)
        },
    }
}

/// What the lane is doing, or else how the last fetch went.
pub open spec fn work_pieces(project: ProjectView, spinner: Seq<char>, now: u64) -> Seq<PieceView> {
    match project.activity {
        Some(activity) => seq![piece(spinner + " "@ + activity, Paint::Accent)],
        None => match project.last_fetch {
            Some(fetch) => seq![fetch_piece(fetch, now)],
            None => Seq::empty(),
        },
    }
}

/// The line above the tabs: the remote, what is compared with, what is going on, and how many
/// jobs are queued or running.
pub open spec fn info_pieces(
    project: ProjectView,
    jobs: nat,
    spinner: Seq<char>,
    now: u64,
) -> Seq<PieceView> {
    let remote = match (project.github, project.default_branch) {
        (Some(repo), _) => bold(repo),
        (None, Some(_)) => piece("none (origin is not on GitHub)"@, Paint::Plain),
        (None, None) => piece("…"@, Paint::Muted),
    };
    seq![
        piece("GitHub "@, Paint::Muted),
        remote,
        piece("  base "@, Paint::Muted),
        bold(project.base()),
        piece("  "@, Paint::Plain),
    ] + work_pieces(project, spinner, now) + if jobs == 0 {
        Seq::empty()
    } else {
        seq![piece("  jobs: "@ + decimal(jobs), Paint::Accent)]
    }
}

/// The line above the tabs.
pub fn info_line(project: &Project, jobs: usize, spinner: &str, now: u64) -> (line: Vec<Piece>)
    ensures
        line.deep_view() == info_pieces(project.deep_view(), jobs as nat, spinner@, now),
{
    let remote = match (&project.github, &project.default_branch) {
        (Some(repo), _) => bold_text(repo.clone()),
        (None, Some(_)) => painted("none (origin is not on GitHub)".to_owned(), Paint::Plain),
        (None, None) => painted("…".to_owned(), Paint::Muted),
    };
    let mut line: Vec<Piece> = vec![
        painted("GitHub ".to_owned(), Paint::Muted),
        remote,
        painted("  base ".to_owned(), Paint::Muted),
        bold_text(project.base_ref()),
        painted("  ".to_owned(), Paint::Plain),
    ];
    match project.activity {
        Some(activity) => {
            line.push(painted(spinner.to_owned().concat(" ").concat(activity), Paint::Accent));
        },
        None => {
            if let Some(fetch) = &project.last_fetch {
                line.push(fetch_cell(fetch, now));
            }
        },
    }
    if jobs > 0 {
        line.push(painted("  jobs: ".to_owned().concat(&decimal_of(jobs as u64)), Paint::Accent));
    }
    proof {
        assert(line.deep_view() =~= info_pieces(
            project.deep_view(),
            jobs as nat,
            spinner@,
            now,
        ));
    }
    line
}

// ---------------------------------------------------------------------------------------------
// Tabs
// ---------------------------------------------------------------------------------------------

/// `Name (count)`, a spinner while loading, or just the name when loading failed.
pub open spec fn tab_text(
    name: Seq<char>,
    count: Option<nat>,
    loading: bool,
    spinner: Seq<char>,
) -> Seq<char> {
    if loading {
        name + " "@ + spinner
    } else {
        match count {
            Some(count) => name + " ("@ + decimal(count) + ")"@,
            None => name,
        }
    }
}

/// `Name (count)`, a spinner while loading, or just the name when loading failed.
pub fn tab_title(name: &str, count: Option<usize>, loading: bool, spinner: &str) -> (title: String)
    ensures
        title@ == tab_text(
            name@,
            match count {
                Some(count) => Some(count as nat),
                None => None,
            },
            loading,
            spinner@,
        ),
{
    if loading {
        name.to_owned().concat(" ").concat(spinner)
    } else {
        match count {
            Some(count) => name.to_owned().concat(" (").concat(&decimal_of(count as u64)).concat(
                ")",
            ),
            None => name.to_owned(),
        }
    }
}

/// How many items a loaded list has.
pub open spec fn loaded_count<T, E>(state: Option<Result<Seq<T>, E>>) -> Option<nat> {
    match state {
        Some(Ok(items)) => Some(items.len()),
        _ => None,
    }
}

/// The titles of both tabs.
pub open spec fn tab_texts(project: ProjectView, spinner: Seq<char>) -> (Seq<char>, Seq<char>) {
    (
        tab_text(
            "Worktrees"@,
            loaded_count(project.worktrees),
            project.refreshing && project.worktrees is None,
            spinner,
        ),
        tab_text("Pull requests"@, loaded_count(project.prs), project.prs_loading, spinner),
    )
}

/// The titles of both tabs.
pub fn tab_titles(project: &Project, spinner: &str) -> (titles: (String, String))
    ensures
        titles.deep_view() == tab_texts(project.deep_view(), spinner@),
{
    let worktrees: Option<usize> = match &project.worktrees {
        Some(Ok(list)) => Some(list.len()),
        _ => None,
    };
    let prs: Option<usize> = match &project.prs {
        Some(Ok(list)) => Some(list.len()),
        _ => None,
    };
    (
        tab_title(
            "Worktrees",
            worktrees,
            project.refreshing && project.worktrees.is_none(),
            spinner,
        ),
        tab_title("Pull requests", prs, project.prs_loading, spinner),
    )
}

} // verus!
