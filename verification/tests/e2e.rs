//! Whole sessions: keys and clicks go in, a scripted git and gh answer, and the screen is read.

use tuitree::app::input::{Key, KeyCode};
use tuitree::app::mouse::{Mouse, MouseKind};
use tuitree::app::projects::{project_path, Found};
use tuitree::app::state::{App, Button, Focus, Hits, Mode, Rect, Request, Rows, Tab};
use tuitree::cmd::{Attempt, Output};
use tuitree::config::{Config, ProjectEntry};
use tuitree::gh::{self, Author, PrFile, PullRequest};
use tuitree::git::lines::count_text_lines;
use tuitree::git::load::load_worktrees;
use tuitree::git::prs::{merged_pr, pr_state, RepoPr};
use tuitree::git::stats::{Probe, StatsRun};
use tuitree::git::{self, WorktreeInfo, WorktreeStats};
use tuitree::ui::detail::Detail;
use tuitree::ui::dialogs::{add_project_lines, confirm_buttons, confirm_lines, help_lines};
use tuitree::ui::places::{
    self, button_areas, mark_column, tab_areas, table_rows, worktree_columns,
};
use tuitree::ui::tables::{are_rows_countable, prs_pane, Pane};
use tuitree::ui::{info_line, project_item, tab_titles, Paint, Piece};
use tuitree::worker::{
    pr_source, JobRun, LaneRun, Reply, Reporter, Stage, UpdateKind,
};

const HOME: &str = "/home/e2e";

// ---------------------------------------------------------------------------------------------
// A scripted repository
// ---------------------------------------------------------------------------------------------

fn finished(code: i32, stdout: &[u8], stderr: &str) -> Attempt {
    Attempt::Finished(Output {
        code: Some(code),
        status: format!("exit status: {code}"),
        stdout: stdout.to_vec(),
        stderr: stderr.as_bytes().to_vec(),
    })
}

fn ok(stdout: &str) -> Attempt {
    finished(0, stdout.as_bytes(), "")
}

/// One worktree of the scripted repository.
struct Tree {
    dir: &'static str,
    branch: Option<&'static str>,
    head: &'static str,
    ahead: u64,
    behind: u64,
    /// `added`, `deleted`, path, as `git diff --numstat` prints them.
    diff: Vec<(&'static str, &'static str, &'static str)>,
    untracked: Vec<(String, Probe)>,
    uncommitted: Vec<&'static str>,
    unpushed: u64,
    conflicts: Vec<&'static str>,
    /// The tree that a merge with the default branch gives.
    merged_tree: &'static str,
    locked: bool,
    missing: bool,
}

fn tree(dir: &'static str, branch: &'static str, ahead: u64, behind: u64) -> Tree {
    Tree {
        dir,
        branch: Some(branch),
        head: "1111111111111111111111111111111111111111",
        ahead,
        behind,
        diff: vec![],
        untracked: vec![],
        uncommitted: vec![],
        unpushed: 0,
        conflicts: vec![],
        merged_tree: "merged-tree",
        locked: false,
        missing: false,
    }
}

enum Gh {
    Missing,
    LoggedOut,
    Ready,
}

/// number, branch, head, state, draft, fork, created
type FakePr = (u64, &'static str, &'static str, &'static str, bool, bool, &'static str);
/// number, title, branch, author, draft, files, additions, deletions
type OpenPr = (u64, &'static str, &'static str, &'static str, bool, u64, u64, u64);

struct Repo {
    name: &'static str,
    origin: &'static str,
    trees: Vec<Tree>,
    /// Nothing is known to be behind before the fetch.
    fetched: bool,
    /// The branches that origin has.
    remote: Vec<&'static str>,
    gh: Gh,
    prs: Vec<FakePr>,
    open: Vec<OpenPr>,
    calls: Vec<String>,
}

const GITHUB: &str = "https://github.com/e2e/fixture.git";

fn standard_prs() -> Vec<OpenPr> {
    vec![
        (42, "Add worktree dashboard", "feature-a", "octocat", false, 3, 25, 4),
        (7, "Try new colors", "feature-b", "hubot", true, 1, 2, 3),
    ]
}

impl Repo {
    fn new(name: &'static str, origin: &'static str, trees: Vec<Tree>) -> Repo {
        Repo {
            name,
            origin,
            trees,
            fetched: false,
            remote: vec!["main"],
            gh: Gh::Ready,
            prs: vec![],
            open: standard_prs(),
            calls: vec![],
        }
    }

    fn root(&self) -> String {
        format!("{HOME}/{}", self.name)
    }

    fn listing(&self) -> String {
        let mut text = String::new();
        for tree in &self.trees {
            text.push_str(&format!("worktree {HOME}/{}\nHEAD {}\n", tree.dir, tree.head));
            match tree.branch {
                Some(branch) => text.push_str(&format!("branch refs/heads/{branch}\n")),
                None => text.push_str("detached\n"),
            }
            if tree.locked {
                text.push_str("locked on a USB disk\n");
            }
            if tree.missing && !tree.locked {
                text.push_str("prunable gitdir file points to non-existent location\n");
            }
            text.push('\n');
        }
        text
    }

    fn at(&mut self, dir: &str) -> &mut Tree {
        self.trees
            .iter_mut()
            .find(|t| format!("{HOME}/{}", t.dir) == dir)
            .expect("known worktree")
    }

    /// Answers a git command.
    fn git(&mut self, dir: &str, args: &[String]) -> Attempt {
        let words: Vec<&str> = args.iter().map(String::as_str).collect();
        match words.as_slice() {
            ["rev-parse", "--show-toplevel"] => ok(&format!("{}\n", self.root())),
            ["config", "--get", "remote.origin.url"] => ok(&format!("{}\n", self.origin)),
            ["symbolic-ref", "refs/remotes/origin/HEAD"] => ok("refs/remotes/origin/main\n"),
            ["fetch", "origin", "--prune"] => {
                self.fetched = true;
                ok("")
            }
            ["worktree", "list", "--porcelain"] => ok(&self.listing()),
            ["rev-list", "--left-right", "--count", "origin/main...HEAD"] => {
                let fetched = self.fetched;
                let tree = self.at(dir);
                let behind = if fetched { tree.behind } else { 0 };
                ok(&format!("{behind}\t{}\n", tree.ahead))
            }
            ["merge-base", "HEAD", "origin/main"] => ok("0000base\n"),
            ["diff", "--numstat", "-z", "--no-ext-diff", "0000base", "--"] => {
                let mut raw = Vec::new();
                for (added, deleted, path) in &self.at(dir).diff {
                    raw.extend_from_slice(format!("{added}\t{deleted}\t{path}").as_bytes());
                    raw.push(0);
                }
                finished(0, &raw, "")
            }
            ["ls-files", "--others", "--exclude-standard", "-z"] => {
                let mut raw = Vec::new();
                for (name, _) in &self.at(dir).untracked {
                    raw.extend_from_slice(name.as_bytes());
                    raw.push(0);
                }
                finished(0, &raw, "")
            }
            ["diff", "--name-only", "-z", "HEAD", "--"] => {
                let mut raw = Vec::new();
                for name in &self.at(dir).uncommitted {
                    raw.extend_from_slice(name.as_bytes());
                    raw.push(0);
                }
                finished(0, &raw, "")
            }
            ["rev-list", "--count", "HEAD", "--not", "--remotes=origin"] => {
                ok(&format!("{}\n", self.at(dir).unpushed))
            }
            ["rev-parse", "origin/main^{tree}"] => ok("base-tree\n"),
            ["merge-tree", "--write-tree", "--name-only", "--no-messages", "-z", "origin/main", "HEAD"] => {
                let tree = self.at(dir);
                let mut raw = tree.merged_tree.as_bytes().to_vec();
                raw.push(0);
                for name in &tree.conflicts {
                    raw.extend_from_slice(name.as_bytes());
                    raw.push(0);
                }
                finished(if tree.conflicts.is_empty() { 0 } else { 1 }, &raw, "")
            }
            ["worktree", "remove", "--force", "--force", path] => {
                self.trees.retain(|t| format!("{HOME}/{}", t.dir) != *path);
                ok("")
            }
            ["branch", "-D", branch] => {
                let user = self.trees.iter().find(|t| t.branch == Some(*branch));
                match user {
                    Some(tree) => {
                        let path = format!("{HOME}/{}", tree.dir);
                        finished(
                            1,
                            b"",
                            &format!(
                                "error: cannot delete branch '{branch}' used by worktree at '{path}'\n"
                            ),
                        )
                    }
                    None => ok(&format!("Deleted branch {branch}.\n")),
                }
            }
            ["push", "origin", "--delete", branch] => {
                self.remote.retain(|b| b != branch);
                ok("")
            }
            ["merge", "origin/main"] => {
                let tree = self.at(dir);
                tree.behind = 0;
                if tree.ahead == 0 {
                    ok("Updating 1111111..2222222\nFast-forward\n up.txt | 3 +++\n")
                } else {
                    tree.ahead += 1;
                    ok("Merge made by the 'ort' strategy.\n up.txt | 3 +++\n")
                }
            }
            other => panic!("unexpected git {other:?} in {dir}"),
        }
    }

    /// Answers a gh command: what it prints stands for the canned data.
    fn gh(&mut self, args: &[String]) -> Attempt {
        match self.gh {
            Gh::Missing => Attempt::NotFound,
            Gh::LoggedOut => finished(
                4,
                b"",
                "To get started with GitHub CLI, please run:  gh auth login\nAlternatively, populate the GH_TOKEN environment variable with a GitHub API authentication token.\n",
            ),
            Gh::Ready => {
                self.calls.push(args.join(" "));
                ok("json")
            }
        }
    }

    fn has_branch(&self, branch: &str) -> bool {
        self.trees.iter().any(|t| t.branch == Some(branch))
    }

    /// Commits of origin/main that the worktree lacks.
    fn lacks(&self, dir: &str) -> u64 {
        self.trees.iter().find(|t| t.dir == dir).expect("known worktree").behind
    }

    fn has_dir(&self, dir: &str) -> bool {
        self.trees.iter().any(|t| t.dir == dir && !t.missing)
    }

    fn repo_prs(&self) -> Vec<RepoPr> {
        self.prs
            .iter()
            .map(|(number, branch, head, state, draft, fork, created)| RepoPr {
                number: *number,
                head_ref_name: branch.to_string(),
                head_ref_oid: head.to_string(),
                state: pr_state(state, *draft),
                fork: *fork,
                created: created.to_string(),
            })
            .collect()
    }

    fn open_prs(&self) -> Vec<PullRequest> {
        self.open
            .iter()
            .map(|(number, title, branch, author, draft, files, add, del)| PullRequest {
                number: *number,
                title: title.to_string(),
                head_ref_name: branch.to_string(),
                author: Some(Author { login: author.to_string() }),
                is_draft: *draft,
                changed_files: *files,
                additions: *add,
                deletions: *del,
            })
            .collect()
    }

    fn stats(
        &mut self,
        dir: &str,
        base: &str,
        check: bool,
        pr: Option<u64>,
        present: bool,
    ) -> Result<WorktreeStats, String> {
        let mut run = StatsRun::start(dir.to_string(), base.to_string(), check, pr, present);
        loop {
            if let Some(args) = run.question() {
                let attempt = self.git(dir, &args);
                run.answer(attempt);
            } else if let Some(name) = run.to_probe() {
                let probe = self
                    .at(dir)
                    .untracked
                    .iter()
                    .find(|(n, _)| *n == name)
                    .map(|(_, probe)| *probe)
                    .expect("listed file");
                run.probed(probe);
            } else {
                return run.finish().expect("a reading that waits for nothing is over");
            }
        }
    }

    fn load(&mut self, base: &str, check: bool, prs: &Option<Vec<RepoPr>>) -> Result<Vec<WorktreeInfo>, String> {
        let root = self.root();
        let attempt = self.git(&root, &git::listing_query());
        let listed = git::list_worktrees(&root, attempt);
        let mut stats = Vec::new();
        if let Ok(worktrees) = &listed {
            for wt in worktrees {
                let pr = merged_pr(prs, &wt.branch, &wt.head);
                let present = wt.is_present(!self.at(&wt.path).missing);
                let read = self.stats(&wt.path, base, check, pr, present);
                stats.push(read);
            }
        }
        load_worktrees(listed, stats, prs)
    }
}

// ---------------------------------------------------------------------------------------------
// A session
// ---------------------------------------------------------------------------------------------

struct Session {
    app: App,
    repos: Vec<Repo>,
    lanes: Vec<LaneRun>,
    saved: Vec<Vec<String>>,
    now: u64,
}

impl Session {
    fn new(repos: Vec<Repo>, configured: bool) -> Session {
        let projects = if configured {
            repos.iter().map(|r| ProjectEntry { path: r.root() }).collect()
        } else {
            vec![]
        };
        let lanes = repos.iter().map(|r| LaneRun::new(&r.root())).collect();
        let mut session = Session {
            app: App::new(Config { projects }, Some(HOME.to_string()), 1_000),
            repos,
            lanes,
            saved: vec![],
            now: 1_000,
        };
        session.requests();
        session
    }

    fn repo_at(&mut self, path: &str) -> usize {
        self.repos.iter().position(|r| r.root() == path).expect("known project")
    }

    fn update(&mut self, project: &str, generation: u64, kind: UpdateKind) {
        self.app.on_update(Reporter::new(project, generation).stamp(kind));
    }

    /// Performs what the application asks for.
    fn requests(&mut self) {
        for request in self.app.take_requests() {
            match request {
                Request::SaveConfig(config) => {
                    self.saved.push(config.projects.into_iter().map(|p| p.path).collect());
                }
                Request::LoadPrs { project, generation } => {
                    let i = self.repo_at(&project);
                    let attempt = self.repos[i].git(&project, &git::remote_query());
                    let prs = match pr_source(&project, attempt) {
                        Err(message) => Err(message),
                        Ok(repo) => {
                            let attempt = self.repos[i].gh(&gh::list_query(&repo));
                            match gh::list_prs(&project, &repo, attempt) {
                                Err(message) => Err(message),
                                Ok(_) => gh::parse_pr_list(Ok(self.repos[i].open_prs())),
                            }
                        }
                    };
                    self.update(&project, generation, UpdateKind::Prs(prs));
                }
                Request::LoadPrFiles { project, generation, repo, number } => {
                    let i = self.repo_at(&project);
                    let attempt = self.repos[i].gh(&gh::files_query(&repo, number));
                    let files = match gh::pr_files(&project, &repo, number, attempt) {
                        Err(message) => Err(message),
                        Ok(_) => gh::parse_pr_files(Ok(vec![
                            PrFile { path: "src/ui.rs".to_string(), additions: 20, deletions: 4 },
                            PrFile { path: "README.md".to_string(), additions: 5, deletions: 0 },
                            PrFile { path: "assets/logo.png".to_string(), additions: 0, deletions: 0 },
                        ])),
                    };
                    self.update(&project, generation, UpdateKind::PrFiles { number, files });
                }
                Request::AddProject(input) => {
                    let cwd = Some("/work".to_string());
                    let found = match project_path(&input.text, &self.app.home, &cwd) {
                        None => Found::NoPath,
                        Some(path) => {
                            if path.ends_with("/not-a-repo") {
                                Found::NotARepository(path)
                            } else {
                                match self.repos.iter().position(|r| r.root() == path) {
                                    None => Found::NotADirectory(path),
                                    Some(i) => {
                                        let attempt = self.repos[i].git(&path, &git::toplevel_query());
                                        let root = git::repo_toplevel(&path, attempt).expect("a repository");
                                        let attempt = self.repos[i].git(&path, &git::remote_query());
                                        let github = git::github_repo(&path, attempt);
                                        Found::Repository { root, github }
                                    }
                                }
                            }
                        }
                    };
                    self.app.add_project(input, found);
                    self.requests();
                }
            }
        }
    }

    /// Takes up the next task of a project, if one waits.
    fn begin(&mut self, i: usize) -> bool {
        let Some(index) = self.app.projects.iter().position(|p| p.path == self.repos[i].root()) else {
            return false;
        };
        let Some(task) = self.app.next_task(index) else {
            return false;
        };
        let kinds = self.lanes[i].begin(task);
        self.send(i, kinds);
        true
    }

    fn send(&mut self, i: usize, kinds: Vec<UpdateKind>) {
        let root = self.repos[i].root();
        for kind in kinds {
            self.update(&root, 0, kind);
        }
    }

    /// One step of a lane's work.
    fn step(&mut self, i: usize) {
        let root = self.repos[i].root();
        let lane = &self.lanes[i];
        let repo = &mut self.repos[i];
        let reply = if let Some(command) = lane.question() {
            assert_eq!(command.dir, root);
            if command.program == "gh" {
                let github = lane.github.clone().expect("a GitHub repository");
                let attempt = repo.gh(&command.args);
                Reply::Prs(match gh::list_repo_prs(&root, &github, attempt) {
                    Err(message) => Err(message),
                    Ok(_) => gh::parse_pr_list(Ok(repo.repo_prs())),
                })
            } else {
                Reply::Git(repo.git(&command.dir, &command.args))
            }
        } else {
            match &lane.stage {
                Stage::Quick | Stage::Full | Stage::Reload => {
                    let check = lane.checks_merges();
                    Reply::Worktrees(repo.load(&lane.base, check, &lane.prs))
                }
                Stage::Working { job, .. } => {
                    let mut run = JobRun::begin(&root, job);
                    while let Some((dir, args)) = run.question() {
                        run.answer(repo.git(&dir, &args));
                    }
                    Reply::Job(run.finish().expect("a job that waits for nothing is over"))
                }
                _ => return,
            }
        };
        let kinds = self.lanes[i].advance(reply);
        self.send(i, kinds);
    }

    fn finish(&mut self, i: usize) {
        while !matches!(self.lanes[i].stage, Stage::Idle) {
            self.step(i);
        }
    }

    /// Runs all background work to its end.
    fn settle(&mut self) {
        loop {
            self.requests();
            let mut worked = false;
            for i in 0..self.repos.len() {
                self.finish(i);
                if self.begin(i) {
                    self.finish(i);
                    worked = true;
                }
            }
            if !worked && self.app.requests.is_empty() {
                return;
            }
        }
    }

    fn tick(&mut self) {
        self.now += 100;
        self.app.set_time(self.now);
        assert!(self.app.has_room());
    }

    fn press(&mut self, code: KeyCode, control: bool) {
        self.tick();
        self.app.on_key(Key { code, control });
        self.requests();
    }

    fn keys(&mut self, keys: &[&str]) {
        for key in keys {
            match *key {
                "Enter" => self.press(KeyCode::Enter, false),
                "Escape" => self.press(KeyCode::Esc, false),
                "Tab" => self.press(KeyCode::Tab, false),
                "Space" => self.press(KeyCode::Char(' '), false),
                "C-u" => self.press(KeyCode::Char('u'), true),
                other => {
                    for c in other.chars() {
                        self.press(KeyCode::Char(c), false);
                    }
                }
            }
        }
    }

    fn mouse(&mut self, kind: MouseKind, at: (u16, u16)) {
        self.tick();
        let (_, hits) = self.draw();
        assert!(hits.is_valid());
        self.app.set_hits(hits);
        self.app.on_mouse(Mouse { kind, column: at.0, row: at.1 });
        self.requests();
    }

    fn click(&mut self, at: Option<(u16, u16)>) {
        self.mouse(MouseKind::LeftDown, at.expect("something to click"));
    }

    fn screen(&self) -> String {
        self.draw().0.join("\n")
    }

    /// The screen, one thing below the other, and where things are.
    fn draw(&self) -> (Vec<String>, Hits) {
        let app = &self.app;
        let mut out: Vec<String> = Vec::new();
        let mut hits = Hits {
            projects: None,
            tabs: vec![],
            list: None,
            marks: None,
            pr: None,
            detail: None,
            buttons: vec![],
        };
        let spinner = app.spinner();
        if app.projects.is_empty() {
            out.push("No projects yet.".to_string());
        } else {
            let top = out.len() as u16;
            for project in &app.projects {
                for line in project_item(project, spinner) {
                    out.push(join(&line));
                }
            }
            let area = Rect { x: 0, y: top, width: 30, height: 2 * app.projects.len() as u16 };
            hits.projects = Some(Rows { area, offset: 0, row_height: 2 });
        }
        if let Some(project) = app.selected_project() {
            let shown = tuitree::config::display_path(&project.path, &app.home);
            out.push(format!("┌ {shown} ┐"));
            let jobs = app.active_jobs_of(&project.path);
            out.push(join(&info_line(project, jobs, spinner, app.now)));
            let (worktrees, prs) = tab_titles(project, spinner);
            let y = out.len() as u16;
            let pad = " ".repeat(30);
            out.push(format!("{pad}{worktrees}   {prs}"));
            let bar = Rect { x: 29, y, width: 100, height: 1 };
            let (first, second) = tab_areas(bar, &worktrees, &prs);
            hits.tabs = vec![(first, Tab::Worktrees), (second, Tab::Prs)];
            let (pane, header, widths, selected) = match app.tab {
                Tab::Worktrees => {
                    assert!(are_rows_countable(project));
                    (
                        app.worktrees_pane(project, spinner),
                        vec!["", "Branch", "Ahead", "Behind", "Sync", "PR", "Files", "Added", "Deleted", "Path"],
                        worktree_columns(24).into_iter().chain([80]).map(usize::from).collect(),
                        project.worktree_table,
                    )
                }
                Tab::Prs => (
                    prs_pane(project, spinner),
                    vec!["PR", "Title", "Branch", "Author", "Draft", "Files", "Added", "Deleted"],
                    vec![6, 40, 24, 20, 6, 6, 8, 8],
                    project.pr_table,
                ),
            };
            match pane {
                Pane::Message(message) => out.push(message.text),
                Pane::Table(rows) => {
                    out.push(table_line("", &header, &widths));
                    let y = out.len() as u16;
                    let count = rows.len() as u16;
                    for (i, row) in rows.iter().enumerate() {
                        let cells: Vec<&str> = row.iter().map(|c| c.text.as_str()).collect();
                        let cursor = if selected == Some(i) { "▶" } else { "" };
                        out.push(table_line(cursor, &cells, &widths));
                    }
                    let area = Rect { x: 0, y: y - 1, width: 200, height: count + 1 };
                    let below = table_rows(area, 0);
                    hits.list = Some(below);
                    if app.tab == Tab::Worktrees {
                        hits.marks = Some(mark_column(below.area, 24));
                        hits.pr = Some(places::pr_column(below.area, 24));
                    }
                }
            }
            if app.focus == Focus::Detail {
                if let Some(Detail { title, notes, files }) = app.detail(spinner) {
                    out.push(title);
                    for note in notes {
                        out.push(note.text);
                    }
                    match files {
                        Pane::Message(message) => out.push(message.text),
                        Pane::Table(rows) => {
                            out.push("  Added Deleted File".to_string());
                            let y = out.len() as u16;
                            let count = rows.len() as u16;
                            for (i, row) in rows.iter().enumerate() {
                                let cursor = if app.detail_table == Some(i) { "▶ " } else { "  " };
                                let cells: Vec<&str> = row.iter().map(|c| c.text.as_str()).collect();
                                out.push(format!("{cursor}{}", cells.join(" ")));
                            }
                            let area = Rect { x: 0, y: y - 1, width: 200, height: count + 1 };
                            hits.detail = Some(table_rows(area, 0));
                        }
                    }
                }
            }
        }
        if app.show_queue {
            for line in app.queue_lines() {
                out.push(line.text);
            }
        }
        match &app.mode {
            Mode::Normal => {}
            Mode::Help => {
                for line in help_lines() {
                    out.push(join(&line));
                }
            }
            Mode::AddProject(input) => {
                for line in add_project_lines(input) {
                    out.push(join(&line));
                }
            }
            Mode::Confirm(confirm) => {
                out.push(confirm.title.clone());
                for line in confirm_lines(confirm) {
                    out.push(line.text);
                }
                let (yes, no) = confirm_buttons(confirm);
                let y = out.len() as u16;
                let (first, second) = button_areas(Rect { x: 0, y, width: 80, height: 1 }, &yes, &no);
                hits.buttons = vec![(first, Button::Yes), (second, Button::No)];
                out.push(format!("{yes}  {no}"));
            }
        }
        out.push(app.footer().text);
        (out, hits)
    }

    /// The color of the sync or PR cell with this text.
    fn paint_of(&self, text: &str) -> Option<Paint> {
        let project = self.app.selected_project()?;
        match self.app.worktrees_pane(project, "") {
            Pane::Message(_) => None,
            Pane::Table(rows) => rows.into_iter().flatten().find(|c| c.text == text).map(|c| c.paint),
        }
    }

    /// Presses `j`/`k` until the table row for `key` is selected.
    fn select_row(&mut self, key: &str) -> bool {
        let screen = self.screen();
        let target = row_below(&screen, "Branch", |line| branch_of(line) == Some(key))
            .or_else(|| row_below(&screen, "Branch", |line| tokens(line).contains(&key)));
        let current = row_below(&screen, "Branch", |line| tokens(line).first() == Some(&"▶"));
        let (Some(target), Some(current)) = (target, current) else {
            return false;
        };
        let key_name = if target > current { "j" } else { "k" };
        self.keys(&vec![key_name; target.abs_diff(current)]);
        is_selected(&self.screen(), key)
    }
}

fn join(line: &[Piece]) -> String {
    line.iter().map(|p| p.text.as_str()).collect()
}

fn table_line(cursor: &str, cells: &[&str], widths: &[usize]) -> String {
    let mut line = format!("{cursor:<2}");
    for (cell, width) in cells.iter().zip(widths) {
        line.push_str(&format!("{cell:<width$} "));
    }
    line
}

// ---------------------------------------------------------------------------------------------
// Reading the screen
// ---------------------------------------------------------------------------------------------

fn tokens(line: &str) -> Vec<&str> {
    line.split(|c: char| c.is_whitespace() || matches!(c, '┌' | '┐'))
        .filter(|token| !token.is_empty())
        .collect()
}

fn line_with_token<'a>(screen: &'a str, word: &str) -> Option<&'a str> {
    screen.lines().find(|line| tokens(line).contains(&word))
}

fn has_run(line: &str, expected: &[&str]) -> bool {
    tokens(line).windows(expected.len()).any(|window| window == expected)
}

fn locate(screen: &str, needle: &str, min_col: usize) -> Option<(u16, u16)> {
    screen.lines().enumerate().find_map(|(row, line)| {
        let chars: Vec<char> = line.chars().collect();
        let tail: String = chars.iter().skip(min_col).collect();
        let at = tail.find(needle)?;
        let col = min_col + tail[..at].chars().count();
        Some((col as u16, row as u16))
    })
}

fn branch_of(line: &str) -> Option<&str> {
    tokens(line).into_iter().find(|t| !matches!(*t, "▶" | "●"))
}

fn has_ahead_behind(line: &str) -> bool {
    tokens(line).windows(2).any(|w| w[0].starts_with('↑') && w[1].starts_with('↓'))
}

fn has_worktree_row(screen: &str, branch: &str) -> bool {
    screen
        .lines()
        .any(|l| branch_of(l) == Some(branch) && (has_ahead_behind(l) || l.contains('⚠')))
}

fn row_line<'a>(screen: &'a str, key: &str) -> Option<&'a str> {
    screen
        .lines()
        .find(|l| branch_of(l) == Some(key) && tokens(l).len() > 2 && (has_ahead_behind(l) || l.contains('⚠')))
        .or_else(|| line_with_token(screen, key))
}

fn is_selected(screen: &str, key: &str) -> bool {
    screen.lines().any(|l| tokens(l).first() == Some(&"▶") && (branch_of(l) == Some(key) || tokens(l).contains(&key)))
}

fn row_below(screen: &str, header: &str, pred: impl Fn(&str) -> bool) -> Option<usize> {
    screen
        .lines()
        .skip_while(|line| !tokens(line).contains(&header))
        .skip(1)
        .position(pred)
}

fn check_row(screen: &str, key: &str, expected: &[&str]) {
    let row = row_line(screen, key);
    assert!(
        row.is_some_and(|row| has_run(row, expected)),
        "row `{key}` shows {expected:?}; found {row:?} in\n{screen}"
    );
}

fn settled(screen: &str) -> bool {
    screen.contains("fetched")
        && !["fetching", "updating", "deleting", "syncing"].iter().any(|busy| screen.contains(busy))
        && !screen.contains("jobs: ")
        && screen.lines().any(|l| tokens(l).contains(&"Sync"))
}

fn marked(screen: &str, branch: &str) -> bool {
    screen.lines().any(|l| {
        let t = tokens(l);
        t.windows(2).any(|w| w == ["●", branch])
    })
}

fn queue_shows(screen: &str, state: &str, verb: &str, label: &str) -> bool {
    screen.lines().any(|l| has_run(l, &[state, verb, label]))
}

fn worktree_row(screen: &str, branch: &str) -> Option<u16> {
    screen
        .lines()
        .position(|l| has_ahead_behind(l) && branch_of(l) == Some(branch))
        .map(|row| row as u16)
}

// ---------------------------------------------------------------------------------------------
// Fixtures
// ---------------------------------------------------------------------------------------------

const MAIN_PANE: usize = 30;

fn detached(dir: &'static str, behind: u64) -> Tree {
    Tree { branch: None, ..tree(dir, "", 0, behind) }
}

fn standard_repo() -> Repo {
    let notes = vec![b"one\ntw".to_vec(), b"o\nthree".to_vec()];
    let blob = vec![vec![0u8, 1, 2, 3, 0, 0]];
    let untracked = vec![
        ("blob.dat".to_string(), Probe::File(count_text_lines(&blob))),
        ("notes.md".to_string(), Probe::File(count_text_lines(&notes))),
    ];
    let a = Tree {
        diff: vec![
            ("2", "0", "app.rs"),
            ("4", "2", "base.txt"),
            ("-", "-", "logo.bin"),
            ("7", "0", "new.rs"),
        ],
        untracked,
        uncommitted: vec!["app.rs"],
        unpushed: 3,
        ..tree("wt-feature-a", "feature-a", 3, 2)
    };
    let b = Tree {
        diff: vec![("0", "3", "base.txt"), ("2", "0", "staged.txt")],
        uncommitted: vec!["staged.txt"],
        unpushed: 1,
        ..tree("wt-feature-b", "feature-b", 1, 2)
    };
    let gone = Tree { missing: true, ..tree("wt-gone", "gone", 0, 0) };
    Repo::new(
        "project",
        GITHUB,
        vec![tree("project", "main", 0, 2), a, b, detached("wt-detached", 2), gone],
    )
}

fn plain_clone() -> Repo {
    Repo::new("plain", "/home/e2e/origin.git", vec![tree("plain", "main", 0, 0)])
}

fn clean_edit(dir: &'static str, branch: &'static str) -> Tree {
    Tree { diff: vec![("1", "1", "base.txt")], unpushed: 1, ..tree(dir, branch, 1, 1) }
}

fn conflicting_edit(dir: &'static str, branch: &'static str) -> Tree {
    Tree {
        diff: vec![("2", "0", "notes.txt"), ("1", "1", "shared.txt")],
        unpushed: 1,
        conflicts: vec!["shared.txt"],
        ..tree(dir, branch, 1, 1)
    }
}

fn dirty_edit(dir: &'static str, branch: &'static str) -> Tree {
    Tree {
        diff: vec![("1", "0", "base.txt")],
        uncommitted: vec!["base.txt"],
        ..tree(dir, branch, 0, 1)
    }
}

fn sync_repo() -> Repo {
    let mut repo = Repo::new(
        "project",
        GITHUB,
        vec![
            tree("project", "trunk", 0, 0),
            tree("wt-main", "main", 0, 1),
            tree("wt-ff-only", "ff-only", 0, 1),
            clean_edit("wt-ready-merge", "ready-merge"),
            conflicting_edit("wt-conflict", "conflict"),
            dirty_edit("wt-dirty", "dirty"),
            tree("wt-done", "done", 0, 1),
            detached("wt-detached", 1),
        ],
    );
    repo.remote.push("done");
    repo
}

fn queue_repo() -> Repo {
    let mut files: Vec<(String, Probe)> =
        (0..300).map(|i| (format!("files/f{i}.txt"), Probe::File(Some(3)))).collect();
    files.push(("nested/".to_string(), Probe::Other));
    Repo::new(
        "project",
        GITHUB,
        vec![
            tree("project", "main", 0, 0),
            dirty_edit("wt-dirty", "dirty"),
            Tree { untracked: files, ..tree("wt-untracked", "untracked", 0, 1) },
            Tree {
                diff: vec![("3", "0", ".gitmodules"), ("1", "0", "sub")],
                unpushed: 1,
                ..tree("wt-withsub", "withsub", 1, 1)
            },
            Tree { locked: true, ..tree("wt-locked", "locked", 0, 1) },
            Tree { missing: true, ..tree("wt-missing", "missing", 0, 1) },
            Tree { missing: true, locked: true, ..tree("wt-lockgone", "lockgone", 0, 1) },
            tree("wt-b1", "b1", 0, 1),
            tree("wt-b2", "b2", 0, 1),
            tree("wt-b3", "b3", 0, 1),
            tree("wt-ready-ff", "ready-ff", 0, 1),
            clean_edit("wt-ready-merge", "ready-merge"),
            conflicting_edit("wt-conflicted", "conflicted"),
            dirty_edit("wt-dirtysync", "dirtysync"),
            tree("wt-slow", "slow", 0, 1),
            tree("wt-slow2", "slow2", 0, 1),
            tree("wt-after", "after", 0, 1),
            tree("wt-twin-a", "twin", 0, 1),
            tree("wt-twin-b", "twin", 0, 1),
        ],
    )
}

// ---------------------------------------------------------------------------------------------
// Sessions
// ---------------------------------------------------------------------------------------------

#[test]
fn worktrees_prs_and_project_management() {
    let mut app = Session::new(vec![standard_repo()], false);

    // Empty config.
    assert!(app.screen().contains("No projects yet"));

    // Adding a directory that is not a git repo is rejected inline.
    app.keys(&["a", "~/not-a-repo", "Enter"]);
    assert!(app.screen().contains("Not a git repository"));

    // `~` is expanded and the repo is added and persisted.
    app.keys(&["C-u", "~/project", "Enter"]);
    assert!(app.screen().contains("Added ~/project (GitHub: e2e/fixture)"));
    assert_eq!(app.saved, vec![vec![format!("{HOME}/project")]]);

    // Worktrees with stats against the fetched origin/main.
    app.settle();
    let screen = app.screen();
    assert!(settled(&screen));
    assert!(line_with_token(&screen, "feature-a").is_some_and(|l| l.contains("↓2")));
    assert!(screen.contains("GitHub e2e/fixture") && screen.contains("base origin/main"));
    assert!(screen.contains("Worktrees (5)"));
    check_row(
        &screen,
        "main",
        &["main", "↑0", "↓2", "ready", "(ff)", "-", "0", "+0", "-0", "~/project"],
    );
    check_row(
        &screen,
        "feature-a",
        &["feature-a", "↑3", "↓2", "dirty", "-", "6", "+16", "-2", "~/wt-feature-a"],
    );
    check_row(
        &screen,
        "feature-b",
        &["feature-b", "↑1", "↓2", "dirty", "-", "2", "+2", "-3", "~/wt-feature-b"],
    );
    let row = screen.lines().find(|l| l.contains("(detached")).expect("detached row");
    assert!(has_run(
        row,
        &["↑0", "↓2", "ready", "(ff)", "-", "0", "+0", "-0", "~/wt-detached"]
    ));
    check_row(&screen, "gone", &["~/wt-gone", "⚠", "worktree", "directory", "is", "missing"]);

    // Per-file changes of feature-a, including uncommitted and untracked files.
    app.keys(&["l"]);
    assert!(app.select_row("feature-a"));
    app.keys(&["Enter"]);
    let screen = app.screen();
    assert!(screen.contains(
        "feature-a: 6 files +16 -2 vs merge-base with origin/main (incl. uncommitted and untracked)"
    ));
    check_row(&screen, "app.rs", &["+2", "-0", "app.rs"]);
    check_row(&screen, "base.txt", &["+4", "-2", "base.txt"]);
    check_row(&screen, "logo.bin", &["bin", "logo.bin"]);
    check_row(&screen, "new.rs", &["+7", "-0", "new.rs"]);
    check_row(&screen, "notes.md", &["+3", "-0", "notes.md", "(untracked)"]);
    check_row(&screen, "blob.dat", &["bin", "blob.dat", "(untracked)"]);
    assert!(!screen.contains("debug.log"));
    assert!(!screen.contains("upstream.txt"));
    app.keys(&["j"]);
    check_row(&app.screen(), "base.txt", &["▶", "+4", "-2", "base.txt"]);

    // Open PRs from gh.
    app.keys(&["Escape", "Tab"]);
    let screen = app.screen();
    assert!(screen.contains("Pull requests (2)"));
    check_row(
        &screen,
        "#42",
        &["#42", "Add", "worktree", "dashboard", "feature-a", "octocat", "3", "+25", "-4"],
    );
    check_row(
        &screen,
        "#7",
        &["#7", "Try", "new", "colors", "feature-b", "hubot", "draft", "1", "+2", "-3"],
    );
    app.keys(&["Enter"]);
    let screen = app.screen();
    assert!(screen.contains("#42 Add worktree dashboard: 3 files +25 -4"));
    check_row(&screen, "src/ui.rs", &["+20", "-4", "src/ui.rs"]);
    check_row(&screen, "README.md", &["+5", "-0", "README.md"]);
    check_row(&screen, "assets/logo.png", &["+0", "-0", "assets/logo.png"]);
    let calls = &app.repos[0].calls;
    assert!(calls.iter().any(|l| l.starts_with("pr list -R e2e/fixture --state open")));
    assert!(calls.iter().any(|l| l == "pr view 42 -R e2e/fixture --json files"));

    // Help.
    app.keys(&["?"]);
    let screen = app.screen();
    assert!(screen.contains("press any key to close") && screen.contains("merge-base"));
    app.keys(&["x"]);
    assert!(!app.screen().contains("press any key to close"));

    // Remove with confirmation.
    app.keys(&["h", "h", "d"]);
    assert!(app.screen().contains("Remove ~/project from tuitree?"));
    app.keys(&["y"]);
    assert!(app.screen().contains("No projects yet"));
    assert_eq!(app.saved.last(), Some(&vec![]));

    app.keys(&["q"]);
    assert!(app.app.should_quit);
}

#[test]
fn pull_requests_explain_missing_gh() {
    // gh installed but logged out.
    let mut logged_out = standard_repo();
    logged_out.gh = Gh::LoggedOut;
    let mut app = Session::new(vec![logged_out, plain_clone()], true);
    app.settle();
    assert!(app.screen().contains("fetched"));
    app.keys(&["Tab"]);
    let screen = app.screen();
    assert!(screen.contains("gh is not logged in"));
    assert!(screen.contains("Run `gh auth login`, then press r."));
    app.keys(&["q"]);
    assert!(app.app.should_quit);

    // gh not installed at all.
    let mut missing = standard_repo();
    missing.gh = Gh::Missing;
    let mut app = Session::new(vec![missing, plain_clone()], true);
    app.settle();
    app.keys(&["Tab"]);
    let screen = app.screen();
    assert!(screen.contains("GitHub CLI (gh) is not installed"));
    assert!(screen.contains("sudo pacman -S github-cli"));

    // A repo whose origin is not on GitHub.
    app.keys(&["j"]);
    app.settle();
    let screen = app.screen();
    assert!(screen.contains("origin is not a GitHub remote"));
    assert!(screen.contains("GitHub none (origin is not on GitHub)"));
    app.keys(&["q"]);
    assert!(app.app.should_quit);
}

#[test]
fn worktree_cleanup_sync_and_mouse() {
    let mut app = Session::new(vec![sync_repo(), plain_clone()], true);
    app.settle();

    // Sync column.
    let screen = app.screen();
    assert!(settled(&screen), "{screen}");
    check_row(&screen, "trunk", &["trunk", "↑0", "↓0", "up", "to", "date"]);
    check_row(&screen, "main", &["main", "↑0", "↓1", "ready", "(ff)"]);
    check_row(&screen, "ff-only", &["ff-only", "↑0", "↓1", "ready", "(ff)"]);
    check_row(
        &screen,
        "ready-merge",
        &["ready-merge", "↑1", "↓1", "ready", "-", "1", "+1", "-1"],
    );
    check_row(&screen, "conflict", &["conflict", "↑1", "↓1", "conflicts", "1", "-", "2"]);
    check_row(&screen, "dirty", &["dirty", "↑0", "↓1", "dirty", "-", "1", "+1", "-0"]);

    // Mouse: click the other project, then back.
    app.click(locate(&screen, "plain", 0));
    app.settle();
    let screen = app.screen();
    assert!(screen.contains("┌ ~/plain "));
    app.click(locate(&screen, "project", 0));
    assert!(app.screen().contains("┌ ~/project "));

    // Mouse: tabs.
    let screen = app.screen();
    app.click(locate(&screen, "Pull requests", MAIN_PANE));
    let screen = app.screen();
    assert!(screen.contains("#42"));
    app.click(locate(&screen, "Worktrees", MAIN_PANE));
    let screen = app.screen();
    assert!(screen.lines().any(|l| tokens(l).contains(&"Sync")));

    // Mouse: click a row to select it, click it again to open its detail.
    app.click(locate(&screen, "conflict ", 0));
    let screen = app.screen();
    assert!(is_selected(&screen, "conflict"));
    assert!(!screen.contains("vs merge-base"));
    app.click(locate(&screen, "conflict ", 0));
    let screen = app.screen();
    assert!(screen.contains("vs merge-base"));
    assert!(
        screen.contains("Merging origin/main would conflict in 1 file(s):")
            && line_with_token(&screen, "shared.txt").is_some_and(|l| l.contains("✗ shared.txt"))
    );
    let detail_row = screen
        .lines()
        .enumerate()
        .find(|(_, l)| tokens(l).contains(&"shared.txt") && l.contains("+1"))
        .map(|(row, l)| (l.find("shared.txt").map_or(0, |b| l[..b].chars().count()) as u16, row as u16));
    app.click(detail_row);
    let screen = app.screen();
    assert!(screen
        .lines()
        .any(|l| tokens(l).windows(4).any(|w| w == ["▶", "+1", "-1", "shared.txt"])));

    // Mouse wheel over the worktree list moves its selection.
    app.keys(&["Escape"]);
    let screen = app.screen();
    let before = row_below(&screen, "Branch", |l| tokens(l).contains(&"▶"));
    let over_list = locate(&screen, "conflict ", 0).expect("row");
    app.mouse(MouseKind::ScrollDown, over_list);
    let after = row_below(&app.screen(), "Branch", |l| tokens(l).contains(&"▶"));
    assert!(before.is_some() && after == before.map(|b| b + 1));

    // Sync refusals explain why.
    let refusals = [
        ("conflict", "would conflict in 1 file. Merge by hand."),
        ("dirty", "dirty has uncommitted changes. Commit or stash them, then sync."),
        ("trunk", "trunk is already up to date with origin/main."),
    ];
    for (branch, why) in refusals {
        assert!(app.select_row(branch));
        app.keys(&["s"]);
        assert!(app.screen().contains(why), "{branch}");
    }

    // Sync a branch that merges cleanly, confirming with a mouse click on the dialog button.
    assert!(app.select_row("ready-merge"));
    app.keys(&["s"]);
    let screen = app.screen();
    assert!(screen.contains("Merge origin/main into ready-merge?"));
    assert!(screen.contains("Creates a merge commit"));
    app.click(locate(&screen, "[ y Sync ]", 0));
    app.settle();
    let screen = app.screen();
    assert!(settled(&screen), "{screen}");
    check_row(&screen, "ready-merge", &["ready-merge", "↑2", "↓0", "up", "to", "date"]);
    assert_eq!(app.repos[0].lacks("wt-ready-merge"), 0);

    // Sync a fast-forward with the keyboard.
    assert!(app.select_row("ff-only"));
    app.keys(&["s"]);
    assert!(app.screen().contains("Fast-forward: no merge commit needed."));
    app.keys(&["y"]);
    app.settle();
    check_row(&app.screen(), "ff-only", &["ff-only", "↑0", "↓0", "up", "to", "date"]);

    // Protected worktrees.
    assert!(app.select_row("trunk"));
    app.keys(&["x"]);
    let screen = app.screen();
    assert!(screen.contains("The main worktree can't be deleted."));
    assert!(!screen.contains("Delete worktree"));
    assert!(app.select_row("main"));
    app.keys(&["x"]);
    assert!(app.screen().contains("main is the default branch; tuitree won't delete it."));

    // Clean delete: worktree and local branch go, the remote branch stays.
    assert!(app.select_row("done"));
    app.keys(&["x"]);
    let screen = app.screen();
    assert!(screen.contains("Delete worktree"));
    assert!(screen.contains("• ~/wt-done  worktree and local branch done"));
    assert!(screen.contains("clean, pushed and merged"));
    app.keys(&["y"]);
    app.settle();
    let screen = app.screen();
    assert!(settled(&screen) && !has_worktree_row(&screen, "done"));
    assert!(!app.repos[0].has_dir("wt-done"));
    assert!(!app.repos[0].has_branch("done"));
    assert!(app.repos[0].remote.contains(&"done"));

    // Unmerged branch: one informed confirm, no second prompt.
    assert!(app.select_row("conflict"));
    app.keys(&["x"]);
    let screen = app.screen();
    assert!(screen.contains("⚠ 1 commit not on origin (unpushed)"));
    assert!(screen.contains("⚠ branch not merged into origin/main: 1 commit only on this branch"));
    app.click(locate(&screen, "[ y Delete ]", 0));
    app.settle();
    let screen = app.screen();
    assert!(settled(&screen) && !has_worktree_row(&screen, "conflict"));
    assert!(!screen.contains("Force delete?"));
    assert!(!app.repos[0].has_dir("wt-conflict") && !app.repos[0].has_branch("conflict"));

    // Detached worktree: only the worktree is removed; cancel first with the mouse.
    let screen = app.screen();
    let index = row_below(&screen, "Branch", |l| l.contains("(detached")).expect("row");
    let current = row_below(&screen, "Branch", |l| tokens(l).contains(&"▶")).expect("cursor");
    let key = if index > current { "j" } else { "k" };
    app.keys(&vec![key; index.abs_diff(current)]);
    app.keys(&["x"]);
    let screen = app.screen();
    assert!(screen.contains("worktree only (detached HEAD)"));
    app.click(locate(&screen, "[ n Cancel ]", 0));
    assert!(!app.screen().contains("Delete worktree") && app.repos[0].has_dir("wt-detached"));
    app.keys(&["x", "y"]);
    app.settle();
    let screen = app.screen();
    assert!(!screen.lines().any(|l| has_ahead_behind(l) && l.contains("(detached")));
    assert!(screen.contains("Deleted worktree ~/wt-detached."));
    assert!(!app.repos[0].has_dir("wt-detached"));

    app.keys(&["q"]);
    assert!(app.app.should_quit);
}

#[test]
fn queue_batch_and_forced_delete() {
    let mut app = Session::new(vec![queue_repo(), plain_clone()], true);
    app.settle();
    let screen = app.screen();
    assert!(screen
        .lines()
        .any(|l| tokens(l).contains(&"missing") && l.contains("worktree directory is missing")));
    check_row(&screen, "conflicted", &["conflicted", "↑1", "↓1", "conflicts", "1"]);
    check_row(&screen, "dirtysync", &["dirtysync", "↑0", "↓1", "dirty"]);
    check_row(&screen, "ready-ff", &["ready-ff", "↑0", "↓1", "ready", "(ff)"]);
    check_row(&screen, "ready-merge", &["ready-merge", "↑1", "↓1", "ready", "-", "1"]);
    app.keys(&["l"]);

    // 1. A dirty worktree goes with one confirm; no second "force" prompt.
    assert!(app.select_row("dirty"));
    app.keys(&["x"]);
    let screen = app.screen();
    assert!(screen.contains("Delete worktree"));
    assert!(screen.contains("Deletes with --force: uncommitted and untracked files in them are lost."));
    assert!(screen.contains("⚠ uncommitted changes: 1 changed file, 0 untracked files"));
    app.keys(&["y"]);
    app.settle();
    let screen = app.screen();
    assert!(settled(&screen) && !has_worktree_row(&screen, "dirty"));
    assert!(!screen.contains("Force delete") && queue_shows(&screen, "done", "delete", "dirty"));
    assert!(!app.repos[0].has_dir("wt-dirty") && !app.repos[0].has_branch("dirty"));

    // 2. Batch: untracked-heavy, submodule, locked, missing, locked+missing; marked with space.
    let hard = ["untracked", "withsub", "locked", "missing", "lockgone"];
    for branch in hard {
        assert!(app.select_row(branch));
        app.keys(&["Space"]);
    }
    let screen = app.screen();
    for branch in hard {
        assert!(marked(&screen, branch), "{branch} is marked");
    }
    app.keys(&["x"]);
    let screen = app.screen();
    assert!(screen.contains("Delete 5 worktrees"));
    for b in hard {
        assert!(screen.contains(&format!("• ~/wt-{b}  worktree and local branch {b}")));
    }
    assert!(screen.contains("301 untracked files"));
    assert!(screen.contains("⚠ locked (git worktree lock); it is unlocked and removed"));
    assert!(screen.contains("⚠ could not read the worktree state: worktree directory is missing"));
    assert!(screen.contains("[ y Delete 5 ]"));
    app.keys(&["y"]);
    app.settle();
    let screen = app.screen();
    assert!(settled(&screen) && hard.iter().all(|b| !has_worktree_row(&screen, b)));
    for branch in hard {
        assert!(!app.repos[0].listing().contains(&format!("wt-{branch}")));
        assert!(!app.repos[0].has_branch(branch));
    }

    // 3. Batch delete of 3 rows marked with the mouse; the cursor stays on its worktree.
    assert!(app.select_row("ready-merge"));
    let screen = app.screen();
    let mark_x = locate(&screen, "Branch", 0).map(|(x, _)| x - 2).expect("header");
    for branch in ["b1", "b2", "b3"] {
        let y = worktree_row(&screen, branch).expect("row");
        app.click(Some((mark_x, y)));
    }
    let screen = app.screen();
    assert!(["b1", "b2", "b3"].iter().all(|b| marked(&screen, b)));
    assert!(!marked(&screen, "ready-merge") && is_selected(&screen, "ready-merge"));
    app.keys(&["x"]);
    let screen = app.screen();
    assert!(screen.contains("Delete 3 worktrees"));
    assert!(["b1", "b2", "b3"]
        .iter()
        .all(|b| screen.contains(&format!("• ~/wt-{b}  worktree and local branch {b}"))));
    app.click(locate(&screen, "[ y Delete 3 ]", 0));
    app.settle();
    let screen = app.screen();
    assert!(settled(&screen) && ["b1", "b2", "b3"].iter().all(|b| !has_worktree_row(&screen, b)));
    assert!(is_selected(&screen, "ready-merge"));
    assert!(["b1", "b2", "b3"]
        .iter()
        .all(|b| !app.repos[0].has_dir(&format!("wt-{b}")) && !app.repos[0].has_branch(b)));

    // 4. Marks survive a refresh; batch sync runs only the ready rows.
    let mixed = ["ready-ff", "ready-merge", "conflicted", "dirtysync"];
    for branch in mixed {
        assert!(app.select_row(branch));
        app.keys(&["Space"]);
    }
    app.keys(&["r"]);
    app.settle();
    let screen = app.screen();
    assert!(mixed.iter().all(|b| marked(&screen, b)));
    app.keys(&["s"]);
    let screen = app.screen();
    assert!(screen.contains("Sync 2 with origin"));
    assert!(screen.contains("• ready-ff: fast-forward"));
    assert!(screen.contains("• ready-merge: merge commit (1 behind, 1 ahead)"));
    assert!(screen.contains("• conflicted skipped: would conflict in 1 file"));
    assert!(screen.contains("• dirtysync skipped: uncommitted changes"));
    app.keys(&["y"]);
    app.settle();
    let screen = app.screen();
    check_row(&screen, "ready-ff", &["ready-ff", "↑0", "↓0", "up", "to", "date"]);
    check_row(&screen, "ready-merge", &["ready-merge", "↑2", "↓0", "up", "to", "date"]);
    check_row(&screen, "conflicted", &["conflicted", "↑1", "↓1", "conflicts", "1"]);
    check_row(&screen, "dirtysync", &["dirtysync", "↑0", "↓1", "dirty"]);
    assert!(queue_shows(&screen, "skipped", "sync", "conflicted"));
    assert!(queue_shows(&screen, "skipped", "sync", "dirtysync"));
    assert!(screen.contains("would conflict in 1 file"));
    assert!(queue_shows(&screen, "done", "sync", "ready-ff"));
    assert!(queue_shows(&screen, "done", "sync", "ready-merge"));

    // Only the ready worktrees contain origin/main.
    assert_eq!(app.repos[0].lacks("wt-ready-merge"), 0);
    assert_eq!(app.repos[0].lacks("wt-ready-ff"), 0);
    assert_eq!(app.repos[0].lacks("wt-conflicted"), 1);
    assert_eq!(app.repos[0].lacks("wt-dirtysync"), 1);

    // 5. A failing job, a slow one, and a job queued while the slow one runs.
    assert!(app.select_row("~/wt-twin-a"));
    app.keys(&["x", "y"]);
    assert!(app.select_row("slow"));
    app.keys(&["x", "y"]);
    assert!(app.begin(0));
    app.finish(0);
    assert!(app.begin(0));
    assert!(queue_shows(&app.screen(), "running", "delete", "slow"));
    assert!(app.select_row("after"));
    app.keys(&["x", "y"]);
    let screen = app.screen();
    assert!(queue_shows(&screen, "failed", "delete", "twin"));
    assert!(screen.contains("The worktree is gone, but git branch -D twin failed:"));
    assert!(screen.contains("cannot delete branch 'twin' used by worktree at"));
    assert!(queue_shows(&screen, "running", "delete", "slow"));
    assert!(queue_shows(&screen, "pending", "delete", "after"));
    let row = |branch: &str| {
        let y = worktree_row(&screen, branch).expect("row");
        screen.lines().nth(y as usize).expect("line").to_string()
    };
    assert!(row("slow").contains("deleting"));
    assert!(row("after").contains("queued delete"));

    // The UI stays usable while the slow job runs: move, switch projects, come back.
    assert!(app.select_row("conflicted"));
    let screen = app.screen();
    app.click(locate(&screen, "plain", 0));
    let screen = app.screen();
    assert!(screen.contains("┌ ~/plain "));
    app.click(locate(&screen, "project", 0));
    let screen = app.screen();
    assert!(screen.contains("┌ ~/project ") && queue_shows(&screen, "running", "delete", "slow"));
    app.settle();
    let screen = app.screen();
    assert!(!has_worktree_row(&screen, "slow") && !has_worktree_row(&screen, "after"));
    assert!(queue_shows(&screen, "done", "delete", "slow"));
    assert!(queue_shows(&screen, "done", "delete", "after"));
    assert!(!app.repos[0].has_dir("wt-twin-a") && app.repos[0].has_branch("twin"));
    assert!(!app.repos[0].has_dir("wt-slow") && !app.repos[0].has_branch("slow"));
    assert!(!app.repos[0].has_dir("wt-after"));

    // 6. Quitting with a job still running asks first.
    app.keys(&["l"]);
    assert!(app.select_row("slow2"));
    app.keys(&["x", "y"]);
    assert!(app.begin(0));
    app.keys(&["q"]);
    let screen = app.screen();
    assert!(screen.contains("Quit?"));
    assert!(screen.contains("1 job is still queued or running."));
    app.keys(&["n"]);
    assert!(!app.app.should_quit);
    app.settle();
    assert!(!has_worktree_row(&app.screen(), "slow2"));
    app.keys(&["q"]);
    assert!(app.app.should_quit);
}

fn merged_repo() -> Repo {
    let mut repo = Repo::new(
        "project",
        GITHUB,
        vec![
            tree("project", "main", 0, 3),
            Tree {
                diff: vec![("1", "1", "base.txt"), ("4", "0", "feature.txt")],
                unpushed: 2,
                merged_tree: "base-tree",
                head: "aaaa",
                ..tree("wt-squashed", "squashed", 2, 4)
            },
            Tree {
                diff: vec![("1", "1", "base.txt")],
                unpushed: 1,
                conflicts: vec!["base.txt"],
                head: "bbbb",
                ..tree("wt-pr-merged", "pr-merged", 1, 4)
            },
            Tree {
                diff: vec![("3", "0", "reuse.txt")],
                unpushed: 2,
                head: "cccc",
                ..tree("wt-reused", "reused", 2, 4)
            },
            Tree {
                diff: vec![("2", "0", "work.txt")],
                unpushed: 1,
                head: "dddd",
                ..tree("wt-open-work", "open-work", 1, 4)
            },
        ],
    );
    repo.prs = vec![
        (42, "pr-merged", "bbbb", "MERGED", false, false, "2026-09-24T05:00:00Z"),
        (7, "reused", "older", "MERGED", false, false, "2026-09-24T05:00:00Z"),
    ];
    repo
}

#[test]
fn squash_merged_branches() {
    // Without gh: the content check alone finds the squash merge that main left alone.
    let mut repo = merged_repo();
    repo.gh = Gh::Missing;
    let mut app = Session::new(vec![repo], true);
    app.settle();
    let screen = app.screen();
    assert!(settled(&screen));
    check_row(&screen, "squashed", &["squashed", "↑2", "↓4", "merged", "2"]);
    check_row(&screen, "pr-merged", &["pr-merged", "↑1", "↓4", "conflicts", "1"]);
    app.keys(&["q"]);
    assert!(app.app.should_quit);

    // With gh: merged PRs identify the rest, but not a reused branch with new work.
    let mut app = Session::new(vec![merged_repo()], true);
    app.settle();
    let screen = app.screen();
    assert!(settled(&screen));
    check_row(&screen, "squashed", &["squashed", "↑2", "↓4", "merged", "-", "2"]);
    check_row(
        &screen,
        "pr-merged",
        &["pr-merged", "↑1", "↓4", "merged", "#42", "#42", "merged", "1"],
    );
    check_row(&screen, "reused", &["reused", "↑2", "↓4", "ready", "#7", "merged", "1"]);
    check_row(&screen, "open-work", &["open-work", "↑1", "↓4", "ready", "-", "1"]);
    let calls = &app.repos[0].calls;
    let merged_calls = calls.iter().filter(|l| l.contains("--state all")).count();
    assert_eq!(merged_calls, 1);
    assert!(calls
        .iter()
        .any(|l| l.contains("pr list -R e2e/fixture --state all --limit 300")));

    // Detail and sync explain it; the delete dialog does not call it unmerged.
    app.keys(&["l"]);
    assert!(app.select_row("squashed"));
    app.keys(&["Enter"]);
    let screen = app.screen();
    assert!(screen.contains("✓ Already merged"));
    assert!(screen.contains("merging it into origin/main would change nothing"));
    app.keys(&["Escape", "s"]);
    assert!(app
        .screen()
        .contains("squashed is already merged into origin/main; delete it (x) instead"));
    app.keys(&["x"]);
    let screen = app.screen();
    assert!(screen.contains("Delete worktree"));
    assert!(screen.contains("✓ merged; its work is already in origin/main"));
    assert!(!screen.contains("not merged") && !screen.contains("unpushed"));
    app.keys(&["n"]);

    // M marks every merged row, and one confirm cleans them up.
    app.keys(&["M"]);
    let screen = app.screen();
    assert!(marked(&screen, "squashed") && marked(&screen, "pr-merged"));
    assert!(!marked(&screen, "reused") && !marked(&screen, "open-work"));
    app.keys(&["x"]);
    let screen = app.screen();
    assert!(screen.contains("Delete 2 worktrees"));
    assert!(screen.contains("✓ merged (PR #42); its work is in origin/main"));
    assert!(!screen.contains("not merged"));
    app.keys(&["y"]);
    app.settle();
    let screen = app.screen();
    assert!(settled(&screen));
    assert!(!has_worktree_row(&screen, "squashed") && !has_worktree_row(&screen, "pr-merged"));
    assert!(!app.repos[0].has_dir("wt-squashed"));
    assert!(!app.repos[0].has_branch("squashed") && !app.repos[0].has_branch("pr-merged"));
    assert!(has_worktree_row(&screen, "reused") && has_worktree_row(&screen, "open-work"));
    app.keys(&["q"]);
    assert!(app.app.should_quit);
}

fn pr_repo() -> Repo {
    let zero = "0000000000000000000000000000000000000000";
    let mut repo = Repo::new(
        "project",
        GITHUB,
        vec![
            tree("project", "main", 0, 0),
            tree("wt-open", "feat-open", 0, 1),
            tree("wt-draft", "feat-draft", 0, 1),
            tree("wt-closed", "feat-closed", 0, 1),
            tree("wt-merged", "feat-merged", 0, 1),
            tree("wt-fork", "feat-fork", 0, 1),
            tree("wt-multi", "feat-multi", 0, 1),
            tree("wt-none", "feat-none", 0, 1),
        ],
    );
    repo.prs = vec![
        (42, "feat-open", zero, "OPEN", false, false, "2026-09-10T00:00:00Z"),
        (43, "feat-draft", zero, "OPEN", true, false, "2026-09-11T00:00:00Z"),
        (44, "feat-closed", zero, "CLOSED", false, false, "2026-09-12T00:00:00Z"),
        (45, "feat-merged", zero, "MERGED", false, false, "2026-09-13T00:00:00Z"),
        (50, "feat-fork", zero, "OPEN", false, true, "2026-09-14T00:00:00Z"),
        (20, "feat-multi", zero, "CLOSED", false, false, "2026-09-01T00:00:00Z"),
        (21, "feat-multi", zero, "OPEN", false, false, "2026-09-20T00:00:00Z"),
    ];
    repo.open = vec![
        (21, "Second try", "feat-multi", "octocat", false, 1, 1, 0),
        (42, "Open feature", "feat-open", "octocat", false, 1, 2, 0),
        (43, "Draft feature", "feat-draft", "hubot", true, 1, 3, 1),
    ];
    repo
}

fn pr_selected(screen: &str, number: &str) -> bool {
    screen.lines().any(|l| has_run(l, &["▶", number]))
}

#[test]
fn pr_column() {
    let mut app = Session::new(vec![pr_repo()], true);
    app.settle();
    let screen = app.screen();
    assert!(settled(&screen));
    let expected: [(&str, &[&str]); 8] = [
        ("main", &["up", "to", "date", "-", "0"]),
        ("feat-open", &["(ff)", "#42", "open", "0"]),
        ("feat-draft", &["(ff)", "#43", "draft", "0"]),
        ("feat-closed", &["(ff)", "#44", "closed", "0"]),
        ("feat-merged", &["(ff)", "#45", "merged", "0"]),
        ("feat-fork", &["(ff)", "-", "0"]),
        ("feat-multi", &["(ff)", "#21", "open", "0"]),
        ("feat-none", &["(ff)", "-", "0"]),
    ];
    for (branch, run) in expected {
        check_row(&screen, branch, run);
    }
    // green open, grey draft, red closed, purple (magenta) merged
    let colors = [
        ("#42 open", Paint::Added),
        ("#43 draft", Paint::Muted),
        ("#44 closed", Paint::Deleted),
        ("#45 merged", Paint::Merged),
    ];
    for (text, color) in colors {
        assert_eq!(app.paint_of(text), Some(color), "{text}");
    }

    // p on a row jumps to its open PR.
    app.keys(&["l"]);
    assert!(app.select_row("feat-multi"));
    app.keys(&["p"]);
    let screen = app.screen();
    assert!(pr_selected(&screen, "#21") && screen.contains("Second try"));

    // Clicking the PR cell does the same.
    app.keys(&["Tab"]);
    let screen = app.screen();
    app.click(locate(&screen, "#42 open", MAIN_PANE));
    assert!(pr_selected(&app.screen(), "#42"));

    // Merged and missing PRs explain themselves.
    app.keys(&["Tab"]);
    assert!(app.select_row("feat-merged"));
    app.keys(&["p"]);
    assert!(app
        .screen()
        .contains("PR #45 is merged; the Pull requests tab lists open PRs."));
    assert!(app.select_row("feat-none"));
    app.keys(&["p"]);
    assert!(app.screen().contains("feat-none has no PR."));
    let all_calls = app.repos[0].calls.iter().filter(|l| l.contains("--state all")).count();
    assert_eq!(all_calls, 1);
    app.keys(&["q"]);
    assert!(app.app.should_quit);

    // Without gh the column stays empty.
    let mut repo = pr_repo();
    repo.gh = Gh::Missing;
    let mut app = Session::new(vec![repo], true);
    app.settle();
    let screen = app.screen();
    assert!(settled(&screen));
    check_row(&screen, "feat-open", &["feat-open", "↑0", "↓1", "ready", "(ff)", "0"]);
    check_row(&screen, "main", &["main", "↑0", "↓0", "up", "to", "date", "0"]);
    app.keys(&["q"]);
    assert!(app.app.should_quit);
}
