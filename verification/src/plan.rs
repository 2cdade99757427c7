//! The plan of a run: the derived names and the ordered steps.

use vstd::prelude::*;
use vstd::string::StringExecFns;
use crate::error::InitError;
use crate::naming::{get_repo_name, opt_view, repo_name_of, year_text, year_text_of};
use crate::path::{join_path, joined_path};
use crate::replace::{pairs_of, Replacement};
use crate::step::{steps_view, texts_of, Step, StepView};
use crate::title::{
    ascii_title, hyphen_to_title, is_ascii_text, is_kebab, kebab_title, title_of,
};

verus! {

/// The flag that asks the hosting platform for a public or a private
/// repository.
pub open spec fn visibility_flag(public: bool) -> Seq<char> {
    if public {
        "--public"@
    } else {
        "--private"@
    }
}

/// The address of the created repository.
pub open spec fn remote_url(repo: Seq<char>) -> Seq<char> {
    "https://github.com/darrenkuro/"@ + repo + ".git"@
}

/// The scratch directory of a repository: under `temp_dir`, named after the
/// repository.
pub open spec fn scratch_of(temp_dir: Seq<char>, repo: Seq<char>) -> Seq<char> {
    joined_path(temp_dir, repo + "_template_clone"@)
}

/// The steps of a run, in the order in which they are performed: create the
/// remote repository from the template, clone it into the scratch
/// directory, copy it into the target, remove the scratch directory,
/// rewrite the placeholders of the readme and of the license, enter the
/// target, and there initialise, set the remote, stage, commit and push.
pub open spec fn steps_of(
    dir: Seq<char>,
    public: bool,
    repo: Seq<char>,
    title: Seq<char>,
    year: Seq<char>,
    scratch: Seq<char>,
) -> Seq<StepView> {
    seq![
        StepView::Run {
            program: "gh"@,
            args: seq![
                "repo"@,
                "create"@,
                repo,
                "--template"@,
                "darrenkuro/repo-template"@,
                visibility_flag(public),
                "--confirm"@,
            ],
        },
        StepView::ClearScratch { path: scratch },
        StepView::Run { program: "gh"@, args: seq!["repo"@, "clone"@, repo, scratch] },
        StepView::CopyTemplate { from: scratch, to: dir },
        StepView::RemoveScratch { path: scratch },
        StepView::Substitute {
            file: joined_path(dir, "README.md"@),
            replacements: seq![("{{REPO_NAME}}"@, repo), ("{{PROJECT_NAME}}"@, title)],
        },
        StepView::Substitute {
            file: joined_path(dir, "LICENSE"@),
            replacements: seq![("{{YEAR}}"@, year)],
        },
        StepView::ChangeDirectory { dir: dir },
        StepView::Run { program: "git"@, args: seq!["init"@] },
        StepView::Run {
            program: "git"@,
            args: seq!["remote"@, "add"@, "origin"@, remote_url(repo)],
        },
        StepView::Run { program: "git"@, args: seq!["add"@, "."@] },
        StepView::Run { program: "git"@, args: seq!["commit"@, "-m"@, "Initial commit"@] },
        StepView::Run { program: "git"@, args: seq!["push"@, "-u"@, "origin"@, "main"@] },
    ]
}

/// What a run works with: the derived names, the scratch directory, and the
/// steps to perform.
#[derive(Clone, Debug, PartialEq, Eq)]
pub struct Project {
    pub repo_name: String,
    pub project_title: String,
    pub year: String,
    pub scratch_dir: String,
    pub steps: Vec<Step>,
}

impl Project {
    /// This is the plan for the repository `repo` in the directory `dir`,
    /// made in the calendar year `year` with scratch space under `temp_dir`.
    /// The steps work with the names that the plan holds. The title of an
    /// ASCII repository name is fixed character by character; that of a
    /// name of ASCII lower-case letters and hyphens has each
    /// hyphen-delimited word capitalized.
    pub open spec fn describes(
        self,
        dir: Seq<char>,
        public: bool,
        repo: Seq<char>,
        temp_dir: Seq<char>,
        year: int,
    ) -> bool {
        &&& self.repo_name@ == repo
        &&& self.project_title@ == title_of(repo)
        &&& is_ascii_text(repo) ==> self.project_title@ == ascii_title(repo)
        &&& is_kebab(repo) ==> self.project_title@ == kebab_title(repo)
        &&& self.year@ == year_text_of(year)
        &&& self.scratch_dir@ == scratch_of(temp_dir, repo)
        &&& steps_view(self.steps@) == steps_of(
            dir,
            public,
            repo,
            self.project_title@,
            self.year@,
            self.scratch_dir@,
        )
    }
}

/// A step that runs `program` with `args`.
fn run_step(program: &str, args: Vec<String>) -> (step: Step)
    ensures
        step@ == (StepView::Run { program: program@, args: texts_of(args@) }),
{
    Step::Run { program: String::from_str(program), args }
}

/// A replacement of `token` by `value`.
fn replacement(token: &str, value: &str) -> (r: Replacement)
    ensures
        r@ == (token@, value@),
{
    Replacement { token: String::from_str(token), value: String::from_str(value) }
}

/// The steps of a run for the given names.
pub fn plan_steps(
    dir: &str,
    public: bool,
    repo_name: &str,
    project_title: &str,
    year: &str,
    scratch_dir: &str,
) -> (steps: Vec<Step>)
    ensures
        steps_view(steps@) == steps_of(
            dir@,
            public,
            repo_name@,
            project_title@,
            year@,
            scratch_dir@,
        ),
{
    let ghost want = steps_of(dir@, public, repo_name@, project_title@, year@, scratch_dir@);
    let mut steps: Vec<Step> = Vec::new();

    let visibility = if public {
        "--public"
    } else {
        "--private"
    };
    let mut create: Vec<String> = Vec::new();
    create.push(String::from_str("repo"));
    create.push(String::from_str("create"));
    create.push(String::from_str(repo_name));
    create.push(String::from_str("--template"));
    create.push(String::from_str("darrenkuro/repo-template"));
    create.push(String::from_str(visibility));
    create.push(String::from_str("--confirm"));
    proof {
        assert(texts_of(create@) =~= want[0]->Run_args);
    }
    steps.push(run_step("gh", create));

    steps.push(Step::ClearScratch { path: String::from_str(scratch_dir) });

    let mut clone: Vec<String> = Vec::new();
    clone.push(String::from_str("repo"));
    clone.push(String::from_str("clone"));
    clone.push(String::from_str(repo_name));
    clone.push(String::from_str(scratch_dir));
    proof {
        assert(texts_of(clone@) =~= want[2]->Run_args);
    }
    steps.push(run_step("gh", clone));

    steps.push(
        Step::CopyTemplate { from: String::from_str(scratch_dir), to: String::from_str(dir) },
    );
    steps.push(Step::RemoveScratch { path: String::from_str(scratch_dir) });

    let mut readme: Vec<Replacement> = Vec::new();
    readme.push(replacement("{{REPO_NAME}}", repo_name));
    readme.push(replacement("{{PROJECT_NAME}}", project_title));
    proof {
        assert(pairs_of(readme@) =~= want[5]->Substitute_replacements);
    }
    steps.push(Step::Substitute { file: join_path(dir, "README.md"), replacements: readme });

    let mut license: Vec<Replacement> = Vec::new();
    license.push(replacement("{{YEAR}}", year));
    proof {
        assert(pairs_of(license@) =~= want[6]->Substitute_replacements);
    }
    steps.push(Step::Substitute { file: join_path(dir, "LICENSE"), replacements: license });

    steps.push(Step::ChangeDirectory { dir: String::from_str(dir) });

    let mut init: Vec<String> = Vec::new();
    init.push(String::from_str("init"));
    proof {
        assert(texts_of(init@) =~= want[8]->Run_args);
    }
    steps.push(run_step("git", init));

    let mut url = String::from_str("https://github.com/darrenkuro/");
    url.append(repo_name);
    url.append(".git");
    let mut remote: Vec<String> = Vec::new();
    remote.push(String::from_str("remote"));
    remote.push(String::from_str("add"));
    remote.push(String::from_str("origin"));
    remote.push(url);
    proof {
        assert(texts_of(remote@) =~= want[9]->Run_args);
    }
    steps.push(run_step("git", remote));

    let mut stage: Vec<String> = Vec::new();
    stage.push(String::from_str("add"));
    stage.push(String::from_str("."));
    proof {
        assert(texts_of(stage@) =~= want[10]->Run_args);
    }
    steps.push(run_step("git", stage));

    let mut commit: Vec<String> = Vec::new();
    commit.push(String::from_str("commit"));
    commit.push(String::from_str("-m"));
    commit.push(String::from_str("Initial commit"));
    proof {
        assert(texts_of(commit@) =~= want[11]->Run_args);
    }
    steps.push(run_step("git", commit));

    let mut push: Vec<String> = Vec::new();
    push.push(String::from_str("push"));
    push.push(String::from_str("-u"));
    push.push(String::from_str("origin"));
    push.push(String::from_str("main"));
    proof {
        assert(texts_of(push@) =~= want[12]->Run_args);
    }
    steps.push(run_step("git", push));

    proof {
        assert(steps_view(steps@) =~= want);
    }
    steps
}

/// What planning a run comes to. Inside a version-controlled tree it is
/// refused before anything else is looked at; a directory without a final
/// component is refused next; otherwise the plan for the derived names comes
/// back.
pub open spec fn planned(
    outcome: Result<Project, InitError>,
    dir: Seq<char>,
    public: bool,
    inside_repo: bool,
    current_dir: Option<Seq<char>>,
    temp_dir: Seq<char>,
    year: int,
) -> bool {
    if inside_repo {
        outcome == Err::<Project, InitError>(InitError::AlreadyGitDirectory)
    } else {
        match repo_name_of(dir, current_dir) {
            None => outcome == Err::<Project, InitError>(InitError::InvalidDir),
            Some(repo) => outcome matches Ok(project) && project.describes(
                dir,
                public,
                repo,
                temp_dir,
                year,
            ),
        }
    }
}

/// Plans a run. `inside_repo` is the outcome of the check for an enclosing
/// version-controlled tree, `current_dir` the working directory if it is
/// known, `temp_dir` the directory for scratch space, `year` the present
/// calendar year.
pub fn git_init(
    dir: &str,
    public: bool,
    inside_repo: bool,
    current_dir: Option<&str>,
    temp_dir: &str,
    year: i32,
) -> (outcome: Result<Project, InitError>)
    ensures
        planned(outcome, dir@, public, inside_repo, opt_view(current_dir), temp_dir@, year as int),
{
    if inside_repo {
        return Err(InitError::AlreadyGitDirectory);
    }
    let repo_name = match get_repo_name(dir, current_dir) {
        Ok(name) => name,
        Err(_) => {
            return Err(InitError::InvalidDir);
        },
    };
    let project_title = hyphen_to_title(repo_name.as_str());
    let year = year_text(year);
    let mut scratch_name = String::from_str(repo_name.as_str());
    scratch_name.append("_template_clone");
    let scratch_dir = join_path(temp_dir, scratch_name.as_str());
    let steps = plan_steps(
        dir,
        public,
        repo_name.as_str(),
        project_title.as_str(),
        year.as_str(),
        scratch_dir.as_str(),
    );
    Ok(Project { repo_name, project_title, year, scratch_dir, steps })
}

} // verus!
