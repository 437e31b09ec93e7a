//! Where the project and its worktrees lie.

use crate::path::{
    components_seq, file_name, file_name_seq, is_absolute, join_path, join_path_seq,
    lacks_dots, normalize_path, normalize_seq, normalizing_is_idempotent, strip_base, strip_base_seq, stripped_path_leads_back,
};
use crate::text::{
    absent_patterns_change_nothing, first_occurrence_is_replaced, occurs_at, replace, replace_seq, replaced_character_is_gone,
};
use vstd::prelude::*;

verus! {

broadcast use vstd::string::group_string_axioms;

/// The project's directory below the root of its repository; empty where the
/// project is the root, or lies outside of it.
pub open spec fn subdir_of(project: Seq<char>, root: Seq<char>) -> Seq<char> {
    match strip_base_seq(normalize_seq(project), normalize_seq(root)) {
        Some(subdir) => subdir,
        None => Seq::empty(),
    }
}

/// The root of a project's repository, and the project's directory below it.
/// `repo_root` is the root that git found; without one the project is its own.
pub fn resolve_git_root_and_subdir(project_path: &str, repo_root: Option<&str>) -> (r: (
    String,
    String,
))
    ensures
        r.0@ == (match repo_root {
            Some(root) => root@,
            None => project_path@,
        }),
        r.1@ == subdir_of(project_path@, r.0@),
{
    let root: &str = match repo_root {
        Some(root) => root,
        None => project_path,
    };
    let project_text: String = normalize_path(project_path);
    let root_text: String = normalize_path(root);
    let subdir: String = match strip_base(project_text.as_str(), root_text.as_str()) {
        Some(subdir) => subdir,
        None => String::new(),
    };
    (root.to_owned(), subdir)
}

/// The project's path in a worktree.
pub open spec fn project_path_model(worktree: Seq<char>, subdir: Seq<char>) -> Seq<char> {
    if subdir.len() == 0 {
        worktree
    } else {
        join_path_seq(worktree, subdir)
    }
}

/// The project's path in a worktree, from its directory below the root.
pub fn project_path_in_worktree(worktree_path: &str, subdir: &str) -> (r: String)
    ensures
        r@ == project_path_model(worktree_path@, subdir@),
{
    if subdir.is_empty() {
        worktree_path.to_owned()
    } else {
        join_path(worktree_path, subdir)
    }
}

/// A worktree template with the names filled in. Slashes in the branch become
/// hyphens.
pub open spec fn expanded_template(
    git_root: Seq<char>,
    template: Seq<char>,
    branch: Seq<char>,
) -> Seq<char> {
    let repo = match file_name_seq(git_root) {
        Some(name) => name,
        None => "repo"@,
    };
    replace_seq(
        replace_seq(template, "{repo}"@, repo),
        "{branch}"@,
        replace_seq(branch, "/"@, "-"@),
    )
}

/// The path of a worktree: the template, below the root unless it is absolute.
pub open spec fn worktree_path_model(
    git_root: Seq<char>,
    template: Seq<char>,
    branch: Seq<char>,
) -> Seq<char> {
    let expanded = expanded_template(git_root, template, branch);
    if "/"@.is_prefix_of(expanded) {
        expanded
    } else {
        normalize_seq(join_path_seq(git_root, expanded))
    }
}

/// The paths of a worktree, and of the project in it.
pub fn compute_target_paths(git_root: &str, subdir: &str, template: &str, branch: &str) -> (r: (
    String,
    String,
))
    ensures
        r.0@ == worktree_path_model(git_root@, template@, branch@),
        r.1@ == project_path_model(r.0@, subdir@),
{
    proof {
        reveal_strlit("/");
        reveal_strlit("{repo}");
        reveal_strlit("{branch}");
    }
    let repo_name: String = match file_name(git_root) {
        Some(name) => name,
        None => "repo".to_owned(),
    };
    let safe_branch: String = replace(branch, "/", "-");
    let named: String = replace(template, "{repo}", repo_name.as_str());
    let expanded: String = replace(named.as_str(), "{branch}", safe_branch.as_str());
    let worktree: String = if is_absolute(expanded.as_str()) {
        expanded
    } else {
        normalize_path(join_path(git_root, expanded.as_str()).as_str())
    };
    let project: String = project_path_in_worktree(worktree.as_str(), subdir);
    (worktree, project)
}

/// The root of a repository and the project's directory below it lead back to the
/// project. That directory is relative where the root has any name or the project
/// is relative, and empty where the project is the root.
pub proof fn subdir_leads_back(project: Seq<char>, root: Seq<char>)
    requires
        components_seq(normalize_seq(root)).is_prefix_of(components_seq(normalize_seq(project))),
    ensures
        normalize_seq(join_path_seq(root, subdir_of(project, root))) == normalize_seq(project),
        normalize_seq(root).len() > 0 || !"/"@.is_prefix_of(normalize_seq(project))
            ==> !"/"@.is_prefix_of(subdir_of(project, root)),
        normalize_seq(project) == normalize_seq(root) ==> subdir_of(project, root).len() == 0,
{
    stripped_path_leads_back(project, root);
}

/// A template without a place for the repository or the branch is the path itself.
pub proof fn plain_templates_are_paths(
    git_root: Seq<char>,
    template: Seq<char>,
    branch: Seq<char>,
)
    requires
        forall|i: int| !occurs_at(template, "{repo}"@, i),
        forall|i: int| !occurs_at(template, "{branch}"@, i),
    ensures
        expanded_template(git_root, template, branch) == template,
        "/"@.is_prefix_of(template) ==> worktree_path_model(git_root, template, branch)
            == template,
{
    let repo = match file_name_seq(git_root) {
        Some(name) => name,
        None => "repo"@,
    };
    absent_patterns_change_nothing(template, "{repo}"@, repo);
    absent_patterns_change_nothing(template, "{branch}"@, replace_seq(branch, "/"@, "-"@));
}

/// A branch takes one directory, however many slashes its name has, and goes by its
/// own name where it has none.
pub proof fn branches_take_one_directory(branch: Seq<char>)
    ensures
        !replace_seq(branch, "/"@, "-"@).contains('/'),
        (forall|i: int| !occurs_at(branch, "/"@, i)) ==> replace_seq(branch, "/"@, "-"@) == branch,
{
    reveal_strlit("/");
    reveal_strlit("-");
    assert("/"@ == seq!['/']);
    replaced_character_is_gone(branch, '/', "-"@);
    if forall|i: int| !occurs_at(branch, "/"@, i) {
        absent_patterns_change_nothing(branch, "/"@, "-"@);
    }
}

/// A project at the root of its repository lies at the root of the worktree.
pub proof fn root_projects_stay_at_the_root(worktree: Seq<char>)
    ensures
        project_path_model(worktree, Seq::empty()) == worktree,
{
}

/// The name of the repository takes its place in a template.
pub proof fn repositories_take_their_place(
    git_root: Seq<char>,
    before: Seq<char>,
    after: Seq<char>,
    branch: Seq<char>,
    repo: Seq<char>,
)
    requires
        file_name_seq(git_root) == Some(repo),
        forall|k: int|
            0 <= k < before.len() ==> !occurs_at(before + "{repo}"@ + after, "{repo}"@, k),
        forall|k: int| !occurs_at(after, "{repo}"@, k),
        forall|k: int| !occurs_at(before + repo + after, "{branch}"@, k),
    ensures
        expanded_template(git_root, before + "{repo}"@ + after, branch) == before + repo + after,
{
    reveal_strlit("{repo}");
    let place = "{repo}"@;
    let template = before + place + after;
    let n = before.len() as int;
    assert(place.len() > 0);
    assert(template.subrange(n, n + place.len()) == place);
    assert(template.take(n) == before);
    assert(template.skip(n + place.len()) == after);
    first_occurrence_is_replaced(template, place, repo, n);
    absent_patterns_change_nothing(after, place, repo);
    absent_patterns_change_nothing(
        before + repo + after,
        "{branch}"@,
        replace_seq(branch, "/"@, "-"@),
    );
}

/// The branch takes its place in a template, with hyphens for its slashes.
pub proof fn branches_take_their_place(
    git_root: Seq<char>,
    before: Seq<char>,
    after: Seq<char>,
    branch: Seq<char>,
    repo: Seq<char>,
)
    requires
        file_name_seq(git_root) == Some(repo),
        forall|k: int| !occurs_at(before + "{branch}"@ + after, "{repo}"@, k),
        forall|k: int|
            0 <= k < before.len() ==> !occurs_at(before + "{branch}"@ + after, "{branch}"@, k),
        forall|k: int| !occurs_at(after, "{branch}"@, k),
    ensures
        expanded_template(git_root, before + "{branch}"@ + after, branch) == before + replace_seq(
            branch,
            "/"@,
            "-"@,
        ) + after,
{
    reveal_strlit("{branch}");
    let place = "{branch}"@;
    let short = replace_seq(branch, "/"@, "-"@);
    let template = before + place + after;
    let n = before.len() as int;
    assert(place.len() > 0);
    assert(template.subrange(n, n + place.len()) == place);
    assert(template.take(n) == before);
    assert(template.skip(n + place.len()) == after);
    absent_patterns_change_nothing(template, "{repo}"@, repo);
    first_occurrence_is_replaced(template, place, short, n);
    absent_patterns_change_nothing(after, place, short);
}

/// A worktree lies where the template says, seen from the repository, and its path has no
/// dots left; a template for an absolute path is taken as it is.
pub proof fn worktree_paths_are_plain(git_root: Seq<char>, template: Seq<char>, branch: Seq<char>)
    ensures
        ({
            let expanded = expanded_template(git_root, template, branch);
            let path = worktree_path_model(git_root, template, branch);
            &&& "/"@.is_prefix_of(expanded) ==> path == expanded
            &&& !"/"@.is_prefix_of(expanded) ==> {
                &&& lacks_dots(components_seq(path))
                &&& normalize_seq(path) == path
                &&& path == normalize_seq(join_path_seq(git_root, expanded))
            }
        }),
{
    normalizing_is_idempotent(
        join_path_seq(git_root, expanded_template(git_root, template, branch)),
    );
}

} // verus!
