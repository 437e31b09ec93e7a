//! The branches of a repository.

use crate::git::commit_log::{hex_prefix, hex_start};
use crate::text::{
    concat, contains_text, ends_with, strip_prefix, strip_prefix_seq, texts_without,
    without_leaves_the_rest, without_texts,
};
use vstd::prelude::*;

verus! {

broadcast use vstd::string::group_string_axioms;

/// The short form of a ref's full name, such as `main` for `refs/heads/main`;
/// `None` where the name is not valid.
pub uninterp spec fn short_ref_name(full: Seq<char>) -> Option<Seq<char>>;

/// Whether a ref is a branch or a tag, by its full name.
pub open spec fn is_branch_or_tag(full: Seq<char>) -> bool {
    "refs/heads/"@.is_prefix_of(full) || "refs/remotes/"@.is_prefix_of(full)
        || "refs/tags/"@.is_prefix_of(full)
}

/// Whether a name is made of parts between single slashes, each of them of ASCII
/// letters, digits, hyphens and underscores.
pub open spec fn is_common_name(name: Seq<char>) -> bool {
    &&& name.len() > 0 && name.last() != '/'
    &&& forall|i: int|
        0 <= i < name.len() ==> {
            let c = #[trigger] name[i];
            'a' <= c <= 'z' || 'A' <= c <= 'Z' || '0' <= c <= '9' || c == '-' || c == '_' || c
                == '/'
        }
    &&& forall|i: int| 0 < i < name.len() && name[i] == '/' ==> #[trigger] name[i - 1] != '/'
}

/// Whether `short` is what is left of the full name of a branch or a tag: the
/// whole of what follows the prefix. Every branch and tag with a common name has
/// a short one.
pub open spec fn is_short_for(full: Seq<char>, short: Option<Seq<char>>) -> bool {
    &&& is_branch_or_tag(full) && is_common_name(full) ==> short is Some
    &&& short matches Some(name) ==> {
        &&& "refs/heads/"@.is_prefix_of(full) ==> full == "refs/heads/"@ + name
        &&& "refs/remotes/"@.is_prefix_of(full) ==> full == "refs/remotes/"@ + name
        &&& "refs/tags/"@.is_prefix_of(full) ==> full == "refs/tags/"@ + name
    }
}

/// `gix::refs::FullName::try_from` and `FullNameRef::shorten` on what it gives:
/// a valid name without the prefix that says what kind of ref it is. A branch or
/// a tag whose name is made of letters, digits, hyphens and underscores between
/// single slashes is valid. Which other names are, and what the prefix of other
/// refs becomes, is left unsaid.
#[verifier::external_body]
fn shorten_ref(full: &str) -> (r: Option<String>)
    ensures
        r.deep_view() == short_ref_name(full@),
        is_short_for(full@, r.deep_view()),
{
    gix::refs::FullName::try_from(full).ok().map(|name| name.shorten().to_string())
}

/// The branch that HEAD points at; `None` where HEAD is detached.
pub open spec fn head_branch(head: Option<Seq<char>>) -> Option<Seq<char>> {
    match head {
        Some(full) => short_ref_name(full),
        None => None,
    }
}

/// The short name of the branch that HEAD points at. `head` is the ref's full
/// name.
pub fn head_branch_short(head: Option<&str>) -> (r: Option<String>)
    ensures
        r.deep_view() == head_branch(head.deep_view()),
        head.deep_view() matches Some(full) ==> is_short_for(full, r.deep_view()),
{
    match head {
        Some(full) => shorten_ref(full),
        None => None,
    }
}

/// The branch of a working directory: the one that HEAD points at, or where it
/// is detached the first characters of its commit's hash, as many as tell it
/// apart from others. `detached` is the commit's id and that number.
pub fn get_current_branch(head: Option<&str>, detached: Option<(&Vec<u8>, usize)>) -> (r: Option<
    String,
>)
    ensures
        r.deep_view() == (match head.deep_view() {
            Some(full) => short_ref_name(full),
            None => match detached {
                Some((id, n)) => Some(hex_start(id@, n as int)),
                None => None,
            },
        }),
        head.deep_view() matches Some(full) ==> is_short_for(full, r.deep_view()),
{
    match head {
        Some(full) => shorten_ref(full),
        None => match detached {
            Some((id, n)) => Some(hex_prefix(id, n)),
            None => None,
        },
    }
}

// ---------------------------------------------------------------------------
// Lists of branches
// ---------------------------------------------------------------------------

/// The branches of a repository.
#[derive(Clone, Debug, PartialEq, Eq)]
pub struct BranchList {
    pub local: Vec<String>,
    /// The remote branches without a local one, with the remote's name.
    pub remote: Vec<String>,
    /// The branch that HEAD points at; `None` where it is detached.
    pub current: Option<String>,
}

impl Default for BranchList {
    /// No branch at all.
    fn default() -> (r: BranchList)
        ensures
            r.local@.len() == 0,
            r.remote@.len() == 0,
            r.current is None,
    {
        BranchList { local: Vec::new(), remote: Vec::new(), current: None }
    }
}

/// The short names of refs, without empty ones.
pub open spec fn short_names(refs: Seq<Seq<char>>) -> Seq<Seq<char>>
    decreases refs.len(),
{
    if refs.len() == 0 {
        Seq::empty()
    } else {
        let before = short_names(refs.drop_last());
        match short_ref_name(refs.last()) {
            Some(name) if name.len() > 0 => before.push(name),
            _ => before,
        }
    }
}

/// Whether a remote branch is worth a place of its own: it is not the remote's
/// HEAD, and no local branch stands for it.
pub open spec fn is_shown_remote(name: Seq<char>, local: Seq<Seq<char>>) -> bool {
    &&& !"/HEAD"@.is_suffix_of(name)
    &&& !(strip_prefix_seq(name, "origin/"@) matches Some(rest) && local.contains(rest))
}

/// The remote branches that have no local one.
pub open spec fn shown_remotes(names: Seq<Seq<char>>, local: Seq<Seq<char>>) -> Seq<Seq<char>> {
    names.filter(|name: Seq<char>| is_shown_remote(name, local))
}

fn short_names_of(refs: &Vec<String>) -> (r: Vec<String>)
    ensures
        r.deep_view() == short_names(refs.deep_view()),
        forall|i: int|
            #![trigger refs.deep_view()[i]]
            0 <= i < refs@.len() ==> is_short_for(
                refs.deep_view()[i],
                short_ref_name(refs.deep_view()[i]),
            ),
{
    let ghost model = refs.deep_view();
    let mut r: Vec<String> = Vec::new();
    let mut i: usize = 0;
    assert(r.deep_view() == short_names(model.take(0)));
    while i < refs.len()
        invariant
            i <= refs@.len(),
            model == refs.deep_view(),
            r.deep_view() == short_names(model.take(i as int)),
            forall|j: int|
                0 <= j < i ==> is_short_for(#[trigger] model[j], short_ref_name(model[j])),
        decreases refs@.len() - i,
    {
        assert(model.take(i + 1).drop_last() == model.take(i as int));
        assert(model[i as int] == refs@[i as int]@);
        if let Some(name) = shorten_ref(refs[i].as_str()) {
            if !name.as_str().is_empty() {
                let ghost before = r.deep_view();
                let ghost text = name@;
                r.push(name);
                assert(r.deep_view() == before.push(text));
            }
        }
        i = i + 1;
    }
    assert(model.take(model.len() as int) == model);
    r
}

/// The branches of a repository, from the full names of its refs and of the one
/// that HEAD points at.
pub fn list_branches_classified(
    local_refs: &Vec<String>,
    remote_refs: &Vec<String>,
    head: Option<&str>,
) -> (r: BranchList)
    ensures
        r.local.deep_view() == short_names(local_refs.deep_view()),
        r.remote.deep_view() == shown_remotes(
            short_names(remote_refs.deep_view()),
            short_names(local_refs.deep_view()),
        ),
        r.current.deep_view() == head_branch(head.deep_view()),
        head.deep_view() matches Some(full) ==> is_short_for(full, r.current.deep_view()),
        forall|i: int|
            #![trigger local_refs.deep_view()[i]]
            0 <= i < local_refs@.len() ==> is_short_for(
                local_refs.deep_view()[i],
                short_ref_name(local_refs.deep_view()[i]),
            ),
        forall|i: int|
            #![trigger remote_refs.deep_view()[i]]
            0 <= i < remote_refs@.len() ==> is_short_for(
                remote_refs.deep_view()[i],
                short_ref_name(remote_refs.deep_view()[i]),
            ),
{
    let local: Vec<String> = short_names_of(local_refs);
    let names: Vec<String> = short_names_of(remote_refs);
    let ghost known = local.deep_view();
    let ghost model = names.deep_view();
    let mut remote: Vec<String> = Vec::new();
    let mut i: usize = 0;
    proof {
        reveal(Seq::filter);
    }
    assert(remote.deep_view() == shown_remotes(model.take(0), known));
    while i < names.len()
        invariant
            i <= names@.len(),
            known == local.deep_view(),
            model == names.deep_view(),
            remote.deep_view() == shown_remotes(model.take(i as int), known),
        decreases names@.len() - i,
    {
        proof {
            reveal(Seq::filter);
        }
        assert(model.take(i + 1).drop_last() == model.take(i as int));
        assert(model.take(i + 1).last() == names@[i as int]@);
        let name: &str = names[i].as_str();
        let covered: bool = match strip_prefix(name, "origin/") {
            Some(rest) => contains_text(&local, rest.as_str()),
            None => false,
        };
        if !ends_with(name, "/HEAD") && !covered {
            assert(is_shown_remote(name@, known));
            let ghost before = remote.deep_view();
            remote.push(name.to_owned());
            assert(remote.deep_view() == before.push(name@));
        } else {
            assert(!is_shown_remote(name@, known));
        }
        i = i + 1;
    }
    assert(model.take(model.len() as int) == model);
    BranchList { local, remote, current: head_branch_short(head) }
}

/// All branches, the local ones first.
pub fn list_branches(list: BranchList) -> (r: Vec<String>)
    ensures
        r.deep_view() == list.local.deep_view() + list.remote.deep_view(),
{
    let mut r: Vec<String> = list.local;
    let mut remote: Vec<String> = list.remote;
    let ghost local = r.deep_view();
    let ghost more = remote.deep_view();
    r.append(&mut remote);
    assert(r.deep_view() == local + more);
    r
}

/// The branches that are checked out nowhere.
pub fn get_available_branches_for_worktree(all: &Vec<String>, used: &Vec<String>) -> (r: Vec<
    String,
>)
    ensures
        r.deep_view() == texts_without(all.deep_view(), used.deep_view()),
{
    without_texts(all, used)
}

/// The default branch that origin's HEAD names.
pub open spec fn origin_default(origin_head: Option<Seq<char>>) -> Option<Seq<char>> {
    match origin_head {
        Some(target) => match strip_prefix_seq(target, "refs/remotes/origin/"@) {
            Some(branch) if branch.len() > 0 => Some(branch),
            _ => None,
        },
        None => None,
    }
}

/// The default branch: the one that origin's HEAD names, or else a local `main`
/// or `master`. `origin_head` is the full name of the ref that
/// `refs/remotes/origin/HEAD` points at.
pub fn get_default_branch(origin_head: Option<&str>, has_main: bool, has_master: bool) -> (r:
    Option<String>)
    ensures
        r.deep_view() == (match origin_default(origin_head.deep_view()) {
            Some(branch) => Some(branch),
            None => if has_main {
                Some("main"@)
            } else if has_master {
                Some("master"@)
            } else {
                None
            },
        }),
{
    if let Some(target) = origin_head {
        if let Some(branch) = strip_prefix(target, "refs/remotes/origin/") {
            if !branch.as_str().is_empty() {
                return Some(branch);
            }
        }
    }
    if has_main {
        Some("main".to_owned())
    } else if has_master {
        Some("master".to_owned())
    } else {
        None
    }
}

/// The revisions that are not yet at origin.
pub fn unpushed_revisions(branch: &str) -> (r: String)
    ensures
        r@ == "origin/"@ + branch@ + "..HEAD"@,
{
    let mut r: String = concat("origin/", branch);
    r.push_str("..HEAD");
    r
}

// ---------------------------------------------------------------------------
// Laws
// ---------------------------------------------------------------------------

/// A branch of origin that exists locally is listed once, by its local name; and
/// no HEAD of a remote is listed.
pub proof fn local_branches_win(names: Seq<Seq<char>>, local: Seq<Seq<char>>, branch: Seq<char>)
    requires
        local.contains(branch),
    ensures
        !shown_remotes(names, local).contains("origin/"@ + branch),
        forall|name: Seq<char>| #[trigger]
            shown_remotes(names, local).contains(name) ==> !"/HEAD"@.is_suffix_of(name),
{
    let shown = |name: Seq<char>| is_shown_remote(name, local);
    let listed = names.filter(shown);
    assert forall|name: Seq<char>| #[trigger] listed.contains(name) implies is_shown_remote(
        name,
        local,
    ) by {
        let i = choose|i: int| 0 <= i < listed.len() && listed[i] == name;
        names.lemma_filter_pred(shown, i);
    }
    let full = "origin/"@ + branch;
    assert("origin/"@.is_prefix_of(full)) by {
        assert(full.subrange(0, "origin/"@.len() as int) == "origin/"@);
    }
    assert(full.skip("origin/"@.len() as int) == branch);
    assert(!is_shown_remote(full, local));
}

/// Every remote branch that no local one stands for is listed.
pub proof fn other_remotes_are_listed(
    names: Seq<Seq<char>>,
    local: Seq<Seq<char>>,
    name: Seq<char>,
)
    requires
        names.contains(name),
        is_shown_remote(name, local),
    ensures
        shown_remotes(names, local).contains(name),
{
    let shown = |name: Seq<char>| is_shown_remote(name, local);
    let i = choose|i: int| 0 <= i < names.len() && names[i] == name;
    assert(shown(names[i]));
    names.lemma_filter_contains(shown, i);
}

/// The branches of two lists are those of the one and those of the other, in order,
/// each by its short name.
pub proof fn branches_keep_their_order(first: Seq<Seq<char>>, second: Seq<Seq<char>>, full: Seq<char>)
    ensures
        short_names(first + second) == short_names(first) + short_names(second),
        short_ref_name(full) is Some && short_ref_name(full)->0.len() > 0 ==> short_names(
            seq![full],
        ) == seq![short_ref_name(full)->0],
    decreases second.len(),
{
    assert(seq![full].drop_last() == Seq::<Seq<char>>::empty());
    assert(short_names(Seq::<Seq<char>>::empty()) == Seq::<Seq<char>>::empty());
    assert(short_ref_name(full) is Some && short_ref_name(full)->0.len() > 0 ==> short_names(
        seq![full],
    ) =~= seq![short_ref_name(full)->0]);
    if second.len() == 0 {
        assert(first + second == first);
        assert(short_names(first) + short_names(second) == short_names(first));
    } else {
        branches_keep_their_order(first, second.drop_last(), full);
        assert((first + second).drop_last() == first + second.drop_last());
        assert(short_names(first + second) =~= short_names(first) + short_names(second));
    }
}

/// A branch can have a worktree just where it has none yet.
pub proof fn used_branches_are_not_offered(
    all: Seq<Seq<char>>,
    used: Seq<Seq<char>>,
    branch: Seq<char>,
)
    ensures
        texts_without(all, used).contains(branch) <==> all.contains(branch) && !used.contains(
            branch,
        ),
{
    without_leaves_the_rest(all, used, branch);
}

/// The default branch is the one that the remote's HEAD leads to, whatever else it
/// might be called.
pub proof fn remote_head_is_the_default(branch: Seq<char>)
    requires
        branch.len() > 0,
    ensures
        origin_default(Some("refs/remotes/origin/"@ + branch)) == Some(branch),
        origin_default(None) is None,
{
    let prefix = "refs/remotes/origin/"@;
    assert(prefix.is_prefix_of(prefix + branch));
    assert((prefix + branch).skip(prefix.len() as int) == branch);
}

} // verus!
