//! The log of commits, with what points at each.

use crate::git::branches::{head_branch, head_branch_short, short_ref_name};
use crate::git::types::CommitLogEntry;
use crate::text::{chars_of, concat, hex_seq, hex_string, same, string_of};
use vstd::prelude::*;

verus! {

broadcast use vstd::string::group_string_axioms;

/// How many characters of a hash are shown.
pub const SHORT_HASH_LEN: usize = 7;

/// An id in hexadecimal.
pub open spec fn hex(id: Seq<u8>) -> Seq<char> {
    hex_seq(id, id.len() as int)
}

/// The whole hash of the commit at HEAD; `None` before the first commit.
pub fn get_head_sha(head: Option<&Vec<u8>>) -> (r: Option<String>)
    ensures
        r.deep_view() == (match head {
            Some(id) => Some(hex(id@)),
            None => None,
        }),
{
    match head {
        Some(id) => Some(hex_string(id, id.len())),
        None => None,
    }
}

/// An id, where there is one.
pub open spec fn id_of(id: Option<&Vec<u8>>) -> Option<Seq<u8>> {
    match id {
        Some(id) => Some(id@),
        None => None,
    }
}

/// The first `n` characters of an id in hexadecimal, or all of them.
pub open spec fn hex_start(id: Seq<u8>, n: int) -> Seq<char> {
    if hex(id).len() > n {
        hex(id).take(n)
    } else {
        hex(id)
    }
}

/// The first `n` characters of an id in hexadecimal.
pub fn hex_prefix(id: &Vec<u8>, n: usize) -> (r: String)
    ensures
        r@ == hex_start(id@, n as int),
{
    let whole: String = hex_string(id, id.len());
    let chars: Vec<char> = chars_of(whole.as_str());
    if chars.len() > n {
        assert(chars@.subrange(0, n as int) == chars@.take(n as int));
        string_of(&chars, 0, n)
    } else {
        whole
    }
}

/// The first characters of an id in hexadecimal.
pub open spec fn short_hex(id: Seq<u8>) -> Seq<char> {
    hex_start(id, SHORT_HASH_LEN as int)
}

/// The first characters of an id in hexadecimal.
pub fn short_hash(id: &Vec<u8>) -> (r: String)
    ensures
        r@ == short_hex(id@),
{
    hex_prefix(id, SHORT_HASH_LEN)
}

/// The hash of a commit has two hexadecimal digits for each byte of its id, and
/// begins with the short hash that stands for a detached HEAD.
pub proof fn hash_begins_with_short_hash(id: Seq<u8>, n: int)
    requires
        n >= 0,
    ensures
        hex(id).len() == 2 * id.len(),
        forall|i: int|
            0 <= i < hex(id).len() ==> ('0' <= #[trigger] hex(id)[i] <= '9' || 'a' <= hex(id)[i]
                <= 'f'),
        hex_start(id, n).is_prefix_of(hex(id)),
        hex_start(id, n).len() == (if n < 2 * id.len() {
            n
        } else {
            2 * id.len() as int
        }),
{
    hex_digits(id, id.len() as int);
    assert(hex(id).take(hex(id).len() as int) == hex(id));
}

proof fn hex_digits(id: Seq<u8>, n: int)
    requires
        0 <= n <= id.len(),
    ensures
        hex_seq(id, n).len() == 2 * n,
        forall|i: int|
            0 <= i < 2 * n ==> ('0' <= #[trigger] hex_seq(id, n)[i] <= '9' || 'a' <= hex_seq(
                id,
                n,
            )[i] <= 'f'),
    decreases n,
{
    if n > 0 {
        hex_digits(id, n - 1);
        let before = hex_seq(id, n - 1);
        assert forall|i: int| 0 <= i < 2 * n implies ('0' <= #[trigger] hex_seq(id, n)[i] <= '9'
            || 'a' <= hex_seq(id, n)[i] <= 'f') by {
            if i < 2 * (n - 1) {
                assert(hex_seq(id, n)[i] == before[i]);
            }
        }
    }
}

// ---------------------------------------------------------------------------
// Labels
// ---------------------------------------------------------------------------

/// The kinds of refs that are shown.
#[derive(Clone, Copy, Debug, PartialEq, Eq, Structural)]
pub enum RefKind {
    LocalBranch,
    RemoteBranch,
    Tag,
}

/// A ref and the commit that it leads to.
#[derive(Clone, Debug, PartialEq, Eq)]
pub struct RefTip {
    pub kind: RefKind,
    /// Its full name.
    pub name: String,
    /// The commit's id; `None` where it leads to none.
    pub id: Option<Vec<u8>>,
}

/// The label of a ref. The local branch that HEAD points at says so.
pub open spec fn label_of(kind: RefKind, short: Seq<char>, head: Option<Seq<char>>) -> Seq<char> {
    match kind {
        RefKind::LocalBranch => if head == Some(short) {
            "HEAD -> "@ + short
        } else {
            short
        },
        RefKind::RemoteBranch => short,
        RefKind::Tag => "tag: "@ + short,
    }
}

/// Whether a ref leads to a commit.
pub open spec fn leads_to(tip: RefTip, id: Seq<u8>) -> bool {
    tip.id matches Some(target) && target@ == id
}

/// The labels of the refs of one kind that lead to a commit.
pub open spec fn labels_of_kind(
    tips: Seq<RefTip>,
    kind: RefKind,
    head: Option<Seq<char>>,
    id: Seq<u8>,
) -> Seq<Seq<char>>
    decreases tips.len(),
{
    if tips.len() == 0 {
        Seq::empty()
    } else {
        let before = labels_of_kind(tips.drop_last(), kind, head, id);
        let tip = tips.last();
        match short_ref_name(tip.name@) {
            Some(short) if tip.kind == kind && leads_to(tip, id) => before.push(
                label_of(kind, short, head),
            ),
            _ => before,
        }
    }
}

/// The labels of a commit: a bare `HEAD` where that is detached, local branches,
/// remote branches, and tags.
pub open spec fn labels(
    tips: Seq<RefTip>,
    head_ref: Option<Seq<char>>,
    head_id: Option<Seq<u8>>,
    id: Seq<u8>,
) -> Seq<Seq<char>> {
    let head = head_branch(head_ref);
    (if head is None && head_id == Some(id) {
        seq!["HEAD"@]
    } else {
        seq![]
    }) + labels_of_kind(tips, RefKind::LocalBranch, head, id) + labels_of_kind(
        tips,
        RefKind::RemoteBranch,
        head,
        id,
    ) + labels_of_kind(tips, RefKind::Tag, head, id)
}

fn same_id(a: &Vec<u8>, b: &Vec<u8>) -> (r: bool)
    ensures
        r == (a@ == b@),
{
    if a.len() != b.len() {
        return false;
    }
    let mut i: usize = 0;
    while i < a.len()
        invariant
            i <= a@.len() == b@.len(),
            forall|j: int| 0 <= j < i ==> a@[j] == b@[j],
        decreases a@.len() - i,
    {
        if a[i] != b[i] {
            assert(a@[i as int] != b@[i as int]);
            return false;
        }
        i = i + 1;
    }
    assert(a@ == b@);
    true
}

fn push_labels(
    out: &mut Vec<String>,
    tips: &Vec<RefTip>,
    kind: RefKind,
    head: &Option<String>,
    id: &Vec<u8>,
)
    ensures
        final(out).deep_view() == old(out).deep_view() + labels_of_kind(
            tips@,
            kind,
            head.deep_view(),
            id@,
        ),
{
    let ghost start = out.deep_view();
    let mut i: usize = 0;
    assert(start + labels_of_kind(tips@.take(0), kind, head.deep_view(), id@) == start);
    while i < tips.len()
        invariant
            i <= tips@.len(),
            out.deep_view() == start + labels_of_kind(
                tips@.take(i as int),
                kind,
                head.deep_view(),
                id@,
            ),
        decreases tips@.len() - i,
    {
        assert(tips@.take(i + 1).drop_last() == tips@.take(i as int));
        let ghost before = out.deep_view();
        let ghost done = labels_of_kind(tips@.take(i as int), kind, head.deep_view(), id@);
        let tip: &RefTip = &tips[i];
        let leads: bool = match &tip.id {
            Some(target) => same_id(target, id),
            None => false,
        };
        if tip.kind == kind && leads {
            if let Some(short) = head_branch_short(Some(tip.name.as_str())) {
                let at_head: bool = match head {
                    Some(branch) => same(branch.as_str(), short.as_str()),
                    None => false,
                };
                let ghost text = short@;
                let label: String = match kind {
                    RefKind::LocalBranch => if at_head {
                        concat("HEAD -> ", short.as_str())
                    } else {
                        short
                    },
                    RefKind::RemoteBranch => short,
                    RefKind::Tag => concat("tag: ", short.as_str()),
                };
                let ghost written = label@;
                assert(written == label_of(kind, text, head.deep_view()));
                out.push(label);
                assert(out.deep_view() == before.push(written));
                assert((start + done).push(written) == start + done.push(written));
            }
        }
        i = i + 1;
    }
    assert(tips@.take(tips@.len() as int) == tips@);
}

/// The labels of a commit. `head_ref` is the full name of the ref that HEAD
/// points at, and `head_id` the commit at HEAD.
pub fn labels_for(
    tips: &Vec<RefTip>,
    head_ref: Option<&str>,
    head_id: Option<&Vec<u8>>,
    id: &Vec<u8>,
) -> (r: Vec<String>)
    ensures
        r.deep_view() == labels(
            tips@,
            head_ref.deep_view(),
            id_of(head_id),
            id@,
        ),
{
    let head: Option<String> = head_branch_short(head_ref);
    let mut r: Vec<String> = Vec::new();
    if head.is_none() {
        if let Some(at) = head_id {
            if same_id(at, id) {
                r.push("HEAD".to_owned());
            }
        }
    }
    assert(r.deep_view() == (if head is None && (head_id matches Some(at) && at@ == id@) {
        seq!["HEAD"@]
    } else {
        seq![]
    }));
    push_labels(&mut r, tips, RefKind::LocalBranch, &head, id);
    push_labels(&mut r, tips, RefKind::RemoteBranch, &head, id);
    push_labels(&mut r, tips, RefKind::Tag, &head, id);
    r
}

// ---------------------------------------------------------------------------
// The log
// ---------------------------------------------------------------------------

/// What a commit says, as far as it could be read.
#[derive(Clone, Debug, PartialEq, Eq)]
pub struct CommitText {
    pub title: Option<String>,
    pub author: Option<String>,
    pub seconds: Option<i64>,
}

/// A commit on a walk through the history.
#[derive(Clone, Debug, PartialEq, Eq)]
pub struct WalkedCommit {
    pub id: Vec<u8>,
    pub parents: Vec<Vec<u8>>,
    /// `None` where the commit could not be loaded.
    pub text: Option<CommitText>,
}

/// A [`CommitLogEntry`] with its texts as sequences.
pub struct LogEntryModel {
    pub hash: Seq<char>,
    pub parents: Seq<Seq<char>>,
    pub message: Seq<char>,
    pub author: Seq<char>,
    pub timestamp: i64,
    pub refs: Seq<Seq<char>>,
}

impl DeepView for CommitLogEntry {
    type V = LogEntryModel;

    open spec fn deep_view(&self) -> LogEntryModel {
        LogEntryModel {
            hash: self.hash@,
            parents: self.parents.deep_view(),
            message: self.message@,
            author: self.author@,
            timestamp: self.timestamp,
            refs: self.refs.deep_view(),
        }
    }
}

/// A text, or none.
pub open spec fn text_or_empty(text: Option<Seq<char>>) -> Seq<char> {
    match text {
        Some(text) => text,
        None => Seq::empty(),
    }
}

/// The entry of a commit in the log.
pub open spec fn entry_of(
    commit: WalkedCommit,
    tips: Seq<RefTip>,
    head_ref: Option<Seq<char>>,
    head_id: Option<Seq<u8>>,
) -> LogEntryModel {
    LogEntryModel {
        hash: short_hex(commit.id@),
        parents: commit.parents@.map_values(|id: Vec<u8>| short_hex(id@)),
        message: match commit.text {
            Some(text) => text_or_empty(text.title.deep_view()),
            None => Seq::empty(),
        },
        author: match commit.text {
            Some(text) => text_or_empty(text.author.deep_view()),
            None => Seq::empty(),
        },
        timestamp: match commit.text {
            Some(CommitText { seconds: Some(seconds), .. }) => seconds,
            _ => 0,
        },
        refs: labels(tips, head_ref, head_id, commit.id@),
    }
}

/// Whether this is the entry of a step that did not fail.
pub open spec fn is_entry_of(
    entry: LogEntryModel,
    step: Option<WalkedCommit>,
    tips: Seq<RefTip>,
    head_ref: Option<Seq<char>>,
    head_id: Option<Seq<u8>>,
) -> bool {
    step matches Some(commit) && entry == entry_of(commit, tips, head_ref, head_id)
}

/// How many commits of a walk the log shows: no more than the limit, and none
/// from the first step on that failed.
pub open spec fn shown_count(walk: Seq<Option<WalkedCommit>>, limit: nat) -> nat
    decreases limit,
{
    if limit == 0 {
        0
    } else {
        let before = shown_count(walk, (limit - 1) as nat);
        if before == limit - 1 && before < walk.len() && walk[before as int] is Some {
            limit
        } else {
            before
        }
    }
}

fn string_or_empty(text: &Option<String>) -> (r: String)
    ensures
        r@ == text_or_empty(text.deep_view()),
{
    match text {
        Some(text) => text.clone(),
        None => String::new(),
    }
}

fn log_entry(
    commit: &WalkedCommit,
    tips: &Vec<RefTip>,
    head_ref: Option<&str>,
    head_id: Option<&Vec<u8>>,
) -> (r: CommitLogEntry)
    ensures
        r.deep_view() == entry_of(
            *commit,
            tips@,
            head_ref.deep_view(),
            id_of(head_id),
        ),
        commit.text matches Some(text) ==> {
            &&& text.author matches Some(name) ==> r.author@ == name@
            &&& text.title matches Some(title) ==> r.message@ == title@
            &&& text.seconds matches Some(seconds) ==> r.timestamp == seconds
        },
{
    let mut parents: Vec<String> = Vec::new();
    let mut i: usize = 0;
    while i < commit.parents.len()
        invariant
            i <= commit.parents@.len(),
            parents@.len() == i,
            forall|j: int|
                0 <= j < i ==> (#[trigger] parents@[j])@ == short_hex(commit.parents@[j]@),
        decreases commit.parents@.len() - i,
    {
        parents.push(short_hash(&commit.parents[i]));
        i = i + 1;
    }
    assert(parents.deep_view() == commit.parents@.map_values(|id: Vec<u8>| short_hex(id@)));
    let (message, author, timestamp): (String, String, i64) = match &commit.text {
        Some(text) => (
            string_or_empty(&text.title),
            string_or_empty(&text.author),
            match text.seconds {
                Some(seconds) => seconds,
                None => 0,
            },
        ),
        None => (String::new(), String::new(), 0),
    };
    CommitLogEntry {
        hash: short_hash(&commit.id),
        parents,
        message,
        author,
        timestamp,
        refs: labels_for(tips, head_ref, head_id, &commit.id),
    }
}

proof fn shown_is_all(walk: Seq<Option<WalkedCommit>>, limit: nat, n: nat)
    requires
        n <= limit,
        shown_count(walk, n) < n || n == limit || n >= walk.len() || walk[n as int] is None,
    ensures
        shown_count(walk, n) <= n,
        shown_count(walk, n) <= walk.len(),
        shown_count(walk, limit) == shown_count(walk, n),
    decreases limit,
{
    shown_is_bounded(walk, n);
    if n < limit {
        shown_is_all(walk, (limit - 1) as nat, n);
    }
}

proof fn shown_is_bounded(walk: Seq<Option<WalkedCommit>>, n: nat)
    ensures
        shown_count(walk, n) <= n,
        shown_count(walk, n) <= walk.len(),
        forall|i: int| 0 <= i < shown_count(walk, n) ==> #[trigger] walk[i] is Some,
    decreases n,
{
    if n > 0 {
        shown_is_bounded(walk, (n - 1) as nat);
    }
}

/// The log, newest first, from a walk through the history. A step of the walk
/// that failed has no value.
pub fn fetch_commit_log(
    walk: &Vec<Option<WalkedCommit>>,
    limit: usize,
    tips: &Vec<RefTip>,
    head_ref: Option<&str>,
    head_id: Option<&Vec<u8>>,
) -> (r: Vec<CommitLogEntry>)
    ensures
        r@.len() == shown_count(walk@, limit as nat),
        r@.len() <= walk@.len(),
        forall|i: int|
            0 <= i < r@.len() ==> is_entry_of(
                (#[trigger] r@[i]).deep_view(),
                walk@[i],
                tips@,
                head_ref.deep_view(),
                id_of(head_id),
            ),
{
    let mut r: Vec<CommitLogEntry> = Vec::new();
    let mut i: usize = 0;
    while i < limit && i < walk.len()
        invariant
            i <= limit,
            i <= walk@.len(),
            r@.len() == i,
            shown_count(walk@, i as nat) == i,
            forall|j: int|
                0 <= j < i ==> is_entry_of(
                (#[trigger] r@[j]).deep_view(),
                walk@[j],
                tips@,
                head_ref.deep_view(),
                id_of(head_id),
            ),
        decreases limit - i,
    {
        match &walk[i] {
            Some(commit) => {
                r.push(log_entry(commit, tips, head_ref, head_id));
            },
            None => {
                proof {
                    shown_is_all(walk@, limit as nat, i as nat);
                }
                return r;
            },
        }
        i = i + 1;
    }
    proof {
        shown_is_all(walk@, limit as nat, i as nat);
    }
    r
}

// ---------------------------------------------------------------------------
// Laws
// ---------------------------------------------------------------------------

/// The log shows the longest run of commits that were read, up to the limit: all
/// that it shows were read, and it stops short of the limit only at the end of
/// the walk or at a step that failed.
pub proof fn log_is_complete(walk: Seq<Option<WalkedCommit>>, limit: nat)
    ensures
        ({
            let n = shown_count(walk, limit);
            &&& n <= limit
            &&& forall|i: int| 0 <= i < n ==> #[trigger] walk[i] is Some
            &&& n < limit ==> n == walk.len() || walk[n as int] is None
        }),
    decreases limit,
{
    shown_is_bounded(walk, limit);
    if limit > 0 {
        log_is_complete(walk, (limit - 1) as nat);
    }
}

/// The log says of a commit what the commit says of itself: its author, its title
/// and its time, wherever it tells them, and nothing where it does not.
pub proof fn entries_say_what_commits_tell(
    commit: WalkedCommit,
    text: CommitText,
    tips: Seq<RefTip>,
    head_ref: Option<Seq<char>>,
    head_id: Option<Seq<u8>>,
)
    ensures
        ({
            let entry = entry_of(commit, tips, head_ref, head_id);
            &&& commit.text == Some(text) ==> {
                &&& text.author matches Some(name) ==> entry.author == name@
                &&& text.author is None ==> entry.author.len() == 0
                &&& text.title matches Some(title) ==> entry.message == title@
                &&& text.title is None ==> entry.message.len() == 0
                &&& text.seconds matches Some(seconds) ==> entry.timestamp == seconds
                &&& text.seconds is None ==> entry.timestamp == 0
            }
            &&& commit.text is None ==> entry.author.len() == 0 && entry.message.len() == 0
                && entry.timestamp == 0
        }),
{
}

/// Two commits that differ in author, title or time never have the same entry.
pub proof fn entries_tell_commits_apart(
    a: WalkedCommit,
    b: WalkedCommit,
    x: CommitText,
    y: CommitText,
    tips: Seq<RefTip>,
    head_ref: Option<Seq<char>>,
    head_id: Option<Seq<u8>>,
)
    requires
        a.text == Some(x),
        b.text == Some(y),
        entry_of(a, tips, head_ref, head_id) == entry_of(b, tips, head_ref, head_id),
    ensures
        x.author is Some && y.author is Some ==> x.author->0@ == y.author->0@,
        x.title is Some && y.title is Some ==> x.title->0@ == y.title->0@,
        x.seconds is Some && y.seconds is Some ==> x.seconds == y.seconds,
{
}

/// An entry names its commit and each parent by the start of its own hash, the
/// parents in their order, so that a parent is found again as the entry of the
/// commit with that id.
pub proof fn parents_are_found_again(
    child: WalkedCommit,
    parent: WalkedCommit,
    i: int,
    tips: Seq<RefTip>,
    head_ref: Option<Seq<char>>,
    head_id: Option<Seq<u8>>,
)
    requires
        0 <= i < child.parents@.len(),
        child.parents@[i]@ == parent.id@,
    ensures
        ({
            let entry = entry_of(child, tips, head_ref, head_id);
            &&& entry.parents.len() == child.parents@.len()
            &&& entry.parents[i] == entry_of(parent, tips, head_ref, head_id).hash
            &&& entry.parents[i].is_prefix_of(hex(parent.id@))
            &&& entry.hash.is_prefix_of(hex(child.id@))
            &&& 2 * child.id@.len() >= SHORT_HASH_LEN ==> entry.hash.len() == SHORT_HASH_LEN
        }),
{
    hash_begins_with_short_hash(parent.id@, SHORT_HASH_LEN as int);
    hash_begins_with_short_hash(child.id@, SHORT_HASH_LEN as int);
}

proof fn label_is_there(
    tips: Seq<RefTip>,
    kind: RefKind,
    head: Option<Seq<char>>,
    id: Seq<u8>,
    i: int,
) -> (j: int)
    requires
        0 <= i < tips.len(),
        tips[i].kind == kind,
        leads_to(tips[i], id),
        short_ref_name(tips[i].name@) is Some,
    ensures
        0 <= j < labels_of_kind(tips, kind, head, id).len(),
        labels_of_kind(tips, kind, head, id)[j] == label_of(
            kind,
            short_ref_name(tips[i].name@)->0,
            head,
        ),
    decreases tips.len(),
{
    if i < tips.len() - 1 {
        assert(tips.drop_last()[i] == tips[i]);
        label_is_there(tips.drop_last(), kind, head, id, i)
    } else {
        labels_of_kind(tips, kind, head, id).len() - 1
    }
}

proof fn no_tip_no_label(
    tips: Seq<RefTip>,
    kind: RefKind,
    head: Option<Seq<char>>,
    id: Seq<u8>,
)
    requires
        forall|i: int| 0 <= i < tips.len() ==> !leads_to(#[trigger] tips[i], id),
    ensures
        labels_of_kind(tips, kind, head, id).len() == 0,
    decreases tips.len(),
{
    if tips.len() > 0 {
        let front = tips.drop_last();
        assert forall|i: int| 0 <= i < front.len() implies !leads_to(#[trigger] front[i], id) by {
            assert(front[i] == tips[i]);
        }
        no_tip_no_label(front, kind, head, id);
        assert(tips[tips.len() - 1] == tips.last());
    }
}

/// Every ref that leads to a commit is among its labels: a tag as a tag, the
/// branch that HEAD points at with an arrow, and every other branch by its name
/// alone.
pub proof fn refs_label_their_commits(
    tips: Seq<RefTip>,
    head_ref: Option<Seq<char>>,
    head_id: Option<Seq<u8>>,
    id: Seq<u8>,
    i: int,
    short: Seq<char>,
)
    requires
        0 <= i < tips.len(),
        leads_to(tips[i], id),
        short_ref_name(tips[i].name@) == Some(short),
    ensures
        labels(tips, head_ref, head_id, id).contains(
            if tips[i].kind == RefKind::Tag {
                "tag: "@ + short
            } else if tips[i].kind == RefKind::LocalBranch && head_branch(head_ref) == Some(short) {
                "HEAD -> "@ + short
            } else {
                short
            },
        ),
{
    let head = head_branch(head_ref);
    let j = label_is_there(tips, tips[i].kind, head, id, i);
    let bare: Seq<Seq<char>> = if head is None && head_id == Some(id) {
        seq!["HEAD"@]
    } else {
        seq![]
    };
    let local = labels_of_kind(tips, RefKind::LocalBranch, head, id);
    let remote = labels_of_kind(tips, RefKind::RemoteBranch, head, id);
    let tags = labels_of_kind(tips, RefKind::Tag, head, id);
    let all = labels(tips, head_ref, head_id, id);
    assert(all == bare + local + remote + tags);
    match tips[i].kind {
        RefKind::LocalBranch => {
            assert(all[bare.len() + j] == local[j]);
        },
        RefKind::RemoteBranch => {
            assert(all[bare.len() + local.len() + j] == remote[j]);
        },
        RefKind::Tag => {
            assert(all[bare.len() + local.len() + remote.len() + j] == tags[j]);
        },
    }
}

/// A commit that no ref leads to has no label, but for a bare `HEAD` in front
/// where HEAD is detached at it.
pub proof fn only_refs_label_commits(
    tips: Seq<RefTip>,
    head_ref: Option<Seq<char>>,
    head_id: Option<Seq<u8>>,
    id: Seq<u8>,
)
    requires
        forall|i: int| 0 <= i < tips.len() ==> !leads_to(#[trigger] tips[i], id),
    ensures
        labels(tips, head_ref, head_id, id) == (if head_branch(head_ref) is None && head_id
            == Some(id) {
            seq!["HEAD"@]
        } else {
            Seq::empty()
        }),
{
    let head = head_branch(head_ref);
    no_tip_no_label(tips, RefKind::LocalBranch, head, id);
    no_tip_no_label(tips, RefKind::RemoteBranch, head, id);
    no_tip_no_label(tips, RefKind::Tag, head, id);
    assert(labels(tips, head_ref, head_id, id) =~= (if head is None && head_id == Some(id) {
        seq!["HEAD"@]
    } else {
        Seq::empty()
    }));
}

} // verus!
